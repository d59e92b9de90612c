//! A type-erased handle to one widget, and the four tree walks of the UI
//! core: describing layout ([`Element::node`]), dispatching events
//! ([`Element::on_event`]), drawing with cursor aggregation
//! ([`Element::draw`]) and content hashing ([`Element::hash`]).
//!
//! The set of widget kinds is closed, so the handle is a tagged variant
//! over them: containers own their children as elements, which forms the
//! tree. An element carries no state of its own; the persistent button
//! states live in a caller-owned slice that dispatch borrows for one
//! call.

use vstd::prelude::*;

use crate::graphics::Color;
use crate::graphics::Point;
use crate::graphics::Rectangle;
use crate::input::ButtonState;
use crate::input::MouseButton;
use crate::ui::button::Button;
use crate::ui::button::Renderer as ButtonRenderer;
use crate::ui::button::State;
use crate::ui::checkbox::Renderer as CheckboxRenderer;
use crate::ui::mouse_cursor::cursor_merge;
use crate::ui::radio::Renderer as RadioRenderer;
use crate::ui::text::Renderer as TextRenderer;
use crate::ui::checkbox::Checkbox;
use crate::ui::column::Column;
use crate::ui::event::Event;
use crate::ui::hasher::Hasher;
use crate::ui::hasher::spec_hash_opt;
use crate::ui::hasher::spec_hash_str;
use crate::ui::hasher::spec_mix;
use crate::ui::layout::Layout;
use crate::ui::layout::layout_children_view;
use crate::ui::layout::layout_view;
use crate::ui::mouse_cursor::MouseCursor;
use crate::ui::mouse_cursor::spec_cursor_merge;
use crate::ui::node::Node;
use crate::ui::radio::Radio;
use crate::ui::row::Row;
use crate::ui::style::Align;
use crate::ui::style::Direction;
use crate::ui::style::Style;
use crate::ui::text::Text;
use crate::graphics::spec_contains;

verus! {

/// An owning, type-erased handle to exactly one widget.
pub enum Element<M> {
    /// A clickable labelled button.
    Button(Button<M>),
    /// A toggle control with a label.
    Checkbox(Checkbox<M>),
    /// One selectable option of a group.
    Radio(Radio<M>),
    /// A run of text.
    Text(Text),
    /// A horizontal container.
    Row(Row<M>),
    /// A vertical container.
    Column(Column<M>),
}

/// The rectangle a resolved layout node covers.
pub open spec fn spec_bounds(l: Layout) -> Rectangle<u32> {
    Rectangle { x: l.x, y: l.y, width: l.width, height: l.height }
}

/// Whether `ev` is a press of the left mouse button.
pub open spec fn is_left_press(ev: Event) -> bool {
    ev == (Event::MouseInput { state: ButtonState::Pressed, button: MouseButton::Left })
}

/// Whether `ev` is a release of the left mouse button.
pub open spec fn is_left_release(ev: Event) -> bool {
    ev == (Event::MouseInput { state: ButtonState::Released, button: MouseButton::Left })
}

/// Every button in the tree points into a state slice of length `len`.
pub open spec fn wf_states<M>(e: Element<M>, len: nat) -> bool
    decreases e, 0int,
{
    match e {
        Element::Button(b) => b.state < len,
        Element::Row(r) => wf_states_children(r.children@, len),
        Element::Column(c) => wf_states_children(c.children@, len),
        _ => true,
    }
}

/// [`wf_states`] of every element of a child sequence.
pub open spec fn wf_states_children<M>(cs: Seq<Element<M>>, len: nat) -> bool
    decreases cs, 1int,
{
    cs.len() == 0 || (wf_states(cs[0], len) && wf_states_children(
        cs.subrange(1, cs.len() as int),
        len,
    ))
}

/// The layout tree has the shape the widget tree demands: containers
/// have one layout child per element child, and labelled toggles have
/// their two parts (box and label).
pub open spec fn shape_ok<M>(e: Element<M>, l: Layout) -> bool
    decreases e, 0int,
{
    match e {
        Element::Button(_) => true,
        Element::Text(_) => true,
        Element::Checkbox(_) => l.children@.len() == 2,
        Element::Radio(_) => l.children@.len() == 2,
        Element::Row(r) => r.children@.len() == l.children@.len() && shape_ok_children(
            r.children@,
            l.children@,
        ),
        Element::Column(c) => c.children@.len() == l.children@.len() && shape_ok_children(
            c.children@,
            l.children@,
        ),
    }
}

/// [`shape_ok`] of children paired by index.
pub open spec fn shape_ok_children<M>(cs: Seq<Element<M>>, ls: Seq<Layout>) -> bool
    decreases cs, 1int,
{
    cs.len() == 0 || ls.len() == 0 || (shape_ok(cs[0], ls[0]) && shape_ok_children(
        cs.subrange(1, cs.len() as int),
        ls.subrange(1, ls.len() as int),
    ))
}

/// What dispatching `ev` at a button does: a left press records whether
/// it landed inside the bounds; a left release emits the configured
/// message exactly when the recorded press was inside and the release is
/// too, and always clears the recorded press.
pub open spec fn spec_button_on_event<M>(
    b: Button<M>,
    ev: Event,
    l: Layout,
    cursor: Point,
    states: Seq<State>,
) -> (Seq<M>, Seq<State>) {
    let inside = spec_contains(spec_bounds(l), cursor);
    if b.state >= states.len() {
        (Seq::empty(), states)
    } else if is_left_press(ev) {
        (Seq::empty(), states.update(b.state as int, State { is_pressed: inside }))
    } else if is_left_release(ev) {
        let emits = states[b.state as int].is_pressed && inside && b.on_click is Some;
        (
            if emits {
                seq![b.on_click->Some_0]
            } else {
                Seq::empty()
            },
            states.update(b.state as int, State { is_pressed: false }),
        )
    } else {
        (Seq::empty(), states)
    }
}

/// The messages and updated states dispatching `ev` through the tree
/// produces: depth-first, children in push order, message order
/// following traversal order, state updates threaded left to right.
pub open spec fn spec_on_event<M>(
    e: Element<M>,
    ev: Event,
    l: Layout,
    cursor: Point,
    states: Seq<State>,
) -> (Seq<M>, Seq<State>)
    decreases e, 0int,
{
    match e {
        Element::Button(b) => spec_button_on_event(b, ev, l, cursor, states),
        Element::Checkbox(c) => (
            if is_left_press(ev) && spec_contains(spec_bounds(l), cursor) {
                seq![c.on_toggle]
            } else {
                Seq::empty()
            },
            states,
        ),
        Element::Radio(r) => (
            if is_left_press(ev) && spec_contains(spec_bounds(l), cursor) {
                seq![r.on_click]
            } else {
                Seq::empty()
            },
            states,
        ),
        Element::Text(_) => (Seq::empty(), states),
        Element::Row(r) => spec_on_event_children(r.children@, l.children@, ev, cursor, states),
        Element::Column(c) => spec_on_event_children(c.children@, l.children@, ev, cursor, states),
    }
}

/// Dispatch over a child sequence: each child appends its messages and
/// hands the updated states to the next.
pub open spec fn spec_on_event_children<M>(
    cs: Seq<Element<M>>,
    ls: Seq<Layout>,
    ev: Event,
    cursor: Point,
    states: Seq<State>,
) -> (Seq<M>, Seq<State>)
    decreases cs, 1int,
{
    if cs.len() == 0 || ls.len() == 0 {
        (Seq::empty(), states)
    } else {
        let head = spec_on_event(cs[0], ev, ls[0], cursor, states);
        let rest = spec_on_event_children(
            cs.subrange(1, cs.len() as int),
            ls.subrange(1, ls.len() as int),
            ev,
            cursor,
            head.1,
        );
        (head.0 + rest.0, rest.1)
    }
}

/// The cursor hint drawing the tree resolves: interactive leaves report
/// a pointing hand while hovered, text reports the default, containers
/// fold their children bottom-up with non-default hints overriding.
pub open spec fn spec_draw<M>(e: Element<M>, l: Layout, cursor: Point) -> MouseCursor
    decreases e, 0int,
{
    match e {
        Element::Button(_) => if spec_contains(spec_bounds(l), cursor) {
            MouseCursor::Pointer
        } else {
            MouseCursor::Default
        },
        Element::Checkbox(_) => if spec_contains(spec_bounds(l), cursor) {
            MouseCursor::Pointer
        } else {
            MouseCursor::Default
        },
        Element::Radio(_) => if spec_contains(spec_bounds(l), cursor) {
            MouseCursor::Pointer
        } else {
            MouseCursor::Default
        },
        Element::Text(_) => MouseCursor::Default,
        Element::Row(r) => spec_draw_children(r.children@, l.children@, cursor, MouseCursor::Default),
        Element::Column(c) => spec_draw_children(
            c.children@,
            l.children@,
            cursor,
            MouseCursor::Default,
        ),
    }
}

/// The fold of the children's hints, left to right, starting from `acc`.
pub open spec fn spec_draw_children<M>(
    cs: Seq<Element<M>>,
    ls: Seq<Layout>,
    cursor: Point,
    acc: MouseCursor,
) -> MouseCursor
    decreases cs, 1int,
{
    if cs.len() == 0 || ls.len() == 0 {
        acc
    } else {
        spec_draw_children(
            cs.subrange(1, cs.len() as int),
            ls.subrange(1, ls.len() as int),
            cursor,
            spec_cursor_merge(acc, spec_draw(cs[0], ls[0], cursor)),
        )
    }
}

/// The digest contribution of a style: every constraint that can change
/// resolved geometry.
pub open spec fn spec_hash_style(st: u64, s: Style) -> u64 {
    let st1 = spec_hash_opt(st, s.width);
    let st2 = spec_hash_opt(st1, s.height);
    let st3 = spec_hash_opt(st2, s.max_width);
    let st4 = spec_hash_opt(st3, s.max_height);
    let st5 = spec_mix(st4, s.padding as u64);
    let st6 = spec_mix(st5, s.grow as u64);
    let st7 = spec_mix(
        st6,
        match s.align {
            Align::Start => 0u64,
            Align::Center => 1u64,
            Align::End => 2u64,
            Align::Stretch => 3u64,
        },
    );
    spec_mix(
        st7,
        match s.direction {
            Direction::Row => 0u64,
            Direction::Column => 1u64,
        },
    )
}

/// The digest of a widget tree: each widget folds in its discriminant
/// and its layout-relevant content — labels, styles, spacing, font
/// sizes — and containers fold every child in push order. Transient
/// interaction state (pressed flags, checked state, colors, messages)
/// does not reach the digest, so it never forces a relayout.
pub open spec fn spec_hash_element<M>(st: u64, e: Element<M>) -> u64
    decreases e, 0int,
{
    match e {
        Element::Button(b) => spec_hash_style(spec_hash_str(spec_mix(st, 1), b.label@), b.style),
        Element::Checkbox(c) => spec_hash_str(spec_mix(st, 2), c.label@),
        Element::Radio(r) => spec_hash_str(spec_mix(st, 3), r.label@),
        Element::Text(t) => spec_mix(spec_hash_str(spec_mix(st, 4), t.content@), t.size as u64),
        Element::Row(r) => spec_hash_children(
            spec_mix(spec_hash_style(spec_mix(st, 5), r.style), r.spacing as u64),
            r.children@,
        ),
        Element::Column(c) => spec_hash_children(
            spec_mix(spec_hash_style(spec_mix(st, 6), c.style), c.spacing as u64),
            c.children@,
        ),
    }
}

/// The digest after folding in every child, left to right.
pub open spec fn spec_hash_children<M>(st: u64, cs: Seq<Element<M>>) -> u64
    decreases cs, 1int,
{
    if cs.len() == 0 {
        st
    } else {
        spec_hash_children(spec_hash_element(st, cs[0]), cs.subrange(1, cs.len() as int))
    }
}

/// The node a text-like leaf produces: a measured fixed size and nothing
/// else.
pub open spec fn text_node_matches(n: Node) -> bool {
    &&& n.children@.len() == 0
    &&& n.style.width is Some
    &&& n.style.height is Some
    &&& n.style == (Style { width: n.style.width, height: n.style.height, ..Style::initial() })
}

/// The node a labelled toggle (checkbox or radio) produces: a centered
/// row of a fixed 28-pixel box, a 15-pixel gap, and a measured label.
pub open spec fn toggle_node_matches(n: Node) -> bool {
    &&& n.style == (Style { align: Align::Center, ..Style::initial() })
    &&& n.children@.len() == 2
    &&& n.children@[0].style == (Style {
        width: Some(28u32),
        height: Some(28u32),
        ..Style::initial()
    })
    &&& n.children@[0].margin_end == 15
    &&& n.children@[0].children@.len() == 0
    &&& text_node_matches(n.children@[1])
    &&& n.children@[1].margin_end == 0
}

/// What [`Element::node`] returns: the exact style and child structure
/// each widget kind describes, with container spacing injected as a
/// trailing margin on every child but the last. Only measured text sizes
/// are left open, since they come from the renderer.
pub open spec fn node_matches<M>(e: Element<M>, n: Node) -> bool
    decreases e, 0int,
{
    match e {
        Element::Button(b) => n.children@.len() == 0 && n.style == (Style {
            height: Some(50u32),
            grow: 1,
            ..b.style
        }),
        Element::Text(_) => text_node_matches(n),
        Element::Checkbox(_) => toggle_node_matches(n),
        Element::Radio(_) => toggle_node_matches(n),
        Element::Row(r) => {
            &&& n.style == (Style { direction: Direction::Row, ..r.style })
            &&& n.children@.len() == r.children@.len()
            &&& node_matches_children(r.children@, n.children@, r.spacing)
        },
        Element::Column(c) => {
            &&& n.style == (Style { direction: Direction::Column, ..c.style })
            &&& n.children@.len() == c.children@.len()
            &&& node_matches_children(c.children@, n.children@, c.spacing)
        },
    }
}

/// [`node_matches`] of children paired by index, each carrying the
/// container's spacing as trailing margin except the last.
pub open spec fn node_matches_children<M>(cs: Seq<Element<M>>, ns: Seq<Node>, spacing: u16) -> bool
    decreases cs, 1int,
{
    cs.len() == ns.len() && (cs.len() == 0 || {
        &&& node_matches(cs[0], ns[0])
        &&& ns[0].margin_end == if cs.len() > 1 {
            spacing as u32
        } else {
            0u32
        }
        &&& node_matches_children(
            cs.subrange(1, cs.len() as int),
            ns.subrange(1, ns.len() as int),
            spacing,
        )
    })
}

/// Reads [`wf_states_children`] pointwise.
pub proof fn lemma_wf_states_children_index<M>(cs: Seq<Element<M>>, len: nat, i: int)
    requires
        wf_states_children(cs, len),
        0 <= i < cs.len(),
    ensures
        wf_states(cs[i], len),
    decreases cs,
{
    if i > 0 {
        lemma_wf_states_children_index(cs.subrange(1, cs.len() as int), len, i - 1);
        assert(cs.subrange(1, cs.len() as int)[i - 1] == cs[i]);
    }
}

/// Reads [`shape_ok_children`] pointwise.
pub proof fn lemma_shape_ok_children_index<M>(cs: Seq<Element<M>>, ls: Seq<Layout>, i: int)
    requires
        shape_ok_children(cs, ls),
        cs.len() == ls.len(),
        0 <= i < cs.len(),
    ensures
        shape_ok(cs[i], ls[i]),
    decreases cs,
{
    if i > 0 {
        lemma_shape_ok_children_index(
            cs.subrange(1, cs.len() as int),
            ls.subrange(1, ls.len() as int),
            i - 1,
        );
        assert(cs.subrange(1, cs.len() as int)[i - 1] == cs[i]);
        assert(ls.subrange(1, ls.len() as int)[i - 1] == ls[i]);
    }
}

/// Builds [`node_matches_children`] from pointwise facts.
pub proof fn lemma_node_matches_children_build<M>(cs: Seq<Element<M>>, ns: Seq<Node>, spacing: u16)
    requires
        cs.len() == ns.len(),
        forall|i: int| 0 <= i < cs.len() ==> node_matches(cs[i], #[trigger] ns[i]),
        forall|i: int|
            0 <= i < cs.len() ==> (#[trigger] ns[i]).margin_end == if i < cs.len() - 1 {
                spacing as u32
            } else {
                0u32
            },
    ensures
        node_matches_children(cs, ns, spacing),
    decreases cs,
{
    if cs.len() > 0 {
        let cst = cs.subrange(1, cs.len() as int);
        let nst = ns.subrange(1, ns.len() as int);
        assert forall|i: int| 0 <= i < cst.len() implies node_matches(cst[i], #[trigger] nst[i]) by {
            assert(cst[i] == cs[i + 1]);
            assert(nst[i] == ns[i + 1]);
        }
        assert forall|i: int|
            0 <= i < cst.len() implies (#[trigger] nst[i]).margin_end == if i < cst.len() - 1 {
            spacing as u32
        } else {
            0u32
        } by {
            assert(nst[i] == ns[i + 1]);
        }
        lemma_node_matches_children_build(cst, nst, spacing);
        assert(ns[0].margin_end == if cs.len() > 1 { spacing as u32 } else { 0u32 });
    }
}

/// The layout-relevant content of two elements is the same: everything
/// the digest reads — discriminants, labels, styles, spacing, font
/// sizes, children pairwise — ignoring interaction state, colors,
/// messages and state handles.
pub open spec fn same_content<M>(a: Element<M>, b: Element<M>) -> bool
    decreases a, 0int,
{
    match (a, b) {
        (Element::Button(x), Element::Button(y)) => x.label@ == y.label@ && x.style == y.style,
        (Element::Checkbox(x), Element::Checkbox(y)) => x.label@ == y.label@,
        (Element::Radio(x), Element::Radio(y)) => x.label@ == y.label@,
        (Element::Text(x), Element::Text(y)) => x.content@ == y.content@ && x.size == y.size,
        (Element::Row(x), Element::Row(y)) => x.style == y.style && x.spacing == y.spacing
            && same_content_children(x.children@, y.children@),
        (Element::Column(x), Element::Column(y)) => x.style == y.style && x.spacing == y.spacing
            && same_content_children(x.children@, y.children@),
        _ => false,
    }
}

/// [`same_content`] of two child sequences, paired by index.
pub open spec fn same_content_children<M>(a: Seq<Element<M>>, b: Seq<Element<M>>) -> bool
    decreases a, 1int,
{
    a.len() == b.len() && (a.len() == 0 || (same_content(a[0], b[0]) && same_content_children(
        a.subrange(1, a.len() as int),
        b.subrange(1, b.len() as int),
    )))
}

/// Law: hashing is deterministic and content-pure. The digest is a pure
/// function of the layout-relevant content a tree was built from — two
/// trees with the same labels, styles, spacing, text and child structure
/// digest equally, however they differ in transient interaction state,
/// colors, messages or state handles.
pub proof fn lemma_hash_content_pure<M>(a: Element<M>, b: Element<M>, st: u64)
    requires
        same_content(a, b),
    ensures
        spec_hash_element(st, a) == spec_hash_element(st, b),
    decreases a, 0int,
{
    match (a, b) {
        (Element::Row(x), Element::Row(y)) => {
            lemma_hash_content_pure_children(
                x.children@,
                y.children@,
                spec_mix(spec_hash_style(spec_mix(st, 5), x.style), x.spacing as u64),
            );
        },
        (Element::Column(x), Element::Column(y)) => {
            lemma_hash_content_pure_children(
                x.children@,
                y.children@,
                spec_mix(spec_hash_style(spec_mix(st, 6), x.style), x.spacing as u64),
            );
        },
        _ => {},
    }
}

/// [`lemma_hash_content_pure`] folded over two child sequences.
pub proof fn lemma_hash_content_pure_children<M>(a: Seq<Element<M>>, b: Seq<Element<M>>, st: u64)
    requires
        same_content_children(a, b),
    ensures
        spec_hash_children(st, a) == spec_hash_children(st, b),
    decreases a, 1int,
{
    if a.len() > 0 {
        lemma_hash_content_pure(a[0], b[0], st);
        lemma_hash_content_pure_children(
            a.subrange(1, a.len() as int),
            b.subrange(1, b.len() as int),
            spec_hash_element(st, a[0]),
        );
    }
}

/// Law: transient interaction state never reaches the digest. Two
/// checkboxes with the same label digest equally whatever their checked
/// state, toggle messages and label colors, so toggling never forces a
/// relayout by itself.
pub proof fn lemma_hash_ignores_interaction_state<M>(
    c1: Checkbox<M>,
    c2: Checkbox<M>,
    st: u64,
)
    requires
        c1.label@ == c2.label@,
    ensures
        spec_hash_element(st, Element::Checkbox(c1)) == spec_hash_element(
            st,
            Element::Checkbox(c2),
        ),
{
}

/// Law: click semantics. Dispatching a left press and then a left
/// release at a button emits its message exactly when both land inside
/// the button's resolved bounds — a press alone emits nothing, and a
/// press that leaves the bounds before the release emits nothing.
pub proof fn lemma_button_click<M>(
    b: Button<M>,
    l: Layout,
    press_at: Point,
    release_at: Point,
    states: Seq<State>,
    m: M,
)
    requires
        b.state < states.len(),
        b.on_click == Some(m),
    ensures
        ({
            let press = Event::MouseInput { state: ButtonState::Pressed, button: MouseButton::Left };
            let release = Event::MouseInput {
                state: ButtonState::Released,
                button: MouseButton::Left,
            };
            let after_press = spec_on_event(Element::Button(b), press, l, press_at, states);
            let after_release = spec_on_event(
                Element::Button(b),
                release,
                l,
                release_at,
                after_press.1,
            );
            &&& after_press.0 == Seq::<M>::empty()
            &&& after_release.0 == if spec_contains(spec_bounds(l), press_at) && spec_contains(
                spec_bounds(l),
                release_at,
            ) {
                seq![m]
            } else {
                Seq::<M>::empty()
            }
        }),
{
}

/// Folding all-default hints changes nothing.
pub proof fn lemma_draw_children_all_default<M>(
    cs: Seq<Element<M>>,
    ls: Seq<Layout>,
    cursor: Point,
    acc: MouseCursor,
)
    requires
        cs.len() == ls.len(),
        forall|i: int|
            0 <= i < cs.len() ==> spec_draw(#[trigger] cs[i], ls[i], cursor)
                == MouseCursor::Default,
    ensures
        spec_draw_children(cs, ls, cursor, acc) == acc,
    decreases cs,
{
    if cs.len() > 0 {
        let cst = cs.subrange(1, cs.len() as int);
        let lst = ls.subrange(1, ls.len() as int);
        assert forall|i: int|
            0 <= i < cst.len() implies spec_draw(#[trigger] cst[i], lst[i], cursor)
            == MouseCursor::Default by {
            assert(cst[i] == cs[i + 1]);
            assert(lst[i] == ls[i + 1]);
        }
        lemma_draw_children_all_default(cst, lst, cursor, acc);
    }
}

/// Law: cursor aggregation. If exactly one child of a container reports
/// a pointing hand and every sibling reports the default, the container
/// reports the pointing hand.
pub proof fn lemma_cursor_aggregation_children<M>(
    cs: Seq<Element<M>>,
    ls: Seq<Layout>,
    cursor: Point,
    j: int,
)
    requires
        cs.len() == ls.len(),
        0 <= j < cs.len(),
        spec_draw(cs[j], ls[j], cursor) == MouseCursor::Pointer,
        forall|i: int|
            0 <= i < cs.len() && i != j ==> spec_draw(#[trigger] cs[i], ls[i], cursor)
                == MouseCursor::Default,
    ensures
        spec_draw_children(cs, ls, cursor, MouseCursor::Default) == MouseCursor::Pointer,
    decreases cs,
{
    let cst = cs.subrange(1, cs.len() as int);
    let lst = ls.subrange(1, ls.len() as int);
    assert forall|i: int|
        0 <= i < cst.len() && i != j - 1 implies spec_draw(#[trigger] cst[i], lst[i], cursor)
        == MouseCursor::Default by {
        assert(cst[i] == cs[i + 1]);
        assert(lst[i] == ls[i + 1]);
    }
    if j == 0 {
        lemma_draw_children_all_default(cst, lst, cursor, MouseCursor::Pointer);
    } else {
        assert(cst[j - 1] == cs[j]);
        assert(lst[j - 1] == ls[j]);
        lemma_cursor_aggregation_children(cst, lst, cursor, j - 1);
    }
}

/// Law: cursor aggregation at a row whose single interactive child
/// reports a pointing hand while every sibling reports the default.
pub proof fn lemma_cursor_aggregation_row<M>(r: Row<M>, l: Layout, cursor: Point, j: int)
    requires
        r.children@.len() == l.children@.len(),
        0 <= j < r.children@.len(),
        spec_draw(r.children@[j], l.children@[j], cursor) == MouseCursor::Pointer,
        forall|i: int|
            0 <= i < r.children@.len() && i != j ==> spec_draw(
                #[trigger] r.children@[i],
                l.children@[i],
                cursor,
            ) == MouseCursor::Default,
    ensures
        spec_draw(Element::Row(r), l, cursor) == MouseCursor::Pointer,
{
    lemma_cursor_aggregation_children(r.children@, l.children@, cursor, j);
}

/// Law: the resolved layout of a widget's own node always fits the
/// widget: solving the node a tree describes yields a layout of exactly
/// the shape event dispatch and drawing require, so the pipeline
/// build-node, solve, dispatch never hits a shape mismatch.
pub proof fn lemma_solved_layout_fits<M>(
    e: Element<M>,
    n: Node,
    l: Layout,
    aw: int,
    ah: int,
)
    requires
        node_matches(e, n),
        layout_view(l) == crate::ui::solver::spec_solve(n, aw, ah),
    ensures
        shape_ok(e, l),
{
    crate::ui::solver::lemma_place_mirrors(
        n,
        0,
        0,
        crate::ui::solver::spec_root_width(n, aw),
        crate::ui::solver::spec_root_height(n, ah),
    );
    lemma_shape_from_node(e, n, l);
}

/// A layout that mirrors the shape of a node a widget describes has the
/// shape the widget's dispatch and draw demand.
pub proof fn lemma_shape_from_node<M>(e: Element<M>, n: Node, l: Layout)
    requires
        node_matches(e, n),
        crate::ui::solver::mirrors(n, layout_view(l)),
    ensures
        shape_ok(e, l),
    decreases e, 0int,
{
    crate::ui::layout::lemma_layout_children_view(l.children@);
    match e {
        Element::Row(r) => {
            lemma_shape_from_node_children(r.children@, n.children@, l.children@, r.spacing);
        },
        Element::Column(c) => {
            lemma_shape_from_node_children(c.children@, n.children@, l.children@, c.spacing);
        },
        _ => {},
    }
}

/// [`lemma_shape_from_node`] over paired child sequences.
pub proof fn lemma_shape_from_node_children<M>(
    cs: Seq<Element<M>>,
    ns: Seq<Node>,
    ls: Seq<Layout>,
    spacing: u16,
)
    requires
        node_matches_children(cs, ns, spacing),
        crate::ui::solver::mirrors_children(ns, layout_children_view(ls)),
    ensures
        cs.len() == ls.len(),
        shape_ok_children(cs, ls),
    decreases cs, 1int,
{
    crate::ui::layout::lemma_layout_children_view(ls);
    if cs.len() > 0 {
        assert(layout_children_view(ls)[0] == layout_view(ls[0]));
        lemma_shape_from_node(cs[0], ns[0], ls[0]);
        let lst = ls.subrange(1, ls.len() as int);
        crate::ui::layout::lemma_layout_children_view(lst);
        assert(layout_children_view(ls).subrange(
            1,
            layout_children_view(ls).len() as int,
        ) =~= layout_children_view(lst));
        lemma_shape_from_node_children(
            cs.subrange(1, cs.len() as int),
            ns.subrange(1, ns.len() as int),
            lst,
            spacing,
        );
    }
}

/// Law: cursor aggregation at a column whose single interactive child
/// reports a pointing hand while every sibling reports the default.
pub proof fn lemma_cursor_aggregation_column<M>(c: Column<M>, l: Layout, cursor: Point, j: int)
    requires
        c.children@.len() == l.children@.len(),
        0 <= j < c.children@.len(),
        spec_draw(c.children@[j], l.children@[j], cursor) == MouseCursor::Pointer,
        forall|i: int|
            0 <= i < c.children@.len() && i != j ==> spec_draw(
                #[trigger] c.children@[i],
                l.children@[i],
                cursor,
            ) == MouseCursor::Default,
    ensures
        spec_draw(Element::Column(c), l, cursor) == MouseCursor::Pointer,
{
    lemma_cursor_aggregation_children(c.children@, l.children@, cursor, j);
}

/// Folds a style into the accumulator, exactly as [`spec_hash_style`].
pub fn hash_style(state: &mut Hasher, s: &Style)
    ensures
        final(state).digest == spec_hash_style(old(state).digest, *s),
{
    state.write_opt(s.width);
    state.write_opt(s.height);
    state.write_opt(s.max_width);
    state.write_opt(s.max_height);
    state.write_u32(s.padding);
    state.write_u32(s.grow);
    let align_code: u64 = match s.align {
        Align::Start => 0,
        Align::Center => 1,
        Align::End => 2,
        Align::Stretch => 3,
    };
    state.write_u64(align_code);
    let dir_code: u64 = match s.direction {
        Direction::Row => 0,
        Direction::Column => 1,
    };
    state.write_u64(dir_code);
}

impl<M> Element<M> {
    /// Describes this widget's desired layout as a fresh [`Node`] tree:
    /// a pure walk, except that text sizes come from the renderer's
    /// measurements.
    pub fn node<R: TextRenderer>(&self, renderer: &R) -> (n: Node)
        ensures
            node_matches(*self, n),
        decreases *self,
    {
        match self {
            Element::Button(b) => {
                let style = b.style.height(50).grow();
                Node::new(style, Vec::new())
            },
            Element::Text(t) => {
                let (w, h) = renderer.measure_text(t.content.as_str(), t.size);
                Node::new(Style::new().width(w).height(h), Vec::new())
            },
            Element::Checkbox(c) => {
                let bx = Node::new(Style::new().width(28).height(28), Vec::new()).with_margin_end(
                    15,
                );
                let (tw, th) = renderer.measure_text(c.label.as_str(), 20);
                let label = Node::new(Style::new().width(tw).height(th), Vec::new());
                let mut children: Vec<Node> = Vec::new();
                children.push(bx);
                children.push(label);
                Node::new(Style::new().center_children(), children)
            },
            Element::Radio(r) => {
                let bx = Node::new(Style::new().width(28).height(28), Vec::new()).with_margin_end(
                    15,
                );
                let (tw, th) = renderer.measure_text(r.label.as_str(), 20);
                let label = Node::new(Style::new().width(tw).height(th), Vec::new());
                let mut children: Vec<Node> = Vec::new();
                children.push(bx);
                children.push(label);
                Node::new(Style::new().center_children(), children)
            },
            Element::Row(r) => {
                let len = r.children.len();
                let mut ns: Vec<Node> = Vec::new();
                let mut i: usize = 0;
                while i < len
                    invariant
                        *self == Element::Row(*r),
                        len == r.children@.len(),
                        i <= len,
                        ns@.len() == i,
                        forall|j: int|
                            0 <= j < i ==> node_matches(r.children@[j], #[trigger] ns@[j]),
                        forall|j: int|
                            0 <= j < i ==> (#[trigger] ns@[j]).margin_end == if j < len - 1 {
                                r.spacing as u32
                            } else {
                                0u32
                            },
                    decreases len - i,
                {
                    proof {
                        assert((*self)->Row_0 == *r);
                        assert(decreases_to!(*self => (*self)->Row_0.children@[i as int]));
                    }
                    let child_node = r.children[i].node(renderer);
                    let m: u32 = if i + 1 < len {
                        r.spacing as u32
                    } else {
                        0
                    };
                    ns.push(child_node.with_margin_end(m));
                    i = i + 1;
                }
                proof {
                    lemma_node_matches_children_build(r.children@, ns@, r.spacing);
                }
                Node::new(r.style.direction(Direction::Row), ns)
            },
            Element::Column(c) => {
                let len = c.children.len();
                let mut ns: Vec<Node> = Vec::new();
                let mut i: usize = 0;
                while i < len
                    invariant
                        *self == Element::Column(*c),
                        len == c.children@.len(),
                        i <= len,
                        ns@.len() == i,
                        forall|j: int|
                            0 <= j < i ==> node_matches(c.children@[j], #[trigger] ns@[j]),
                        forall|j: int|
                            0 <= j < i ==> (#[trigger] ns@[j]).margin_end == if j < len - 1 {
                                c.spacing as u32
                            } else {
                                0u32
                            },
                    decreases len - i,
                {
                    proof {
                        assert((*self)->Column_0 == *c);
                        assert(decreases_to!(*self => (*self)->Column_0.children@[i as int]));
                    }
                    let child_node = c.children[i].node(renderer);
                    let m: u32 = if i + 1 < len {
                        c.spacing as u32
                    } else {
                        0
                    };
                    ns.push(child_node.with_margin_end(m));
                    i = i + 1;
                }
                proof {
                    lemma_node_matches_children_build(c.children@, ns@, c.spacing);
                }
                Node::new(c.style.direction(Direction::Column), ns)
            },
        }
    }

    /// Feeds this widget's discriminant and layout-relevant content into
    /// the accumulator, children in push order. The digest is a pure
    /// function of widget content, never of interaction state.
    pub fn hash(&self, state: &mut Hasher)
        ensures
            final(state).digest == spec_hash_element(old(state).digest, *self),
        decreases *self,
    {
        match self {
            Element::Button(b) => {
                state.write_u64(1);
                state.write_str(b.label.as_str());
                hash_style(state, &b.style);
            },
            Element::Checkbox(c) => {
                state.write_u64(2);
                state.write_str(c.label.as_str());
            },
            Element::Radio(r) => {
                state.write_u64(3);
                state.write_str(r.label.as_str());
            },
            Element::Text(t) => {
                state.write_u64(4);
                state.write_str(t.content.as_str());
                state.write_u64(t.size as u64);
            },
            Element::Row(r) => {
                state.write_u64(5);
                hash_style(state, &r.style);
                state.write_u64(r.spacing as u64);
                let ghost start = state.digest;
                let len = r.children.len();
                let mut i: usize = 0;
                assert(r.children@.subrange(0, len as int) =~= r.children@);
                while i < len
                    invariant
                        *self == Element::Row(*r),
                        len == r.children@.len(),
                        i <= len,
                        spec_hash_children(start, r.children@) == spec_hash_children(
                            state.digest,
                            r.children@.subrange(i as int, len as int),
                        ),
                    decreases len - i,
                {
                    proof {
                        assert((*self)->Row_0 == *r);
                        assert(decreases_to!(*self => (*self)->Row_0.children@[i as int]));
                    }
                    proof {
                        let suf = r.children@.subrange(i as int, len as int);
                        assert(suf[0] == r.children@[i as int]);
                        assert(suf.subrange(1, suf.len() as int) =~= r.children@.subrange(
                            i as int + 1,
                            len as int,
                        ));
                    }
                    r.children[i].hash(state);
                    i = i + 1;
                }
                proof {
                    assert(r.children@.subrange(len as int, len as int) =~= Seq::<
                        Element<M>,
                    >::empty());
                }
            },
            Element::Column(c) => {
                state.write_u64(6);
                hash_style(state, &c.style);
                state.write_u64(c.spacing as u64);
                let ghost start = state.digest;
                let len = c.children.len();
                let mut i: usize = 0;
                assert(c.children@.subrange(0, len as int) =~= c.children@);
                while i < len
                    invariant
                        *self == Element::Column(*c),
                        len == c.children@.len(),
                        i <= len,
                        spec_hash_children(start, c.children@) == spec_hash_children(
                            state.digest,
                            c.children@.subrange(i as int, len as int),
                        ),
                    decreases len - i,
                {
                    proof {
                        assert((*self)->Column_0 == *c);
                        assert(decreases_to!(*self => (*self)->Column_0.children@[i as int]));
                    }
                    proof {
                        let suf = c.children@.subrange(i as int, len as int);
                        assert(suf[0] == c.children@[i as int]);
                        assert(suf.subrange(1, suf.len() as int) =~= c.children@.subrange(
                            i as int + 1,
                            len as int,
                        ));
                    }
                    c.children[i].hash(state);
                    i = i + 1;
                }
                proof {
                    assert(c.children@.subrange(len as int, len as int) =~= Seq::<
                        Element<M>,
                    >::empty());
                }
            },
        }
    }

    /// Dispatches one event through the tree, paired index by index with
    /// the resolved layout: depth-first, children in push order. Emitted
    /// messages append to `messages` in traversal order; button states
    /// update through the caller-owned slice.
    pub fn on_event(
        &self,
        event: Event,
        layout: &Layout,
        cursor_position: Point,
        messages: &mut Vec<M>,
        states: &mut Vec<State>,
    ) where M: Copy
        requires
            wf_states(*self, old(states)@.len() as nat),
            shape_ok(*self, *layout),
        ensures
            final(messages)@ == old(messages)@ + spec_on_event(
                *self,
                event,
                *layout,
                cursor_position,
                old(states)@,
            ).0,
            final(states)@ == spec_on_event(
                *self,
                event,
                *layout,
                cursor_position,
                old(states)@,
            ).1,
            final(states)@.len() == old(states)@.len(),
        decreases *self,
    {
        match self {
            Element::Button(b) => {
                match event {
                    Event::MouseInput { state: ButtonState::Pressed, button: MouseButton::Left } => {
                        let inside = layout.bounds().contains(cursor_position);
                        states[b.state] = State { is_pressed: inside };
                        proof {
                            assert(messages@ =~= old(messages)@ + Seq::<M>::empty());
                        }
                    },
                    Event::MouseInput {
                        state: ButtonState::Released,
                        button: MouseButton::Left,
                    } => {
                        let inside = layout.bounds().contains(cursor_position);
                        let was = states[b.state].is_pressed;
                        states[b.state] = State { is_pressed: false };
                        if was && inside {
                            match &b.on_click {
                                Some(m) => {
                                    messages.push(*m);
                                    proof {
                                        assert(messages@ =~= old(messages)@ + seq![
                                            b.on_click->Some_0,
                                        ]);
                                    }
                                },
                                None => {
                                    proof {
                                        assert(messages@ =~= old(messages)@ + Seq::<M>::empty());
                                    }
                                },
                            }
                        } else {
                            proof {
                                assert(messages@ =~= old(messages)@ + Seq::<M>::empty());
                            }
                        }
                    },
                    _ => {
                        proof {
                            assert(!is_left_press(event) && !is_left_release(event));
                            assert(messages@ =~= old(messages)@ + Seq::<M>::empty());
                        }
                    },
                }
            },
            Element::Checkbox(c) => {
                let pressed = matches!(
                    event,
                    Event::MouseInput { state: ButtonState::Pressed, button: MouseButton::Left },
                );
                if pressed && layout.bounds().contains(cursor_position) {
                    messages.push(c.on_toggle);
                    proof {
                        assert(messages@ =~= old(messages)@ + seq![c.on_toggle]);
                    }
                } else {
                    proof {
                        assert(messages@ =~= old(messages)@ + Seq::<M>::empty());
                    }
                }
            },
            Element::Radio(r) => {
                let pressed = matches!(
                    event,
                    Event::MouseInput { state: ButtonState::Pressed, button: MouseButton::Left },
                );
                if pressed && layout.bounds().contains(cursor_position) {
                    messages.push(r.on_click);
                    proof {
                        assert(messages@ =~= old(messages)@ + seq![r.on_click]);
                    }
                } else {
                    proof {
                        assert(messages@ =~= old(messages)@ + Seq::<M>::empty());
                    }
                }
            },
            Element::Text(_) => {
                proof {
                    assert(messages@ =~= old(messages)@ + Seq::<M>::empty());
                }
            },
            Element::Row(r) => {
                let ghost orig_states = states@;
                let ghost orig_msgs = messages@;
                let ghost full = spec_on_event_children(
                    r.children@,
                    layout.children@,
                    event,
                    cursor_position,
                    orig_states,
                );
                let len = r.children.len();
                let mut i: usize = 0;
                proof {
                    assert(r.children@.subrange(0, len as int) =~= r.children@);
                    assert(layout.children@.subrange(0, len as int) =~= layout.children@);
                    assert(messages@.subrange(orig_msgs.len() as int, messages@.len() as int)
                        =~= Seq::<M>::empty());
                }
                while i < len
                    invariant
                        *self == Element::Row(*r),
                        shape_ok(*self, *layout),
                        wf_states_children(r.children@, orig_states.len()),
                        len == r.children@.len(),
                        layout.children@.len() == len,
                        i <= len,
                        states@.len() == orig_states.len(),
                        orig_msgs.is_prefix_of(messages@),
                        full == spec_on_event_children(
                            r.children@,
                            layout.children@,
                            event,
                            cursor_position,
                            orig_states,
                        ),
                        full.0 == messages@.subrange(orig_msgs.len() as int, messages@.len() as int)
                            + spec_on_event_children(
                            r.children@.subrange(i as int, len as int),
                            layout.children@.subrange(i as int, len as int),
                            event,
                            cursor_position,
                            states@,
                        ).0,
                        full.1 == spec_on_event_children(
                            r.children@.subrange(i as int, len as int),
                            layout.children@.subrange(i as int, len as int),
                            event,
                            cursor_position,
                            states@,
                        ).1,
                    decreases len - i,
                {
                    proof {
                        lemma_wf_states_children_index(r.children@, orig_states.len(), i as int);
                        lemma_shape_ok_children_index(r.children@, layout.children@, i as int);
                        assert((*self)->Row_0 == *r);
                        assert(decreases_to!(*self => (*self)->Row_0.children@[i as int]));
                    }
                    let ghost pre_states = states@;
                    let ghost pre_msgs = messages@;
                    r.children[i].on_event(
                        event,
                        &layout.children[i],
                        cursor_position,
                        messages,
                        states,
                    );
                    proof {
                        let cst = r.children@.subrange(i as int, len as int);
                        let lst = layout.children@.subrange(i as int, len as int);
                        assert(cst[0] == r.children@[i as int]);
                        assert(lst[0] == layout.children@[i as int]);
                        assert(cst.subrange(1, cst.len() as int) =~= r.children@.subrange(
                            i as int + 1,
                            len as int,
                        ));
                        assert(lst.subrange(1, lst.len() as int) =~= layout.children@.subrange(
                            i as int + 1,
                            len as int,
                        ));
                        let head = spec_on_event(
                            cst[0],
                            event,
                            lst[0],
                            cursor_position,
                            pre_states,
                        );
                        let rest = spec_on_event_children(
                            r.children@.subrange(i as int + 1, len as int),
                            layout.children@.subrange(i as int + 1, len as int),
                            event,
                            cursor_position,
                            states@,
                        );
                        assert(messages@.subrange(orig_msgs.len() as int, messages@.len() as int)
                            =~= pre_msgs.subrange(orig_msgs.len() as int, pre_msgs.len() as int)
                            + head.0);
                        assert(pre_msgs.subrange(orig_msgs.len() as int, pre_msgs.len() as int) + (
                        head.0 + rest.0) =~= (pre_msgs.subrange(
                            orig_msgs.len() as int,
                            pre_msgs.len() as int,
                        ) + head.0) + rest.0);
                    }
                    i = i + 1;
                }
                proof {
                    assert(r.children@.subrange(len as int, len as int) =~= Seq::<
                        Element<M>,
                    >::empty());
                    assert(layout.children@.subrange(len as int, len as int) =~= Seq::<
                        Layout,
                    >::empty());
                    let emitted = messages@.subrange(orig_msgs.len() as int, messages@.len() as int);
                    assert(emitted + Seq::<M>::empty() =~= emitted);
                    assert(orig_msgs + emitted =~= messages@);
                }
            },
            Element::Column(c) => {
                let ghost orig_states = states@;
                let ghost orig_msgs = messages@;
                let ghost full = spec_on_event_children(
                    c.children@,
                    layout.children@,
                    event,
                    cursor_position,
                    orig_states,
                );
                let len = c.children.len();
                let mut i: usize = 0;
                proof {
                    assert(c.children@.subrange(0, len as int) =~= c.children@);
                    assert(layout.children@.subrange(0, len as int) =~= layout.children@);
                    assert(messages@.subrange(orig_msgs.len() as int, messages@.len() as int)
                        =~= Seq::<M>::empty());
                }
                while i < len
                    invariant
                        *self == Element::Column(*c),
                        shape_ok(*self, *layout),
                        wf_states_children(c.children@, orig_states.len()),
                        len == c.children@.len(),
                        layout.children@.len() == len,
                        i <= len,
                        states@.len() == orig_states.len(),
                        orig_msgs.is_prefix_of(messages@),
                        full == spec_on_event_children(
                            c.children@,
                            layout.children@,
                            event,
                            cursor_position,
                            orig_states,
                        ),
                        full.0 == messages@.subrange(orig_msgs.len() as int, messages@.len() as int)
                            + spec_on_event_children(
                            c.children@.subrange(i as int, len as int),
                            layout.children@.subrange(i as int, len as int),
                            event,
                            cursor_position,
                            states@,
                        ).0,
                        full.1 == spec_on_event_children(
                            c.children@.subrange(i as int, len as int),
                            layout.children@.subrange(i as int, len as int),
                            event,
                            cursor_position,
                            states@,
                        ).1,
                    decreases len - i,
                {
                    proof {
                        lemma_wf_states_children_index(c.children@, orig_states.len(), i as int);
                        lemma_shape_ok_children_index(c.children@, layout.children@, i as int);
                        assert((*self)->Column_0 == *c);
                        assert(decreases_to!(*self => (*self)->Column_0.children@[i as int]));
                    }
                    let ghost pre_states = states@;
                    let ghost pre_msgs = messages@;
                    c.children[i].on_event(
                        event,
                        &layout.children[i],
                        cursor_position,
                        messages,
                        states,
                    );
                    proof {
                        let cst = c.children@.subrange(i as int, len as int);
                        let lst = layout.children@.subrange(i as int, len as int);
                        assert(cst[0] == c.children@[i as int]);
                        assert(lst[0] == layout.children@[i as int]);
                        assert(cst.subrange(1, cst.len() as int) =~= c.children@.subrange(
                            i as int + 1,
                            len as int,
                        ));
                        assert(lst.subrange(1, lst.len() as int) =~= layout.children@.subrange(
                            i as int + 1,
                            len as int,
                        ));
                        let head = spec_on_event(
                            cst[0],
                            event,
                            lst[0],
                            cursor_position,
                            pre_states,
                        );
                        let rest = spec_on_event_children(
                            c.children@.subrange(i as int + 1, len as int),
                            layout.children@.subrange(i as int + 1, len as int),
                            event,
                            cursor_position,
                            states@,
                        );
                        assert(messages@.subrange(orig_msgs.len() as int, messages@.len() as int)
                            =~= pre_msgs.subrange(orig_msgs.len() as int, pre_msgs.len() as int)
                            + head.0);
                        assert(pre_msgs.subrange(orig_msgs.len() as int, pre_msgs.len() as int) + (
                        head.0 + rest.0) =~= (pre_msgs.subrange(
                            orig_msgs.len() as int,
                            pre_msgs.len() as int,
                        ) + head.0) + rest.0);
                    }
                    i = i + 1;
                }
                proof {
                    assert(c.children@.subrange(len as int, len as int) =~= Seq::<
                        Element<M>,
                    >::empty());
                    assert(layout.children@.subrange(len as int, len as int) =~= Seq::<
                        Layout,
                    >::empty());
                    let emitted = messages@.subrange(orig_msgs.len() as int, messages@.len() as int);
                    assert(emitted + Seq::<M>::empty() =~= emitted);
                    assert(orig_msgs + emitted =~= messages@);
                }
            },
        }
    }

    /// Draws the tree through the renderer's capability traits and
    /// resolves the cursor hint bottom-up: interactive leaves report a
    /// pointing hand while hovered, and containers keep the most recent
    /// non-default hint their children report.
    pub fn draw<R: ButtonRenderer + CheckboxRenderer + RadioRenderer + TextRenderer>(
        &self,
        renderer: &mut R,
        layout: &Layout,
        cursor_position: Point,
        states: &Vec<State>,
    ) -> (c: MouseCursor)
        requires
            wf_states(*self, states@.len() as nat),
            shape_ok(*self, *layout),
        ensures
            c == spec_draw(*self, *layout, cursor_position),
        decreases *self,
    {
        match self {
            Element::Button(b) => {
                let b_bounds = layout.bounds();
                let inside = b_bounds.contains(cursor_position);
                let is_pressed = states[b.state].is_pressed;
                renderer.draw_button(b_bounds, b.label.as_str(), is_pressed, inside);
                if inside {
                    MouseCursor::Pointer
                } else {
                    MouseCursor::Default
                }
            },
            Element::Checkbox(c) => {
                let inside = layout.bounds().contains(cursor_position);
                let box_bounds = layout.children[0].bounds();
                let label_bounds = layout.children[1].bounds();
                renderer.draw_text(label_bounds, c.label.as_str(), 20, c.label_color);
                renderer.draw_checkbox(box_bounds, label_bounds, c.is_checked, inside);
                if inside {
                    MouseCursor::Pointer
                } else {
                    MouseCursor::Default
                }
            },
            Element::Radio(r) => {
                let inside = layout.bounds().contains(cursor_position);
                let circle_bounds = layout.children[0].bounds();
                let label_bounds = layout.children[1].bounds();
                renderer.draw_text(label_bounds, r.label.as_str(), 20, Color::white());
                renderer.draw_radio(circle_bounds, label_bounds, r.is_selected, inside);
                if inside {
                    MouseCursor::Pointer
                } else {
                    MouseCursor::Default
                }
            },
            Element::Text(t) => {
                renderer.draw_text(layout.bounds(), t.content.as_str(), t.size, t.color);
                MouseCursor::Default
            },
            Element::Row(r) => {
                let len = r.children.len();
                let mut acc = MouseCursor::Default;
                let mut i: usize = 0;
                proof {
                    assert(r.children@.subrange(0, len as int) =~= r.children@);
                    assert(layout.children@.subrange(0, len as int) =~= layout.children@);
                }
                while i < len
                    invariant
                        *self == Element::Row(*r),
                        shape_ok(*self, *layout),
                        wf_states_children(r.children@, states@.len()),
                        len == r.children@.len(),
                        layout.children@.len() == len,
                        i <= len,
                        spec_draw_children(
                            r.children@,
                            layout.children@,
                            cursor_position,
                            MouseCursor::Default,
                        ) == spec_draw_children(
                            r.children@.subrange(i as int, len as int),
                            layout.children@.subrange(i as int, len as int),
                            cursor_position,
                            acc,
                        ),
                    decreases len - i,
                {
                    proof {
                        lemma_wf_states_children_index(r.children@, states@.len(), i as int);
                        lemma_shape_ok_children_index(r.children@, layout.children@, i as int);
                        assert((*self)->Row_0 == *r);
                        assert(decreases_to!(*self => (*self)->Row_0.children@[i as int]));
                        let cst = r.children@.subrange(i as int, len as int);
                        let lst = layout.children@.subrange(i as int, len as int);
                        assert(cst[0] == r.children@[i as int]);
                        assert(lst[0] == layout.children@[i as int]);
                        assert(cst.subrange(1, cst.len() as int) =~= r.children@.subrange(
                            i as int + 1,
                            len as int,
                        ));
                        assert(lst.subrange(1, lst.len() as int) =~= layout.children@.subrange(
                            i as int + 1,
                            len as int,
                        ));
                    }
                    let child_cursor = r.children[i].draw(
                        renderer,
                        &layout.children[i],
                        cursor_position,
                        states,
                    );
                    acc = cursor_merge(acc, child_cursor);
                    i = i + 1;
                }
                proof {
                    assert(r.children@.subrange(len as int, len as int) =~= Seq::<
                        Element<M>,
                    >::empty());
                }
                acc
            },
            Element::Column(col) => {
                let len = col.children.len();
                let mut acc = MouseCursor::Default;
                let mut i: usize = 0;
                proof {
                    assert(col.children@.subrange(0, len as int) =~= col.children@);
                    assert(layout.children@.subrange(0, len as int) =~= layout.children@);
                }
                while i < len
                    invariant
                        *self == Element::Column(*col),
                        shape_ok(*self, *layout),
                        wf_states_children(col.children@, states@.len()),
                        len == col.children@.len(),
                        layout.children@.len() == len,
                        i <= len,
                        spec_draw_children(
                            col.children@,
                            layout.children@,
                            cursor_position,
                            MouseCursor::Default,
                        ) == spec_draw_children(
                            col.children@.subrange(i as int, len as int),
                            layout.children@.subrange(i as int, len as int),
                            cursor_position,
                            acc,
                        ),
                    decreases len - i,
                {
                    proof {
                        lemma_wf_states_children_index(col.children@, states@.len(), i as int);
                        lemma_shape_ok_children_index(col.children@, layout.children@, i as int);
                        assert((*self)->Column_0 == *col);
                        assert(decreases_to!(*self => (*self)->Column_0.children@[i as int]));
                        let cst = col.children@.subrange(i as int, len as int);
                        let lst = layout.children@.subrange(i as int, len as int);
                        assert(cst[0] == col.children@[i as int]);
                        assert(lst[0] == layout.children@[i as int]);
                        assert(cst.subrange(1, cst.len() as int) =~= col.children@.subrange(
                            i as int + 1,
                            len as int,
                        ));
                        assert(lst.subrange(1, lst.len() as int) =~= layout.children@.subrange(
                            i as int + 1,
                            len as int,
                        ));
                    }
                    let child_cursor = col.children[i].draw(
                        renderer,
                        &layout.children[i],
                        cursor_position,
                        states,
                    );
                    acc = cursor_merge(acc, child_cursor);
                    i = i + 1;
                }
                proof {
                    assert(col.children@.subrange(len as int, len as int) =~= Seq::<
                        Element<M>,
                    >::empty());
                }
                acc
            },
        }
    }
}

/// Type erasure: wrapping a concrete widget into an element is pure and
/// preserves the widget unchanged.
impl<M> From<Button<M>> for Element<M> {
    fn from(widget: Button<M>) -> (e: Element<M>) {
        Element::Button(widget)
    }
}

impl<M> vstd::std_specs::convert::FromSpecImpl<Button<M>> for Element<M> {
    open spec fn obeys_from_spec() -> bool {
        true
    }

    open spec fn from_spec(widget: Button<M>) -> Element<M> {
        Element::Button(widget)
    }
}

impl<M> From<Checkbox<M>> for Element<M> {
    fn from(widget: Checkbox<M>) -> (e: Element<M>) {
        Element::Checkbox(widget)
    }
}

impl<M> vstd::std_specs::convert::FromSpecImpl<Checkbox<M>> for Element<M> {
    open spec fn obeys_from_spec() -> bool {
        true
    }

    open spec fn from_spec(widget: Checkbox<M>) -> Element<M> {
        Element::Checkbox(widget)
    }
}

impl<M> From<Radio<M>> for Element<M> {
    fn from(widget: Radio<M>) -> (e: Element<M>) {
        Element::Radio(widget)
    }
}

impl<M> vstd::std_specs::convert::FromSpecImpl<Radio<M>> for Element<M> {
    open spec fn obeys_from_spec() -> bool {
        true
    }

    open spec fn from_spec(widget: Radio<M>) -> Element<M> {
        Element::Radio(widget)
    }
}

impl<M> From<Text> for Element<M> {
    fn from(widget: Text) -> (e: Element<M>) {
        Element::Text(widget)
    }
}

impl<M> vstd::std_specs::convert::FromSpecImpl<Text> for Element<M> {
    open spec fn obeys_from_spec() -> bool {
        true
    }

    open spec fn from_spec(widget: Text) -> Element<M> {
        Element::Text(widget)
    }
}

impl<M> From<Row<M>> for Element<M> {
    fn from(widget: Row<M>) -> (e: Element<M>) {
        Element::Row(widget)
    }
}

impl<M> vstd::std_specs::convert::FromSpecImpl<Row<M>> for Element<M> {
    open spec fn obeys_from_spec() -> bool {
        true
    }

    open spec fn from_spec(widget: Row<M>) -> Element<M> {
        Element::Row(widget)
    }
}

impl<M> From<Column<M>> for Element<M> {
    fn from(widget: Column<M>) -> (e: Element<M>) {
        Element::Column(widget)
    }
}

impl<M> vstd::std_specs::convert::FromSpecImpl<Column<M>> for Element<M> {
    open spec fn obeys_from_spec() -> bool {
        true
    }

    open spec fn from_spec(widget: Column<M>) -> Element<M> {
        Element::Column(widget)
    }
}

} // verus!
