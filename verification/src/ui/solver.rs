//! The layout solver: a flexbox-style constraint pass resolving a
//! [`Node`] tree against an available size into a [`Layout`] tree.
//!
//! Sizing rules, per node and axis:
//! - a fixed size is used exactly as configured;
//! - otherwise, a node with a positive grow factor receives a share of
//!   its parent's leftover main-axis space proportional to that factor
//!   (the root fills the available space), clamped by the maximum size;
//! - otherwise, the node gets its intrinsic content size (the padded sum
//!   of children and margins along its own main axis, the padded maximum
//!   across it), clamped by the maximum size.
//!
//! On the cross axis, children without a fixed size fill the content box
//! when the container aligns with `Stretch`, and keep their intrinsic
//! size under `Start`, `Center` and `End`, which only move them.
//!
//! All arithmetic saturates at the pixel range: insufficient space clamps
//! sizes to zero and overflowing sums stop at `u32::MAX`, so solving is
//! total and deterministic — identical inputs resolve to identical
//! geometry, bit for bit.

use vstd::prelude::*;

use crate::ui::layout::Layout;
use crate::ui::layout::LayoutV;
use crate::ui::layout::layout_children_view;
use crate::ui::layout::layout_view;
use crate::ui::layout::lemma_layout_children_view;
use crate::ui::layout::lemma_layout_children_view_push;
use crate::ui::node::Node;
use crate::ui::style::Align;
use crate::ui::style::Direction;
use crate::ui::style::Style;

verus! {

/// Clamps `v` into the pixel range `[0, u32::MAX]`.
pub open spec fn sat32(v: int) -> int {
    if v < 0 {
        0
    } else if v > u32::MAX {
        u32::MAX as int
    } else {
        v
    }
}

/// `a - b`, stopping at zero.
pub open spec fn pos_sub(a: int, b: int) -> int {
    if a > b {
        a - b
    } else {
        0
    }
}

/// The larger of `a` and `b`.
pub open spec fn int_max(a: int, b: int) -> int {
    if a > b {
        a
    } else {
        b
    }
}

/// Clamps `v` by an optional maximum.
pub open spec fn clamp_max(v: int, m: Option<u32>) -> int {
    match m {
        Some(mx) => if v > mx { mx as int } else { v },
        None => v,
    }
}

/// The fixed size of `s` on the axis `dir`, if any.
pub open spec fn fixed_main(s: Style, dir: Direction) -> Option<u32> {
    if dir == Direction::Row {
        s.width
    } else {
        s.height
    }
}

/// The fixed size of `s` across the axis `dir`, if any.
pub open spec fn fixed_cross(s: Style, dir: Direction) -> Option<u32> {
    if dir == Direction::Row {
        s.height
    } else {
        s.width
    }
}

/// The maximum size of `s` on the axis `dir`, if any.
pub open spec fn max_main(s: Style, dir: Direction) -> Option<u32> {
    if dir == Direction::Row {
        s.max_width
    } else {
        s.max_height
    }
}

/// The maximum size of `s` across the axis `dir`, if any.
pub open spec fn max_cross(s: Style, dir: Direction) -> Option<u32> {
    if dir == Direction::Row {
        s.max_height
    } else {
        s.max_width
    }
}

/// The width `n` takes when neither fixed nor grown: its padded content
/// width, clamped by the configured maximum.
pub open spec fn spec_intrinsic_width(n: Node) -> int
    decreases n, 0int,
{
    match n.style.width {
        Some(w) => w as int,
        None => clamp_max(
            sat32(2 * n.style.padding + spec_content_width(n.children@, n.style.direction)),
            n.style.max_width,
        ),
    }
}

/// The unpadded width of a child sequence: the margined sum along a row,
/// the maximum down a column.
pub open spec fn spec_content_width(cs: Seq<Node>, dir: Direction) -> int
    decreases cs, 1int,
{
    if cs.len() == 0 {
        0
    } else {
        let rest = spec_content_width(cs.subrange(1, cs.len() as int), dir);
        if dir == Direction::Row {
            sat32(spec_intrinsic_width(cs[0]) + cs[0].margin_end + rest)
        } else {
            int_max(spec_intrinsic_width(cs[0]), rest)
        }
    }
}

/// The height `n` takes when neither fixed nor grown: its padded content
/// height, clamped by the configured maximum.
pub open spec fn spec_intrinsic_height(n: Node) -> int
    decreases n, 0int,
{
    match n.style.height {
        Some(h) => h as int,
        None => clamp_max(
            sat32(2 * n.style.padding + spec_content_height(n.children@, n.style.direction)),
            n.style.max_height,
        ),
    }
}

/// The unpadded height of a child sequence: the margined sum down a
/// column, the maximum along a row.
pub open spec fn spec_content_height(cs: Seq<Node>, dir: Direction) -> int
    decreases cs, 1int,
{
    if cs.len() == 0 {
        0
    } else {
        let rest = spec_content_height(cs.subrange(1, cs.len() as int), dir);
        if dir == Direction::Column {
            sat32(spec_intrinsic_height(cs[0]) + cs[0].margin_end + rest)
        } else {
            int_max(spec_intrinsic_height(cs[0]), rest)
        }
    }
}

/// The intrinsic size of `n` on the axis `dir`.
pub open spec fn spec_intrinsic_main(n: Node, dir: Direction) -> int {
    if dir == Direction::Row {
        spec_intrinsic_width(n)
    } else {
        spec_intrinsic_height(n)
    }
}

/// The intrinsic size of `n` across the axis `dir`.
pub open spec fn spec_intrinsic_cross(n: Node, dir: Direction) -> int {
    if dir == Direction::Row {
        spec_intrinsic_height(n)
    } else {
        spec_intrinsic_width(n)
    }
}

/// The main-axis size of a child before leftover space is distributed:
/// its fixed size, zero for a growing child, its intrinsic size else.
pub open spec fn spec_base_main(c: Node, dir: Direction) -> int {
    match fixed_main(c.style, dir) {
        Some(v) => v as int,
        None => if c.style.grow > 0 {
            0
        } else {
            spec_intrinsic_main(c, dir)
        },
    }
}

/// The main-axis space a child sequence asks for before growth: the
/// saturating sum of base sizes and trailing margins.
pub open spec fn spec_bases_sum(cs: Seq<Node>, dir: Direction) -> int
    decreases cs,
{
    if cs.len() == 0 {
        0
    } else {
        sat32(
            spec_base_main(cs[0], dir) + cs[0].margin_end + spec_bases_sum(
                cs.subrange(1, cs.len() as int),
                dir,
            ),
        )
    }
}

/// The saturating sum of the children's grow factors.
pub open spec fn spec_grow_sum(cs: Seq<Node>) -> int
    decreases cs,
{
    if cs.len() == 0 {
        0
    } else {
        sat32(cs[0].style.grow + spec_grow_sum(cs.subrange(1, cs.len() as int)))
    }
}

/// The share of leftover main-axis space a child receives: proportional
/// to its grow factor, rounded down.
pub open spec fn spec_extra(c: Node, leftover: int, grow_sum: int) -> int {
    if c.style.grow > 0 && grow_sum > 0 {
        sat32(leftover * c.style.grow / grow_sum)
    } else {
        0
    }
}

/// The resolved main-axis size of a child: fixed exactly as configured,
/// else its share of leftover space (clamped by the maximum), else its
/// intrinsic size.
pub open spec fn spec_main_size(c: Node, dir: Direction, leftover: int, grow_sum: int) -> int {
    match fixed_main(c.style, dir) {
        Some(v) => v as int,
        None => if c.style.grow > 0 {
            clamp_max(spec_extra(c, leftover, grow_sum), max_main(c.style, dir))
        } else {
            spec_intrinsic_main(c, dir)
        },
    }
}

/// The resolved cross-axis size of a child: fixed exactly as configured,
/// else the content box under `Stretch` (clamped by the maximum), else
/// its intrinsic size.
pub open spec fn spec_cross_size(c: Node, dir: Direction, content_cross: int, align: Align) -> int {
    match fixed_cross(c.style, dir) {
        Some(v) => v as int,
        None => if align == Align::Stretch {
            clamp_max(content_cross, max_cross(c.style, dir))
        } else {
            spec_intrinsic_cross(c, dir)
        },
    }
}

/// How far from the content box start a child sits on the cross axis.
pub open spec fn spec_cross_offset(align: Align, content_cross: int, child_cross: int) -> int {
    match align {
        Align::Start => 0,
        Align::Stretch => 0,
        Align::Center => pos_sub(content_cross, child_cross) / 2,
        Align::End => pos_sub(content_cross, child_cross),
    }
}

/// Resolves `n` at position `(x, y)` with the size `(w, h)` its parent
/// assigned, recursively placing its children inside the padded content
/// box.
pub open spec fn spec_place(n: Node, x: int, y: int, w: int, h: int) -> LayoutV
    decreases n, 0int,
{
    let p = n.style.padding as int;
    let cx = sat32(x + p);
    let cy = sat32(y + p);
    let cw = pos_sub(w, 2 * p);
    let ch = pos_sub(h, 2 * p);
    let dir = n.style.direction;
    let content_main = if dir == Direction::Row { cw } else { ch };
    let content_cross = if dir == Direction::Row { ch } else { cw };
    let main_start = if dir == Direction::Row { cx } else { cy };
    let cross_start = if dir == Direction::Row { cy } else { cx };
    let leftover = pos_sub(content_main, spec_bases_sum(n.children@, dir));
    LayoutV {
        x,
        y,
        width: w,
        height: h,
        children: spec_place_children(
            n.children@,
            dir,
            n.style.align,
            main_start,
            cross_start,
            content_cross,
            leftover,
            spec_grow_sum(n.children@),
        ),
    }
}

/// Places a child sequence along `dir` starting at `main_pos`, handing
/// each child its resolved size and advancing by size plus trailing
/// margin.
pub open spec fn spec_place_children(
    cs: Seq<Node>,
    dir: Direction,
    align: Align,
    main_pos: int,
    cross_start: int,
    content_cross: int,
    leftover: int,
    grow_sum: int,
) -> Seq<LayoutV>
    decreases cs, 1int,
{
    if cs.len() == 0 {
        Seq::empty()
    } else {
        let c = cs[0];
        let m = spec_main_size(c, dir, leftover, grow_sum);
        let cr = spec_cross_size(c, dir, content_cross, align);
        let off = spec_cross_offset(align, content_cross, cr);
        let cross_pos = sat32(cross_start + off);
        let child_x = if dir == Direction::Row { main_pos } else { cross_pos };
        let child_y = if dir == Direction::Row { cross_pos } else { main_pos };
        let child_w = if dir == Direction::Row { m } else { cr };
        let child_h = if dir == Direction::Row { cr } else { m };
        seq![spec_place(c, child_x, child_y, child_w, child_h)] + spec_place_children(
            cs.subrange(1, cs.len() as int),
            dir,
            align,
            sat32(main_pos + m + c.margin_end),
            cross_start,
            content_cross,
            leftover,
            grow_sum,
        )
    }
}

/// Places a row of children that all carry the same fixed width `ww` and
/// the same trailing margin `s` (the last child's margin does not matter):
/// each child resolves to exactly `ww` wide and consecutive children sit
/// exactly `ww + s` apart, as long as the positions stay in pixel range.
pub proof fn lemma_place_children_row_fixed(
    cs: Seq<Node>,
    align: Align,
    main_pos: int,
    cross_start: int,
    content_cross: int,
    leftover: int,
    grow_sum: int,
    ww: u32,
    s: u32,
)
    requires
        forall|i: int| 0 <= i < cs.len() ==> (#[trigger] cs[i]).style.width == Some(ww),
        forall|i: int| 0 <= i < cs.len() - 1 ==> (#[trigger] cs[i]).margin_end == s,
        0 <= main_pos,
        main_pos + cs.len() * (ww as int + s as int) <= u32::MAX,
    ensures
        spec_place_children(
            cs,
            Direction::Row,
            align,
            main_pos,
            cross_start,
            content_cross,
            leftover,
            grow_sum,
        ).len() == cs.len(),
        forall|i: int|
            0 <= i < cs.len() ==> (#[trigger] spec_place_children(
                cs,
                Direction::Row,
                align,
                main_pos,
                cross_start,
                content_cross,
                leftover,
                grow_sum,
            )[i]).width == ww as int,
        forall|i: int|
            0 <= i < cs.len() ==> (#[trigger] spec_place_children(
                cs,
                Direction::Row,
                align,
                main_pos,
                cross_start,
                content_cross,
                leftover,
                grow_sum,
            )[i]).x == main_pos + i * (ww as int + s as int),
    decreases cs,
{
    let k = ww as int + s as int;
    let out = spec_place_children(
        cs,
        Direction::Row,
        align,
        main_pos,
        cross_start,
        content_cross,
        leftover,
        grow_sum,
    );
    if cs.len() > 0 {
        assert(cs.len() * k >= 1 * k) by (nonlinear_arith)
            requires
                cs.len() >= 1,
                k >= 0,
        ;
        assert(spec_main_size(cs[0], Direction::Row, leftover, grow_sum) == ww as int);
        let tail = cs.subrange(1, cs.len() as int);
        let margin = cs[0].margin_end as int;
        let c = cs[0];
        let m = spec_main_size(c, Direction::Row, leftover, grow_sum);
        let cr = spec_cross_size(c, Direction::Row, content_cross, align);
        let off = spec_cross_offset(align, content_cross, cr);
        let cross_pos = sat32(cross_start + off);
        let head = spec_place(c, main_pos, cross_pos, m, cr);
        assert(out == seq![head] + spec_place_children(
            tail,
            Direction::Row,
            align,
            sat32(main_pos + m + c.margin_end),
            cross_start,
            content_cross,
            leftover,
            grow_sum,
        ));
        assert(out[0] == head);
        assert(head.x == main_pos);
        assert(head.width == ww as int);
        if cs.len() == 1 {
            assert(out[0].x == main_pos);
            assert(out[0].width == ww as int);
            assert(main_pos + 0 * (ww as int + s as int) == main_pos) by (nonlinear_arith);
        } else {
            assert(margin == s as int);
            let next = sat32(main_pos + ww as int + margin);
            assert((cs.len() - 1) * k + k == cs.len() * k) by (nonlinear_arith);
            assert(next == main_pos + k);
            lemma_place_children_row_fixed(
                tail,
                align,
                next,
                cross_start,
                content_cross,
                leftover,
                grow_sum,
                ww,
                s,
            );
            let tail_out = spec_place_children(
                tail,
                Direction::Row,
                align,
                next,
                cross_start,
                content_cross,
                leftover,
                grow_sum,
            );
            assert forall|i: int| 0 <= i < cs.len() implies (#[trigger] out[i]).width == ww as int
                && out[i].x == main_pos + i * k by {
                if i == 0 {
                    assert(out[0].x == main_pos);
                    assert(main_pos + 0 * k == main_pos) by (nonlinear_arith);
                } else {
                    assert(out[i] == tail_out[i - 1]);
                    assert(tail_out[i - 1].x == next + (i - 1) * k);
                    assert(main_pos + k + (i - 1) * k == main_pos + i * k) by (nonlinear_arith);
                }
            }
        }
    }
}

/// Law: in a row of `N` children that all have the same fixed width `W`
/// and spacing `S` (a trailing margin on every child but the last), every
/// child resolves to exactly `W` wide, consecutive children sit `W + S`
/// apart, and the span from the first child's left edge to the last
/// child's right edge is exactly `N·W + (N−1)·S` — so the resolved
/// content is never narrower than that, whether or not the row's own
/// width accommodates it.
pub proof fn lemma_row_spacing(n: Node, x: int, y: int, w: int, h: int, ww: u32, s: u32)
    requires
        n.style.direction == Direction::Row,
        n.children@.len() >= 1,
        forall|i: int|
            0 <= i < n.children@.len() ==> (#[trigger] n.children@[i]).style.width == Some(ww),
        forall|i: int|
            0 <= i < n.children@.len() - 1 ==> (#[trigger] n.children@[i]).margin_end == s,
        0 <= x,
        0 <= y,
        x + n.style.padding + n.children@.len() * (ww as int + s as int) <= u32::MAX,
    ensures
        spec_place(n, x, y, w, h).children.len() == n.children@.len(),
        forall|i: int|
            0 <= i < n.children@.len() ==> (#[trigger] spec_place(n, x, y, w, h).children[i]).width
                == ww as int,
        forall|i: int|
            0 <= i < n.children@.len() ==> (#[trigger] spec_place(n, x, y, w, h).children[i]).x == x
                + n.style.padding + i * (ww as int + s as int),
        ({
            let out = spec_place(n, x, y, w, h).children;
            let len = n.children@.len() as int;
            out[len - 1].x + ww - out[0].x == len * (ww as int) + (len - 1) * (s as int)
        }),
{
    let p = n.style.padding as int;
    let k = ww as int + s as int;
    let len = n.children@.len() as int;
    let cx = sat32(x + p);
    assert(len * k >= 1 * k) by (nonlinear_arith)
        requires
            len >= 1,
            k >= 0,
    ;
    assert(cx == x + p);
    let cy = sat32(y + p);
    let cw = pos_sub(w, 2 * p);
    let ch = pos_sub(h, 2 * p);
    let leftover = pos_sub(cw, spec_bases_sum(n.children@, Direction::Row));
    lemma_place_children_row_fixed(
        n.children@,
        n.style.align,
        cx,
        cy,
        ch,
        leftover,
        spec_grow_sum(n.children@),
        ww,
        s,
    );
    let out = spec_place(n, x, y, w, h).children;
    assert(out[len - 1].x == cx + (len - 1) * k);
    assert((len - 1) * k + ww as int == len * (ww as int) + (len - 1) * (s as int))
        by (nonlinear_arith)
        requires
            k == ww as int + s as int,
    ;
}

/// The resolved tree has the same shape as the node tree: one layout
/// child per node child, recursively.
pub open spec fn mirrors(n: Node, lv: LayoutV) -> bool
    decreases n, 0int,
{
    lv.children.len() == n.children@.len() && mirrors_children(n.children@, lv.children)
}

/// [`mirrors`] of children paired by index.
pub open spec fn mirrors_children(cs: Seq<Node>, lvs: Seq<LayoutV>) -> bool
    decreases cs, 1int,
{
    cs.len() == lvs.len() && (cs.len() == 0 || (mirrors(cs[0], lvs[0]) && mirrors_children(
        cs.subrange(1, cs.len() as int),
        lvs.subrange(1, lvs.len() as int),
    )))
}

/// Law: the geometry [`spec_place`] resolves always mirrors the shape of
/// the node tree it was given — every node gets exactly one layout, with
/// one layout child per node child.
pub proof fn lemma_place_mirrors(n: Node, x: int, y: int, w: int, h: int)
    ensures
        mirrors(n, spec_place(n, x, y, w, h)),
    decreases n, 0int,
{
    let p = n.style.padding as int;
    let cx = sat32(x + p);
    let cy = sat32(y + p);
    let cw = pos_sub(w, 2 * p);
    let ch = pos_sub(h, 2 * p);
    let dir = n.style.direction;
    let content_main = if dir == Direction::Row { cw } else { ch };
    let content_cross = if dir == Direction::Row { ch } else { cw };
    let main_start = if dir == Direction::Row { cx } else { cy };
    let cross_start = if dir == Direction::Row { cy } else { cx };
    let leftover = pos_sub(content_main, spec_bases_sum(n.children@, dir));
    lemma_place_children_mirrors(
        n.children@,
        dir,
        n.style.align,
        main_start,
        cross_start,
        content_cross,
        leftover,
        spec_grow_sum(n.children@),
    );
}

/// [`lemma_place_mirrors`] over a child sequence.
pub proof fn lemma_place_children_mirrors(
    cs: Seq<Node>,
    dir: Direction,
    align: Align,
    main_pos: int,
    cross_start: int,
    content_cross: int,
    leftover: int,
    grow_sum: int,
)
    ensures
        mirrors_children(
            cs,
            spec_place_children(
                cs,
                dir,
                align,
                main_pos,
                cross_start,
                content_cross,
                leftover,
                grow_sum,
            ),
        ),
    decreases cs, 1int,
{
    if cs.len() > 0 {
        let c = cs[0];
        let m = spec_main_size(c, dir, leftover, grow_sum);
        let cr = spec_cross_size(c, dir, content_cross, align);
        let off = spec_cross_offset(align, content_cross, cr);
        let cross_pos = sat32(cross_start + off);
        let child_x = if dir == Direction::Row { main_pos } else { cross_pos };
        let child_y = if dir == Direction::Row { cross_pos } else { main_pos };
        let child_w = if dir == Direction::Row { m } else { cr };
        let child_h = if dir == Direction::Row { cr } else { m };
        lemma_place_mirrors(c, child_x, child_y, child_w, child_h);
        lemma_place_children_mirrors(
            cs.subrange(1, cs.len() as int),
            dir,
            align,
            sat32(main_pos + m + c.margin_end),
            cross_start,
            content_cross,
            leftover,
            grow_sum,
        );
        let out = spec_place_children(
            cs,
            dir,
            align,
            main_pos,
            cross_start,
            content_cross,
            leftover,
            grow_sum,
        );
        assert(out.subrange(1, out.len() as int) =~= spec_place_children(
            cs.subrange(1, cs.len() as int),
            dir,
            align,
            sat32(main_pos + m + c.margin_end),
            cross_start,
            content_cross,
            leftover,
            grow_sum,
        ));
    }
}

/// The width the root resolves to against an available width.
pub open spec fn spec_root_width(n: Node, aw: int) -> int {
    match n.style.width {
        Some(w) => w as int,
        None => if n.style.grow > 0 {
            clamp_max(aw, n.style.max_width)
        } else {
            spec_intrinsic_width(n)
        },
    }
}

/// The height the root resolves to against an available height.
pub open spec fn spec_root_height(n: Node, ah: int) -> int {
    match n.style.height {
        Some(h) => h as int,
        None => if n.style.grow > 0 {
            clamp_max(ah, n.style.max_height)
        } else {
            spec_intrinsic_height(n)
        },
    }
}

/// The geometry a node tree resolves to against an available size: the
/// root is placed at the origin and everything below follows from
/// [`spec_place`]. Solving is a pure function of the tree and the
/// available size, so identical inputs always resolve identically.
pub open spec fn spec_solve(n: Node, aw: int, ah: int) -> LayoutV {
    spec_place(n, 0, 0, spec_root_width(n, aw), spec_root_height(n, ah))
}

/// Law: a widget configured with a fixed width and height resolves to
/// exactly those values, whatever its other style settings, its children
/// and the available size.
pub proof fn lemma_fixed_size_exact(n: Node, aw: int, ah: int, w: u32, h: u32)
    requires
        n.style.width == Some(w),
        n.style.height == Some(h),
    ensures
        spec_solve(n, aw, ah).width == w as int,
        spec_solve(n, aw, ah).height == h as int,
{
}

/// Law: solving is deterministic. The resolved geometry is a pure
/// function of the node tree and the available size, so re-running the
/// solver on the same pair reproduces identical positions and sizes.
pub proof fn lemma_solve_deterministic(n: Node, aw: int, ah: int, l1: LayoutV, l2: LayoutV)
    requires
        l1 == spec_solve(n, aw, ah),
        l2 == spec_solve(n, aw, ah),
    ensures
        l1 == l2,
{
}

/// Saturating addition on pixels.
pub fn sat_add(a: u32, b: u32) -> (r: u32)
    ensures
        r as int == sat32(a as int + b as int),
{
    let s: u64 = a as u64 + b as u64;
    if s > u32::MAX as u64 {
        u32::MAX
    } else {
        s as u32
    }
}

/// Saturating addition of three pixel values.
pub fn sat_add3(a: u32, b: u32, c: u32) -> (r: u32)
    ensures
        r as int == sat32(a as int + b as int + c as int),
{
    let s: u64 = a as u64 + b as u64 + c as u64;
    if s > u32::MAX as u64 {
        u32::MAX
    } else {
        s as u32
    }
}

/// Computes [`spec_intrinsic_width`] of `n`.
pub fn intrinsic_width(n: &Node) -> (r: u32)
    ensures
        r as int == spec_intrinsic_width(*n),
    decreases *n, 0int,
{
    match n.style.width {
        Some(w) => w,
        None => {
            let content = content_width(&n.children, n.style.direction);
            let padded = sat_add3(n.style.padding, n.style.padding, content);
            let clamped = match n.style.max_width {
                Some(mx) => if padded > mx { mx } else { padded },
                None => padded,
            };
            clamped
        },
    }
}

/// Computes [`spec_content_width`] of `cs`.
pub fn content_width(cs: &Vec<Node>, dir: Direction) -> (r: u32)
    ensures
        r as int == spec_content_width(cs@, dir),
    decreases cs@, 1int,
{
    let mut acc: u32 = 0;
    let mut i: usize = cs.len();
    assert(cs@.subrange(i as int, cs@.len() as int) =~= Seq::<Node>::empty());
    while i > 0
        invariant
            i <= cs@.len(),
            acc as int == spec_content_width(cs@.subrange(i as int, cs@.len() as int), dir),
        decreases i,
    {
        i = i - 1;
        assert(decreases_to!(cs@ => cs@[i as int]));
        let w = intrinsic_width(&cs[i]);
        if dir == Direction::Row {
            acc = sat_add3(w, cs[i].margin_end, acc);
        } else {
            if w > acc {
                acc = w;
            }
        }
        proof {
            let tail = cs@.subrange(i + 1, cs@.len() as int);
            let whole = cs@.subrange(i as int, cs@.len() as int);
            assert(whole[0] == cs@[i as int]);
            assert(whole.subrange(1, whole.len() as int) =~= tail);
        }
    }
    assert(cs@.subrange(0, cs@.len() as int) =~= cs@);
    acc
}

/// Computes [`spec_intrinsic_height`] of `n`.
pub fn intrinsic_height(n: &Node) -> (r: u32)
    ensures
        r as int == spec_intrinsic_height(*n),
    decreases *n, 0int,
{
    match n.style.height {
        Some(h) => h,
        None => {
            let content = content_height(&n.children, n.style.direction);
            let padded = sat_add3(n.style.padding, n.style.padding, content);
            let clamped = match n.style.max_height {
                Some(mx) => if padded > mx { mx } else { padded },
                None => padded,
            };
            clamped
        },
    }
}

/// Computes [`spec_content_height`] of `cs`.
pub fn content_height(cs: &Vec<Node>, dir: Direction) -> (r: u32)
    ensures
        r as int == spec_content_height(cs@, dir),
    decreases cs@, 1int,
{
    let mut acc: u32 = 0;
    let mut i: usize = cs.len();
    assert(cs@.subrange(i as int, cs@.len() as int) =~= Seq::<Node>::empty());
    while i > 0
        invariant
            i <= cs@.len(),
            acc as int == spec_content_height(cs@.subrange(i as int, cs@.len() as int), dir),
        decreases i,
    {
        i = i - 1;
        assert(decreases_to!(cs@ => cs@[i as int]));
        let h = intrinsic_height(&cs[i]);
        if dir == Direction::Column {
            acc = sat_add3(h, cs[i].margin_end, acc);
        } else {
            if h > acc {
                acc = h;
            }
        }
        proof {
            let tail = cs@.subrange(i + 1, cs@.len() as int);
            let whole = cs@.subrange(i as int, cs@.len() as int);
            assert(whole[0] == cs@[i as int]);
            assert(whole.subrange(1, whole.len() as int) =~= tail);
        }
    }
    assert(cs@.subrange(0, cs@.len() as int) =~= cs@);
    acc
}

/// Computes [`spec_base_main`] of `c`.
pub fn base_main(c: &Node, dir: Direction) -> (r: u32)
    ensures
        r as int == spec_base_main(*c, dir),
{
    let fixed = if dir == Direction::Row {
        c.style.width
    } else {
        c.style.height
    };
    match fixed {
        Some(v) => v,
        None => if c.style.grow > 0 {
            0
        } else if dir == Direction::Row {
            intrinsic_width(c)
        } else {
            intrinsic_height(c)
        },
    }
}

/// Computes [`spec_bases_sum`] of `cs`.
pub fn bases_sum(cs: &Vec<Node>, dir: Direction) -> (r: u32)
    ensures
        r as int == spec_bases_sum(cs@, dir),
{
    let mut acc: u32 = 0;
    let mut i: usize = cs.len();
    assert(cs@.subrange(i as int, cs@.len() as int) =~= Seq::<Node>::empty());
    while i > 0
        invariant
            i <= cs@.len(),
            acc as int == spec_bases_sum(cs@.subrange(i as int, cs@.len() as int), dir),
        decreases i,
    {
        i = i - 1;
        let b = base_main(&cs[i], dir);
        acc = sat_add3(b, cs[i].margin_end, acc);
        proof {
            let tail = cs@.subrange(i + 1, cs@.len() as int);
            let whole = cs@.subrange(i as int, cs@.len() as int);
            assert(whole[0] == cs@[i as int]);
            assert(whole.subrange(1, whole.len() as int) =~= tail);
        }
    }
    assert(cs@.subrange(0, cs@.len() as int) =~= cs@);
    acc
}

/// Computes [`spec_grow_sum`] of `cs`.
pub fn grow_total(cs: &Vec<Node>) -> (r: u32)
    ensures
        r as int == spec_grow_sum(cs@),
{
    let mut acc: u32 = 0;
    let mut i: usize = cs.len();
    assert(cs@.subrange(i as int, cs@.len() as int) =~= Seq::<Node>::empty());
    while i > 0
        invariant
            i <= cs@.len(),
            acc as int == spec_grow_sum(cs@.subrange(i as int, cs@.len() as int)),
        decreases i,
    {
        i = i - 1;
        acc = sat_add(cs[i].style.grow, acc);
        proof {
            let tail = cs@.subrange(i + 1, cs@.len() as int);
            let whole = cs@.subrange(i as int, cs@.len() as int);
            assert(whole[0] == cs@[i as int]);
            assert(whole.subrange(1, whole.len() as int) =~= tail);
        }
    }
    assert(cs@.subrange(0, cs@.len() as int) =~= cs@);
    acc
}

/// Computes [`spec_main_size`] of `c`.
pub fn main_size(c: &Node, dir: Direction, leftover: u32, grow_sum: u32) -> (r: u32)
    ensures
        r as int == spec_main_size(*c, dir, leftover as int, grow_sum as int),
{
    let fixed = if dir == Direction::Row {
        c.style.width
    } else {
        c.style.height
    };
    match fixed {
        Some(v) => v,
        None => {
            if c.style.grow > 0 {
                let extra: u32 = if grow_sum > 0 {
                    proof {
                        assert((leftover as int) * (c.style.grow as int) <= (u32::MAX as int) * (
                        u32::MAX as int)) by (nonlinear_arith)
                            requires
                                0 <= leftover as int <= u32::MAX as int,
                                0 <= c.style.grow as int <= u32::MAX as int,
                        ;
                    }
                    let prod: u64 = (leftover as u64) * (c.style.grow as u64);
                    let q: u64 = prod / (grow_sum as u64);
                    if q > u32::MAX as u64 {
                        u32::MAX
                    } else {
                        q as u32
                    }
                } else {
                    0
                };
                let mx = if dir == Direction::Row {
                    c.style.max_width
                } else {
                    c.style.max_height
                };
                match mx {
                    Some(m) => if extra > m { m } else { extra },
                    None => extra,
                }
            } else {
                if dir == Direction::Row {
                    intrinsic_width(c)
                } else {
                    intrinsic_height(c)
                }
            }
        },
    }
}

/// Computes [`spec_cross_size`] of `c`.
pub fn cross_size(c: &Node, dir: Direction, content_cross: u32, align: Align) -> (r: u32)
    ensures
        r as int == spec_cross_size(*c, dir, content_cross as int, align),
{
    let fixed = if dir == Direction::Row {
        c.style.height
    } else {
        c.style.width
    };
    match fixed {
        Some(v) => v,
        None => {
            if align == Align::Stretch {
                let mx = if dir == Direction::Row {
                    c.style.max_height
                } else {
                    c.style.max_width
                };
                match mx {
                    Some(m) => if content_cross > m { m } else { content_cross },
                    None => content_cross,
                }
            } else {
                if dir == Direction::Row {
                    intrinsic_height(c)
                } else {
                    intrinsic_width(c)
                }
            }
        },
    }
}

/// Computes [`spec_cross_offset`].
pub fn cross_offset(align: Align, content_cross: u32, child_cross: u32) -> (r: u32)
    ensures
        r as int == spec_cross_offset(align, content_cross as int, child_cross as int),
{
    let gap: u32 = if content_cross > child_cross {
        content_cross - child_cross
    } else {
        0
    };
    match align {
        Align::Start => 0,
        Align::Stretch => 0,
        Align::Center => gap / 2,
        Align::End => gap,
    }
}

/// Resolves `n` at `(x, y)` with the assigned size `(w, h)`, placing its
/// children inside the padded content box exactly as [`spec_place`]
/// describes.
pub fn place(n: &Node, x: u32, y: u32, w: u32, h: u32) -> (l: Layout)
    ensures
        layout_view(l) == spec_place(*n, x as int, y as int, w as int, h as int),
    decreases *n,
{
    let p = n.style.padding;
    let cx = sat_add(x, p);
    let cy = sat_add(y, p);
    let pp: u64 = 2 * (p as u64);
    let cw: u32 = if (w as u64) > pp {
        (w as u64 - pp) as u32
    } else {
        0
    };
    let ch: u32 = if (h as u64) > pp {
        (h as u64 - pp) as u32
    } else {
        0
    };
    let dir = n.style.direction;
    let align = n.style.align;
    let content_main = if dir == Direction::Row { cw } else { ch };
    let content_cross = if dir == Direction::Row { ch } else { cw };
    let main_start = if dir == Direction::Row { cx } else { cy };
    let cross_start = if dir == Direction::Row { cy } else { cx };
    let bases = bases_sum(&n.children, dir);
    let leftover: u32 = if content_main > bases {
        content_main - bases
    } else {
        0
    };
    let gsum = grow_total(&n.children);
    let ghost goal = spec_place_children(
        n.children@,
        dir,
        align,
        main_start as int,
        cross_start as int,
        content_cross as int,
        leftover as int,
        gsum as int,
    );
    let mut out: Vec<Layout> = Vec::new();
    let mut mp: u32 = main_start;
    let mut i: usize = 0;
    assert(n.children@.subrange(0, n.children@.len() as int) =~= n.children@);
    while i < n.children.len()
        invariant
            out@.len() == i,
            i <= n.children@.len(),
            layout_children_view(out@) + spec_place_children(
                n.children@.subrange(i as int, n.children@.len() as int),
                dir,
                align,
                mp as int,
                cross_start as int,
                content_cross as int,
                leftover as int,
                gsum as int,
            ) == goal,
        decreases n.children@.len() - i,
    {
        proof {
            lemma_layout_children_view(out@);
        }
        let m = main_size(&n.children[i], dir, leftover, gsum);
        let cr = cross_size(&n.children[i], dir, content_cross, align);
        let off = cross_offset(align, content_cross, cr);
        let cross_pos = sat_add(cross_start, off);
        let child_x = if dir == Direction::Row { mp } else { cross_pos };
        let child_y = if dir == Direction::Row { cross_pos } else { mp };
        let child_w = if dir == Direction::Row { m } else { cr };
        let child_h = if dir == Direction::Row { cr } else { m };
        assert(decreases_to!(*n => n.children@[i as int]));
        let lay = place(&n.children[i], child_x, child_y, child_w, child_h);
        proof {
            let suf = n.children@.subrange(i as int, n.children@.len() as int);
            assert(suf[0] == n.children@[i as int]);
            assert(suf.subrange(1, suf.len() as int) =~= n.children@.subrange(
                i as int + 1,
                n.children@.len() as int,
            ));
            lemma_layout_children_view_push(out@, lay);
            assert(layout_children_view(out@.push(lay)) + spec_place_children(
                n.children@.subrange(i as int + 1, n.children@.len() as int),
                dir,
                align,
                sat32(mp as int + m as int + n.children@[i as int].margin_end as int),
                cross_start as int,
                content_cross as int,
                leftover as int,
                gsum as int,
            ) =~= goal);
        }
        let margin = n.children[i].margin_end;
        out.push(lay);
        mp = sat_add3(mp, m, margin);
        i = i + 1;
    }
    proof {
        assert(n.children@.subrange(n.children@.len() as int, n.children@.len() as int)
            =~= Seq::<Node>::empty());
        assert(layout_children_view(out@) + Seq::<LayoutV>::empty() =~= layout_children_view(out@));
    }
    let l = Layout { x, y, width: w, height: h, children: out };
    proof {
        assert(layout_view(l) =~= spec_place(*n, x as int, y as int, w as int, h as int));
    }
    l
}

/// Resolves a node tree against an available size. The result is a pure
/// function of the two arguments — see [`spec_solve`] — so solving the
/// same tree against the same size again reproduces the same geometry.
pub fn solve(n: &Node, available_width: u32, available_height: u32) -> (l: Layout)
    ensures
        layout_view(l) == spec_solve(*n, available_width as int, available_height as int),
{
    let w: u32 = match n.style.width {
        Some(v) => v,
        None => if n.style.grow > 0 {
            match n.style.max_width {
                Some(m) => if available_width > m { m } else { available_width },
                None => available_width,
            }
        } else {
            intrinsic_width(n)
        },
    };
    let h: u32 = match n.style.height {
        Some(v) => v,
        None => if n.style.grow > 0 {
            match n.style.max_height {
                Some(m) => if available_height > m { m } else { available_height },
                None => available_height,
            }
        } else {
            intrinsic_height(n)
        },
    };
    place(n, 0, 0, w, h)
}

} // verus!
