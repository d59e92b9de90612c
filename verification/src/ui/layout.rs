//! Resolved geometry: an absolute position and a concrete size for every
//! node, mirroring the shape of the [`Node`](crate::ui::node::Node) tree
//! it was solved from.

use vstd::prelude::*;

use crate::graphics::Rectangle;

verus! {

/// The resolved geometry of one node and, recursively, of its children.
/// Positions are absolute, measured from the root's top-left corner.
#[derive(Debug, PartialEq, Eq)]
pub struct Layout {
    /// Absolute horizontal position of the top-left corner.
    pub x: u32,
    /// Absolute vertical position of the top-left corner.
    pub y: u32,
    /// Resolved width in pixels.
    pub width: u32,
    /// Resolved height in pixels.
    pub height: u32,
    /// Resolved geometry of the children, in child order.
    pub children: Vec<Layout>,
}

/// The mathematical shape of a resolved layout tree.
#[verifier::ext_equal]
pub ghost struct LayoutV {
    /// Absolute horizontal position of the top-left corner.
    pub x: int,
    /// Absolute vertical position of the top-left corner.
    pub y: int,
    /// Resolved width.
    pub width: int,
    /// Resolved height.
    pub height: int,
    /// Views of the children, in child order.
    pub children: Seq<LayoutV>,
}

/// The view of a resolved layout tree.
pub open spec fn layout_view(l: Layout) -> LayoutV
    decreases l,
{
    LayoutV {
        x: l.x as int,
        y: l.y as int,
        width: l.width as int,
        height: l.height as int,
        children: layout_children_view(l.children@),
    }
}

/// The views of a sequence of resolved layout trees, in order.
pub open spec fn layout_children_view(cs: Seq<Layout>) -> Seq<LayoutV>
    decreases cs,
{
    if cs.len() == 0 {
        Seq::empty()
    } else {
        seq![layout_view(cs[0])] + layout_children_view(cs.subrange(1, cs.len() as int))
    }
}

/// `layout_children_view` maps `layout_view` over the sequence, element
/// by element.
pub proof fn lemma_layout_children_view(cs: Seq<Layout>)
    ensures
        layout_children_view(cs).len() == cs.len(),
        forall|i: int|
            0 <= i < cs.len() ==> layout_children_view(cs)[i] == layout_view(cs[i]),
    decreases cs.len(),
{
    if cs.len() > 0 {
        lemma_layout_children_view(cs.subrange(1, cs.len() as int));
        assert forall|i: int|
            0 <= i < cs.len() implies layout_children_view(cs)[i] == layout_view(cs[i]) by {
            if i > 0 {
                assert(cs.subrange(1, cs.len() as int)[i - 1] == cs[i]);
            }
        }
    }
}

/// Appending a layout to a sequence appends its view to the sequence of
/// views.
pub proof fn lemma_layout_children_view_push(s: Seq<Layout>, x: Layout)
    ensures
        layout_children_view(s.push(x)) == layout_children_view(s) + seq![layout_view(x)],
{
    lemma_layout_children_view(s.push(x));
    lemma_layout_children_view(s);
    assert forall|i: int|
        0 <= i < s.len() + 1 implies layout_children_view(s.push(x))[i] == (layout_children_view(
        s,
    ) + seq![layout_view(x)])[i] by {
        if i < s.len() {
            assert(s.push(x)[i] == s[i]);
        } else {
            assert(s.push(x)[i] == x);
        }
    }
    assert(layout_children_view(s.push(x)) =~= layout_children_view(s) + seq![layout_view(x)]);
}

impl View for Layout {
    type V = LayoutV;

    open spec fn view(&self) -> LayoutV {
        layout_view(*self)
    }
}

impl Layout {
    /// The rectangle this node covers on screen.
    pub fn bounds(&self) -> (r: Rectangle<u32>)
        ensures
            r == (Rectangle { x: self.x, y: self.y, width: self.width, height: self.height }),
    {
        Rectangle { x: self.x, y: self.y, width: self.width, height: self.height }
    }
}

} // verus!
