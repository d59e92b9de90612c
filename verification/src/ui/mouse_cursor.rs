//! The mouse cursor hint a draw pass resolves.
//!
//! Every widget's draw reports a hint; containers fold their children's
//! hints bottom-up, letting any non-default hint override the default.
//! The final hint tells the runtime glue which cursor glyph to display.

use vstd::prelude::*;

verus! {

/// Which cursor glyph to display.
#[derive(Clone, Copy, PartialEq, Eq, Structural, Debug)]
pub enum MouseCursor {
    /// The ordinary arrow.
    Default,
    /// A pointing hand, over something clickable.
    Pointer,
    /// A busy indicator.
    Working,
    /// An open hand, over something grabbable.
    Grab,
    /// A closed hand, while dragging.
    Grabbing,
}

/// The fold a container applies while drawing: a child's hint overrides
/// what was accumulated so far unless the child reports the default.
pub open spec fn spec_cursor_merge(acc: MouseCursor, new: MouseCursor) -> MouseCursor {
    if new != MouseCursor::Default {
        new
    } else {
        acc
    }
}

/// Merges one child's hint into the accumulated hint.
pub fn cursor_merge(acc: MouseCursor, new: MouseCursor) -> (c: MouseCursor)
    ensures
        c == spec_cursor_merge(acc, new),
{
    if new != MouseCursor::Default {
        new
    } else {
        acc
    }
}

} // verus!
