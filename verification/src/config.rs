use vstd::prelude::*;

use crate::data::Thread;

verus! {

/// The direction in which a pane is split.
#[derive(Debug, Clone, Copy, PartialEq, Eq)]
pub enum Axis {
    Horizontal,
    Vertical,
}

/// The arrangement of panes saved between sessions: a tree of splits whose
/// leaves are panes, each with the conversation it showed. The ratio of a
/// split is kept as the bits of its `f32`, which the library only carries.
#[derive(Debug)]
pub enum Layout {
    Split { axis: Axis, ratio_bits: u32, a: Box<Layout>, b: Box<Layout> },
    Pane(Option<Thread>),
}

/// The conversations that the panes of `layout` show, from left to right.
pub open spec fn layout_threads(layout: Layout) -> Seq<Thread>
    decreases layout,
{
    match layout {
        Layout::Split { a, b, .. } => layout_threads(*a) + layout_threads(*b),
        Layout::Pane(thread) => match thread {
            Some(t) => seq![t],
            None => Seq::empty(),
        },
    }
}

} // verus!
