//! Reasons for which an operation on the container tree is refused.

use vstd::prelude::*;

verus! {

/// Why an operation gave up. Every failure leaves the state as it was.
#[derive(Clone, Copy, Debug, PartialEq, Eq, Structural)]
pub enum WmError {
    /// The tree holds nothing that could carry the focus.
    NoFocusedContainer,
    /// The focused container has no parent to insert under.
    NoInsertionTarget,
    /// The container is the root and so has no parent.
    NoParent,
    /// No workspace owns the container.
    NoWorkspace,
    /// No monitor could be found for the window or for its destination.
    NoMonitor,
    /// The container is not a window.
    NotAWindow,
    /// The identifier names no container of the tree.
    UnknownContainer,
    /// The index lies beyond the end of the child sequence.
    IndexOutOfBounds,
    /// A window would come to hold children.
    WindowHoldsNoChildren,
    /// The destination of a move lies inside the container being moved.
    MoveIntoOwnSubtree,
    /// The centered placement has an edge outside the coordinate range.
    PlacementOutOfRange,
}

} // verus!
