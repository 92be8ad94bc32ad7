//! What a finished drag-and-drop hands back to the application.

use vstd::prelude::*;
use crate::traits::DropPosition;

verus! {

/// A completed drop: `source` goes at `position` relative to `target`.
#[derive(Debug, Clone, PartialEq, Eq)]
pub struct DropEvent<Id> {
    /// The node that was dragged.
    pub source: Id,
    /// The node it was dropped on.
    pub target: Id,
    /// Where the source goes relative to the target.
    pub position: DropPosition,
}

impl<Id> DropEvent<Id> {
    /// A drop of `source` at `position` relative to `target`.
    pub fn new(source: Id, target: Id, position: DropPosition) -> (r: Self)
        ensures
            r.source == source,
            r.target == target,
            r.position == position,
    {
        DropEvent { source, target, position }
    }
}

} // verus!
