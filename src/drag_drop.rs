//! Drag-and-drop bookkeeping: which node is being dragged, which node it
//! hovers over and where it would land, and whether a drop is allowed.

use vstd::prelude::*;
use crate::traits::{DropPosition, OutlinerNode};

verus! {

/// The state of an ongoing drag, if any.
///
/// `hover_target` and `drop_position` describe where the dragged node would
/// land if released now; the operations of this type set and clear them
/// together. The operations are provided for `u64` identifiers.
#[derive(Debug, Clone)]
pub struct DragDropState<Id> {
    /// The node being dragged.
    pub dragging: Option<Id>,
    /// The node under the pointer that would receive the drop.
    pub hover_target: Option<Id>,
    /// Where, relative to `hover_target`, the dragged node would land.
    pub drop_position: Option<DropPosition>,
}

impl DragDropState<u64> {
    /// No drag in progress.
    pub open spec fn is_idle(&self) -> bool {
        &&& self.dragging is None
        &&& self.hover_target is None
        &&& self.drop_position is None
    }

    /// A state with no drag in progress.
    pub fn new() -> (r: Self)
        ensures
            r.is_idle(),
    {
        DragDropState { dragging: None, hover_target: None, drop_position: None }
    }

    /// Starts dragging `id`, forgetting any earlier hover.
    pub fn start_drag(&mut self, id: u64)
        ensures
            final(self).dragging == Some(id),
            final(self).hover_target is None,
            final(self).drop_position is None,
    {
        self.dragging = Some(id);
        self.hover_target = None;
        self.drop_position = None;
    }

    /// Records that a drop now would land at `position` relative to `target`.
    pub fn update_hover(&mut self, target: u64, position: DropPosition)
        ensures
            final(self).dragging == old(self).dragging,
            final(self).hover_target == Some(target),
            final(self).drop_position == Some(position),
    {
        self.hover_target = Some(target);
        self.drop_position = Some(position);
    }

    /// Forgets the hover target; the drag itself goes on.
    pub fn clear_hover(&mut self)
        ensures
            final(self).dragging == old(self).dragging,
            final(self).hover_target is None,
            final(self).drop_position is None,
    {
        self.hover_target = None;
        self.drop_position = None;
    }

    /// Ends the drag. Returns `(source, target, position)` when a node was
    /// being dragged over a target with a position, and `None` otherwise.
    pub fn end_drag(&mut self) -> (r: Option<(u64, u64, DropPosition)>)
        ensures
            final(self).is_idle(),
            r == (match (old(self).dragging, old(self).hover_target, old(self).drop_position) {
                (Some(s), Some(t), Some(p)) => Some((s, t, p)),
                _ => None,
            }),
    {
        let result = match (self.dragging, self.hover_target, self.drop_position) {
            (Some(source), Some(target), Some(position)) => Some((source, target, position)),
            _ => None,
        };
        self.dragging = None;
        self.hover_target = None;
        self.drop_position = None;
        result
    }

    /// Abandons the drag without a drop.
    pub fn cancel_drag(&mut self)
        ensures
            final(self).is_idle(),
    {
        self.dragging = None;
        self.hover_target = None;
        self.drop_position = None;
    }

    /// Whether a node is being dragged.
    pub fn is_dragging(&self) -> (r: bool)
        ensures
            r == self.dragging is Some,
    {
        self.dragging.is_some()
    }

    /// The node being dragged, if any.
    pub fn dragging_id(&self) -> (r: Option<&u64>)
        ensures
            r == (match self.dragging {
                Some(id) => Some(&id),
                None => None,
            }),
    {
        self.dragging.as_ref()
    }

    /// Whether `id` is the node being dragged.
    pub fn is_dragging_node(&self, id: &u64) -> (r: bool)
        ensures
            r == (self.dragging == Some(*id)),
    {
        match self.dragging {
            Some(d) => d == *id,
            None => false,
        }
    }

    /// Whether `id` is the current drop target.
    pub fn is_hover_target(&self, id: &u64) -> (r: bool)
        ensures
            r == (self.hover_target == Some(*id)),
    {
        match self.hover_target {
            Some(t) => t == *id,
            None => false,
        }
    }

    /// Where the dragged node would land, if over a target.
    pub fn current_drop_position(&self) -> (r: Option<DropPosition>)
        ensures
            r == self.drop_position,
    {
        self.drop_position
    }
}

impl Default for DragDropState<u64> {
    fn default() -> (r: Self)
        ensures
            r.is_idle(),
    {
        Self::new()
    }
}

/// The rules of a drop, given whether `target` lies below `source` in the
/// tree: a node cannot be dropped on itself, nor into its own subtree, and
/// only a collection can take a node inside it.
pub open spec fn drop_allowed(
    source: u64,
    target: u64,
    position: DropPosition,
    target_is_collection: bool,
    target_below_source: bool,
) -> bool {
    &&& source != target
    &&& !target_below_source
    &&& (position == DropPosition::Inside ==> target_is_collection)
}

/// Whether `source_id` may be dropped at `position` relative to `target_id`.
///
/// `is_descendant(a, b)` answers whether `a` lies below `b`; it is asked
/// about the target and the source only when the two differ.
pub fn validate_drop<N, F>(
    source_id: &N::Id,
    target_id: &N::Id,
    position: DropPosition,
    target_node: &N,
    is_descendant: F,
) -> (r: bool) where N: OutlinerNode<Id = u64>, F: Fn(&u64, &u64) -> bool
    requires
        is_descendant.requires((target_id, source_id)),
    ensures
        *source_id == *target_id ==> !r,
        *source_id != *target_id ==> exists|below: bool|
            #[trigger] is_descendant.ensures((target_id, source_id), below) && r == drop_allowed(
                *source_id,
                *target_id,
                position,
                target_node.node_is_collection(),
                below,
            ),
{
    if *source_id == *target_id {
        return false;
    }
    let below = is_descendant(target_id, source_id);
    if below {
        return false;
    }
    if position == DropPosition::Inside && !target_node.is_collection() {
        return false;
    }
    true
}

} // verus!
