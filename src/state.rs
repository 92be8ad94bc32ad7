//! The per-instance state of an outliner that lives from one frame to the
//! next: which collections are open, which node is being renamed, the drag
//! in progress, and the anchor of range selection.

use vstd::prelude::*;
use std::collections::HashSet;
use crate::drag_drop::DragDropState;

verus! {

broadcast use vstd::std_specs::hash::group_hash_axioms;

/// Expansion, editing, drag and selection-anchor state of one outliner.
///
/// The operations are provided for `u64` identifiers, the keys whose
/// hashing the set model covers.
#[derive(Debug)]
pub struct OutlinerState<Id> {
    expanded: HashSet<Id>,
    editing: Option<Id>,
    editing_text: String,
    drag_drop: DragDropState<Id>,
    last_selected: Option<Id>,
    dragging_nodes: Vec<Id>,
}

impl OutlinerState<u64> {
    /// The expanded collections.
    pub closed spec fn expanded_set(&self) -> Set<u64> {
        self.expanded@
    }

    /// The node whose name is being edited, if any.
    pub closed spec fn editing_id(&self) -> Option<u64> {
        self.editing
    }

    /// The text of the name being edited.
    pub closed spec fn edit_text(&self) -> String {
        self.editing_text
    }

    /// The drag-and-drop state.
    pub closed spec fn drag(&self) -> DragDropState<u64> {
        self.drag_drop
    }

    /// The anchor of shift-click range selection.
    pub closed spec fn anchor(&self) -> Option<u64> {
        self.last_selected
    }

    /// The nodes carried by the drag in progress.
    pub closed spec fn dragged(&self) -> Seq<u64> {
        self.dragging_nodes@
    }

    /// The expanded collections, for saving them.
    pub fn expanded(&self) -> (r: &HashSet<u64>)
        ensures
            r@ == self.expanded_set(),
    {
        &self.expanded
    }

    /// Whether `id` is expanded.
    pub fn is_expanded(&self, id: &u64) -> (r: bool)
        ensures
            r == self.expanded_set().contains(*id),
    {
        self.expanded.contains(id)
    }

    /// Collapses `id` if it is expanded, expands it otherwise.
    pub fn toggle_expanded(&mut self, id: &u64)
        ensures
            final(self).expanded_set() == (if old(self).expanded_set().contains(*id) {
                old(self).expanded_set().remove(*id)
            } else {
                old(self).expanded_set().insert(*id)
            }),
            final(self).editing_id() == old(self).editing_id(),
            final(self).edit_text() == old(self).edit_text(),
            final(self).drag() == old(self).drag(),
            final(self).anchor() == old(self).anchor(),
            final(self).dragged() == old(self).dragged(),
    {
        if self.expanded.contains(id) {
            self.expanded.remove(id);
        } else {
            self.expanded.insert(*id);
        }
    }

    /// Expands `id` when `expanded` holds and collapses it otherwise.
    pub fn set_expanded(&mut self, id: &u64, expanded: bool)
        ensures
            final(self).expanded_set() == (if expanded {
                old(self).expanded_set().insert(*id)
            } else {
                old(self).expanded_set().remove(*id)
            }),
            final(self).editing_id() == old(self).editing_id(),
            final(self).edit_text() == old(self).edit_text(),
            final(self).drag() == old(self).drag(),
            final(self).anchor() == old(self).anchor(),
            final(self).dragged() == old(self).dragged(),
    {
        if expanded {
            self.expanded.insert(*id);
        } else {
            self.expanded.remove(id);
        }
    }

    /// The node being renamed, if any.
    pub fn editing(&self) -> (r: Option<&u64>)
        ensures
            r == (match self.editing_id() {
                Some(id) => Some(&id),
                None => None,
            }),
    {
        self.editing.as_ref()
    }

    /// Whether `id` is the node being renamed.
    pub fn is_editing(&self, id: &u64) -> (r: bool)
        ensures
            r == (self.editing_id() == Some(*id)),
    {
        match self.editing {
            Some(e) => e == *id,
            None => false,
        }
    }

    /// Starts renaming `id` with `initial_text` in the edit field; any
    /// other rename in progress ends.
    pub fn start_editing(&mut self, id: u64, initial_text: String)
        ensures
            final(self).editing_id() == Some(id),
            final(self).edit_text() == initial_text,
            final(self).expanded_set() == old(self).expanded_set(),
            final(self).drag() == old(self).drag(),
            final(self).anchor() == old(self).anchor(),
            final(self).dragged() == old(self).dragged(),
    {
        self.editing = Some(id);
        self.editing_text = initial_text;
    }

    /// Ends renaming and empties the edit field.
    pub fn stop_editing(&mut self)
        ensures
            final(self).editing_id() is None,
            final(self).edit_text()@ == Seq::<char>::empty(),
            final(self).expanded_set() == old(self).expanded_set(),
            final(self).drag() == old(self).drag(),
            final(self).anchor() == old(self).anchor(),
            final(self).dragged() == old(self).dragged(),
    {
        self.editing = None;
        self.editing_text = String::new();
    }

    /// The edit field's text, for the text editor to change.
    pub fn editing_text_mut(&mut self) -> (r: &mut String)
        ensures
            *r == old(self).edit_text(),
            final(self).edit_text() == *final(r),
            final(self).editing_id() == old(self).editing_id(),
            final(self).expanded_set() == old(self).expanded_set(),
            final(self).drag() == old(self).drag(),
            final(self).anchor() == old(self).anchor(),
            final(self).dragged() == old(self).dragged(),
    {
        &mut self.editing_text
    }

    /// The edit field's text.
    pub fn editing_text(&self) -> (r: &str)
        ensures
            r@ == self.edit_text()@,
    {
        self.editing_text.as_str()
    }

    /// The drag-and-drop state.
    pub fn drag_drop(&self) -> (r: &DragDropState<u64>)
        ensures
            *r == self.drag(),
    {
        &self.drag_drop
    }

    /// The drag-and-drop state, for changing it.
    pub fn drag_drop_mut(&mut self) -> (r: &mut DragDropState<u64>)
        ensures
            *r == old(self).drag(),
            final(self).drag() == *final(r),
            final(self).editing_id() == old(self).editing_id(),
            final(self).edit_text() == old(self).edit_text(),
            final(self).expanded_set() == old(self).expanded_set(),
            final(self).anchor() == old(self).anchor(),
            final(self).dragged() == old(self).dragged(),
    {
        &mut self.drag_drop
    }

    /// Sets the anchor of range selection.
    pub fn set_last_selected(&mut self, id: Option<u64>)
        ensures
            final(self).anchor() == id,
            final(self).editing_id() == old(self).editing_id(),
            final(self).edit_text() == old(self).edit_text(),
            final(self).expanded_set() == old(self).expanded_set(),
            final(self).drag() == old(self).drag(),
            final(self).dragged() == old(self).dragged(),
    {
        self.last_selected = id;
    }

    /// The anchor of range selection.
    pub fn last_selected(&self) -> (r: Option<&u64>)
        ensures
            r == (match self.anchor() {
                Some(id) => Some(&id),
                None => None,
            }),
    {
        self.last_selected.as_ref()
    }

    /// Sets the nodes carried by the drag in progress.
    pub fn set_dragging_nodes(&mut self, nodes: Vec<u64>)
        ensures
            final(self).dragged() == nodes@,
            final(self).editing_id() == old(self).editing_id(),
            final(self).edit_text() == old(self).edit_text(),
            final(self).expanded_set() == old(self).expanded_set(),
            final(self).drag() == old(self).drag(),
            final(self).anchor() == old(self).anchor(),
    {
        self.dragging_nodes = nodes;
    }

    /// The nodes carried by the drag in progress.
    pub fn dragging_nodes(&self) -> (r: &[u64])
        ensures
            r@ == self.dragged(),
    {
        self.dragging_nodes.as_slice()
    }

    /// Forgets the nodes carried by a drag.
    pub fn clear_dragging_nodes(&mut self)
        ensures
            final(self).dragged() == Seq::<u64>::empty(),
            final(self).editing_id() == old(self).editing_id(),
            final(self).edit_text() == old(self).edit_text(),
            final(self).expanded_set() == old(self).expanded_set(),
            final(self).drag() == old(self).drag(),
            final(self).anchor() == old(self).anchor(),
    {
        self.dragging_nodes.clear();
    }
}

impl Default for OutlinerState<u64> {
    /// Nothing expanded, edited, dragged or anchored.
    fn default() -> (r: Self)
        ensures
            r.expanded_set() == Set::<u64>::empty(),
            r.editing_id() is None,
            r.edit_text()@ == Seq::<char>::empty(),
            r.drag().is_idle(),
            r.anchor() is None,
            r.dragged() == Seq::<u64>::empty(),
    {
        OutlinerState {
            expanded: HashSet::new(),
            editing: None,
            editing_text: String::new(),
            drag_drop: DragDropState::new(),
            last_selected: None,
            dragging_nodes: Vec::new(),
        }
    }
}

} // verus!
