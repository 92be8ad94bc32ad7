//! A ready-made `OutlinerActions` that keeps selection, visibility and lock
//! state as sets of node identifiers, and can log every interaction.

use vstd::prelude::*;
use std::collections::HashSet;
use crate::event_log::{EventLog, EventType, LogEntry, pushed_front};
use crate::text::{decimal, push_decimal};
use vstd::string::StringExecFns;
use crate::traits::{DropPosition, OutlinerActions, OutlinerNode};

verus! {

broadcast use vstd::std_specs::hash::group_hash_axioms;

/// Selection, visibility and lock state of the nodes of a tree, and an
/// optional log of interactions.
///
/// Every node starts unselected, hidden and unlocked. The operations are
/// provided for `u64` identifiers, the keys whose hashing the set model
/// covers.
#[derive(Debug)]
pub struct DefaultActions<Id> {
    selected: HashSet<Id>,
    visible: HashSet<Id>,
    locked: HashSet<Id>,
    event_log: Option<EventLog<Id>>,
}

/// `after` is `before` with one entry recorded in front: of a kind that
/// `kind` accepts, about `node`, with text `message`. Without a log there is
/// nothing to record.
pub open spec fn records(
    before: Option<EventLog<u64>>,
    after: Option<EventLog<u64>>,
    message: Seq<char>,
    kind: spec_fn(EventType) -> bool,
    node: u64,
) -> bool {
    match before {
        None => after is None,
        Some(b) => match after {
            None => false,
            Some(a) => {
                &&& a.capacity() == b.capacity()
                &&& pushed_front(b@, a@, b.capacity())
                &&& (b.within_capacity() ==> a.within_capacity())
                &&& a@.len() > 0 ==> {
                    &&& a@[0].message@ == message
                    &&& kind(a@[0].event_type)
                    &&& a@[0].node_id == Some(node)
                }
            },
        },
    }
}

/// The text of a drop position.
pub open spec fn position_name(p: DropPosition) -> Seq<char> {
    match p {
        DropPosition::Before => "Before"@,
        DropPosition::After => "After"@,
        DropPosition::Inside => "Inside"@,
    }
}

fn position_str(p: DropPosition) -> (r: &'static str)
    ensures
        r@ == position_name(p),
{
    match p {
        DropPosition::Before => "Before",
        DropPosition::After => "After",
        DropPosition::Inside => "Inside",
    }
}

/// `prefix`, then the node's number.
fn node_text(prefix: &str, id: u64) -> (r: String)
    ensures
        r@ == prefix@ + decimal(id as nat),
{
    let mut s = String::new();
    s.append(prefix);
    push_decimal(&mut s, id);
    proof {
        assert(s@ =~= prefix@ + decimal(id as nat));
    }
    s
}

impl DefaultActions<u64> {
    /// The selected nodes.
    pub closed spec fn selected_set(&self) -> Set<u64> {
        self.selected@
    }

    /// The visible nodes.
    pub closed spec fn visible_set(&self) -> Set<u64> {
        self.visible@
    }

    /// The locked nodes.
    pub closed spec fn locked_set(&self) -> Set<u64> {
        self.locked@
    }

    /// The interaction log, when logging is on.
    pub closed spec fn log_state(&self) -> Option<EventLog<u64>> {
        self.event_log
    }

    /// Each set of nodes is finite.
    pub closed spec fn wf(&self) -> bool {
        &&& self.selected@.finite()
        &&& self.visible@.finite()
        &&& self.locked@.finite()
    }

    /// Nothing selected, visible or locked, and no log.
    pub fn new() -> (r: Self)
        ensures
            r.selected_set() == Set::<u64>::empty(),
            r.visible_set() == Set::<u64>::empty(),
            r.locked_set() == Set::<u64>::empty(),
            r.log_state() is None,
    {
        DefaultActions {
            selected: HashSet::new(),
            visible: HashSet::new(),
            locked: HashSet::new(),
            event_log: None,
        }
    }

    /// Nothing selected, visible or locked, and an empty log that keeps the
    /// `max_log_entries` most recent interactions.
    pub fn with_logging(max_log_entries: usize) -> (r: Self)
        ensures
            r.selected_set() == Set::<u64>::empty(),
            r.visible_set() == Set::<u64>::empty(),
            r.locked_set() == Set::<u64>::empty(),
            r.log_state() matches Some(l) && l@ == Seq::<LogEntry<u64>>::empty()
                && l.capacity() == max_log_entries && l.within_capacity(),
    {
        DefaultActions {
            selected: HashSet::new(),
            visible: HashSet::new(),
            locked: HashSet::new(),
            event_log: Some(EventLog::new(max_log_entries)),
        }
    }

    /// The interaction log, when logging is on.
    pub fn event_log(&self) -> (r: Option<&EventLog<u64>>)
        ensures
            r == (match self.log_state() {
                Some(l) => Some(&l),
                None => None,
            }),
    {
        self.event_log.as_ref()
    }

    /// The interaction log, for changing it, when logging is on.
    pub fn event_log_mut(&mut self) -> (r: Option<&mut EventLog<u64>>)
        ensures
            match old(self).log_state() {
                None => r is None && final(self).log_state() is None,
                Some(l) => r is Some && *r->0 == l && final(self).log_state() == Some(*final(r->0)),
            },
            final(self).selected_set() == old(self).selected_set(),
            final(self).visible_set() == old(self).visible_set(),
            final(self).locked_set() == old(self).locked_set(),
    {
        self.event_log.as_mut()
    }

    /// How many nodes are selected.
    pub fn selected_count(&self) -> (r: usize)
        ensures
            r == self.selected_set().len(),
    {
        self.selected.len()
    }

    /// How many nodes are visible.
    pub fn visible_count(&self) -> (r: usize)
        ensures
            r == self.visible_set().len(),
    {
        self.visible.len()
    }

    /// How many nodes are locked.
    pub fn locked_count(&self) -> (r: usize)
        ensures
            r == self.locked_set().len(),
    {
        self.locked.len()
    }

    /// The selected nodes.
    pub fn selected(&self) -> (r: &HashSet<u64>)
        ensures
            r@ == self.selected_set(),
    {
        &self.selected
    }

    /// The visible nodes.
    pub fn visible(&self) -> (r: &HashSet<u64>)
        ensures
            r@ == self.visible_set(),
    {
        &self.visible
    }

    /// The locked nodes.
    pub fn locked(&self) -> (r: &HashSet<u64>)
        ensures
            r@ == self.locked_set(),
    {
        &self.locked
    }

    /// Makes exactly the nodes of `ids` visible.
    pub fn set_all_visible(&mut self, ids: HashSet<u64>)
        ensures
            final(self).visible_set() == ids@,
            final(self).selected_set() == old(self).selected_set(),
            final(self).locked_set() == old(self).locked_set(),
            final(self).log_state() == old(self).log_state(),
    {
        self.visible = ids;
    }

    /// Unselects every node.
    pub fn clear_selection(&mut self)
        ensures
            final(self).selected_set() == Set::<u64>::empty(),
            final(self).visible_set() == old(self).visible_set(),
            final(self).locked_set() == old(self).locked_set(),
            final(self).log_state() == old(self).log_state(),
    {
        self.selected.clear();
    }

    /// Records an interaction when logging is on.
    fn log_event(&mut self, message: String, event_type: EventType, node_id: u64)
        ensures
            records(old(self).log_state(), final(self).log_state(), message@, |t: EventType| t == event_type, node_id),
            final(self).selected_set() == old(self).selected_set(),
            final(self).visible_set() == old(self).visible_set(),
            final(self).locked_set() == old(self).locked_set(),
    {
        match &mut self.event_log {
            Some(log) => log.record(LogEntry::new(message, event_type, Some(node_id))),
            None => {},
        }
    }
}

impl Default for DefaultActions<u64> {
    fn default() -> (r: Self)
        ensures
            r.selected_set() == Set::<u64>::empty(),
            r.visible_set() == Set::<u64>::empty(),
            r.locked_set() == Set::<u64>::empty(),
            r.log_state() is None,
    {
        Self::new()
    }
}

impl<N: OutlinerNode<Id = u64>> OutlinerActions<N> for DefaultActions<u64> {
    /// Logs "Renamed node <id> to '<new_name>'".
    fn on_rename(&mut self, id: &u64, new_name: String)
        ensures
            records(
                old(self).log_state(),
                final(self).log_state(),
                "Renamed node "@ + decimal(*id as nat) + " to '"@ + new_name@ + "'"@,
                |t: EventType| t == EventType::Rename,
                *id,
            ),
            final(self).selected_set() == old(self).selected_set(),
            final(self).visible_set() == old(self).visible_set(),
            final(self).locked_set() == old(self).locked_set(),
    {
        let mut message = node_text("Renamed node ", *id);
        message.append(" to '");
        message.append(new_name.as_str());
        message.append("'");
        self.log_event(message, EventType::Rename, *id);
    }

    /// Logs "Move: node <id> -> target <target> (<position>)", with an
    /// arrow for "->".
    fn on_move(&mut self, id: &u64, target: &u64, position: DropPosition)
        ensures
            records(
                old(self).log_state(),
                final(self).log_state(),
                "Move: node "@ + decimal(*id as nat) + " \u{2192} target "@ + decimal(*target as nat)
                    + " ("@ + position_name(position) + ")"@,
                |t: EventType| t == EventType::DragDrop,
                *id,
            ),
            final(self).selected_set() == old(self).selected_set(),
            final(self).visible_set() == old(self).visible_set(),
            final(self).locked_set() == old(self).locked_set(),
    {
        let mut message = node_text("Move: node ", *id);
        message.append(" \u{2192} target ");
        push_decimal(&mut message, *target);
        message.append(" (");
        message.append(position_str(position));
        message.append(")");
        self.log_event(message, EventType::DragDrop, *id);
    }

    /// Adds `id` to the selection or takes it out, and logs
    /// "Selected node <id>" or "Deselected node <id>".
    fn on_select(&mut self, id: &u64, selected: bool)
        ensures
            final(self).selected_set() == (if selected {
                old(self).selected_set().insert(*id)
            } else {
                old(self).selected_set().remove(*id)
            }),
            records(
                old(self).log_state(),
                final(self).log_state(),
                (if selected { "Selected node "@ } else { "Deselected node "@ }) + decimal(*id as nat),
                |t: EventType| t == EventType::Selection,
                *id,
            ),
            final(self).visible_set() == old(self).visible_set(),
            final(self).locked_set() == old(self).locked_set(),
    {
        if selected {
            self.selected.insert(*id);
            self.log_event(node_text("Selected node ", *id), EventType::Selection, *id);
        } else {
            self.selected.remove(id);
            self.log_event(node_text("Deselected node ", *id), EventType::Selection, *id);
        }
    }

    // The three queries below carry no postcondition: Verus cannot yet
    // attach one to a `&self` method of this impl, which is generic over the
    // node type. `selected`, `visible` and `locked` answer the same
    // questions with a contract.
    fn is_selected(&self, id: &u64) -> bool {
        self.selected.contains(id)
    }

    fn is_visible(&self, id: &u64) -> bool {
        self.visible.contains(id)
    }

    fn is_locked(&self, id: &u64) -> bool {
        self.locked.contains(id)
    }

    /// Hides a visible node or shows a hidden one, and logs
    /// "Hidden node <id>" or "Shown node <id>".
    fn on_visibility_toggle(&mut self, id: &u64)
        ensures
            final(self).visible_set() == (if old(self).visible_set().contains(*id) {
                old(self).visible_set().remove(*id)
            } else {
                old(self).visible_set().insert(*id)
            }),
            records(
                old(self).log_state(),
                final(self).log_state(),
                (if old(self).visible_set().contains(*id) {
                    "Hidden node "@
                } else {
                    "Shown node "@
                }) + decimal(*id as nat),
                |t: EventType| t == EventType::Visibility,
                *id,
            ),
            final(self).selected_set() == old(self).selected_set(),
            final(self).locked_set() == old(self).locked_set(),
    {
        if self.visible.contains(id) {
            self.visible.remove(id);
            self.log_event(node_text("Hidden node ", *id), EventType::Visibility, *id);
        } else {
            self.visible.insert(*id);
            self.log_event(node_text("Shown node ", *id), EventType::Visibility, *id);
        }
    }

    /// Unlocks a locked node or locks an unlocked one, and logs
    /// "Unlocked node <id>" or "Locked node <id>".
    fn on_lock_toggle(&mut self, id: &u64)
        ensures
            final(self).locked_set() == (if old(self).locked_set().contains(*id) {
                old(self).locked_set().remove(*id)
            } else {
                old(self).locked_set().insert(*id)
            }),
            records(
                old(self).log_state(),
                final(self).log_state(),
                (if old(self).locked_set().contains(*id) {
                    "Unlocked node "@
                } else {
                    "Locked node "@
                }) + decimal(*id as nat),
                |t: EventType| t == EventType::Lock,
                *id,
            ),
            final(self).selected_set() == old(self).selected_set(),
            final(self).visible_set() == old(self).visible_set(),
    {
        if self.locked.contains(id) {
            self.locked.remove(id);
            self.log_event(node_text("Unlocked node ", *id), EventType::Lock, *id);
        } else {
            self.locked.insert(*id);
            self.log_event(node_text("Locked node ", *id), EventType::Lock, *id);
        }
    }

    /// Selects an unselected node or unselects a selected one, logging as
    /// `on_select` does.
    fn on_selection_toggle(&mut self, id: &u64)
        ensures
            final(self).selected_set() == (if old(self).selected_set().contains(*id) {
                old(self).selected_set().remove(*id)
            } else {
                old(self).selected_set().insert(*id)
            }),
            records(
                old(self).log_state(),
                final(self).log_state(),
                (if old(self).selected_set().contains(*id) {
                    "Deselected node "@
                } else {
                    "Selected node "@
                }) + decimal(*id as nat),
                |t: EventType| t == EventType::Selection,
                *id,
            ),
            final(self).visible_set() == old(self).visible_set(),
            final(self).locked_set() == old(self).locked_set(),
    {
        let is_selected = self.selected.contains(id);
        OutlinerActions::<N>::on_select(self, id, !is_selected);
    }

    /// Logs "Custom action '<icon>' on node <id>" as a custom event named
    /// `icon`.
    fn on_custom_action(&mut self, id: &u64, icon: &str)
        ensures
            records(
                old(self).log_state(),
                final(self).log_state(),
                "Custom action '"@ + icon@ + "' on node "@ + decimal(*id as nat),
                |t: EventType| t matches EventType::Custom(name) && name@ == icon@,
                *id,
            ),
            final(self).selected_set() == old(self).selected_set(),
            final(self).visible_set() == old(self).visible_set(),
            final(self).locked_set() == old(self).locked_set(),
    {
        let mut message = String::new();
        message.append("Custom action '");
        message.append(icon);
        message.append("' on node ");
        push_decimal(&mut message, *id);
        self.log_event(message, EventType::Custom(icon.to_string()), *id);
    }
}

} // verus!
