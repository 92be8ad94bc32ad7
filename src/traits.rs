//! The traits that a host application implements to show its own data in
//! the outliner, and the small enums they exchange.

use vstd::prelude::*;

verus! {

/// The kind of icon shown next to a node's name.
#[derive(Debug, Clone, PartialEq, Eq, Hash)]
pub enum IconType {
    /// A node that may hold children.
    Collection,
    /// A leaf node.
    Entity,
    /// An icon named by the application.
    Custom(String),
}

/// A clickable icon shown at the right end of a node's row.
#[derive(Debug, Clone, PartialEq, Eq, Hash)]
pub enum ActionIcon {
    /// Toggles whether the node is visible.
    Visibility,
    /// Toggles whether the node is locked.
    Lock,
    /// Toggles whether the node is selected.
    Selection,
    /// An action of the application's own, with an optional tooltip.
    Custom {
        /// The icon's identifier or glyph.
        icon: String,
        /// Text shown while the pointer rests on the icon.
        tooltip: Option<String>,
    },
}

/// Where a dragged node goes relative to the node it is dropped on.
#[derive(Debug, Clone, Copy, PartialEq, Eq, Hash, Structural)]
pub enum DropPosition {
    /// As the sibling just before the target.
    Before,
    /// As the sibling just after the target.
    After,
    /// As the last child of the target, which must be a collection.
    Inside,
}

/// A node of the application's tree.
///
/// The spec functions give the abstract shape of a node: its identifier,
/// whether it is a collection, and its children in order; `same_apart_from_children`
/// is the implementation's own relation "equal but for the children".
/// `height` bounds
/// the depth of the subtree below the node: each child's height is strictly
/// smaller than its parent's, which is what makes every walk over the tree
/// terminate. An implementation proved in Verus defines them to match its
/// methods; their default bodies are never revealed.
pub trait OutlinerNode: Sized {
    /// The identifier type of nodes.
    type Id;

    closed spec fn node_id(&self) -> Self::Id {
        vstd::pervasive::arbitrary()
    }

    closed spec fn node_is_collection(&self) -> bool {
        false
    }

    closed spec fn node_children(&self) -> Seq<Self> {
        Seq::empty()
    }

    closed spec fn height(&self) -> nat {
        0
    }

    /// `other` equals this node in everything but its children (its name,
    /// for instance), as the implementation defines it.
    closed spec fn same_apart_from_children(&self, other: &Self) -> bool {
        vstd::pervasive::arbitrary()
    }

    /// The node's identifier, stable across frames and unique in the tree.
    fn id(&self) -> (r: Self::Id)
        ensures
            r == self.node_id(),
    ;

    /// The text shown for the node.
    fn name(&self) -> &str;

    /// Whether the node can hold children.
    fn is_collection(&self) -> (r: bool)
        ensures
            r == self.node_is_collection(),
    ;

    /// The node's children, in display order.
    fn children(&self) -> (r: &[Self])
        ensures
            r@ == self.node_children(),
            forall|i: int| 0 <= i < r@.len() ==> #[trigger] r@[i].height() < self.height(),
    ;

    /// The node's children, for editing the hierarchy in place; the rest
    /// of the node stays as it was.
    fn children_mut(&mut self) -> (r: &mut Vec<Self>)
        ensures
            r@ == old(self).node_children(),
            final(self).node_children() == final(r)@,
            final(self).node_id() == old(self).node_id(),
            old(self).same_apart_from_children(&*final(self)),
    ;

    /// The icon shown before the name; none unless the node says otherwise.
    fn icon(&self) -> (r: Option<IconType>)
        default_ensures
            r is None,
    {
        None
    }

    /// The action icons of the node's row; by default visibility, lock and
    /// selection, in that order.
    fn action_icons(&self) -> (r: Vec<ActionIcon>)
        default_ensures
            r@ == seq![ActionIcon::Visibility, ActionIcon::Lock, ActionIcon::Selection],
    {
        vec![ActionIcon::Visibility, ActionIcon::Lock, ActionIcon::Selection]
    }
}

/// The application's answers to the user's interactions with the tree.
pub trait OutlinerActions<N: OutlinerNode> {
    /// The user finished editing a node's name.
    fn on_rename(&mut self, id: &N::Id, new_name: String);

    /// The user dropped node `id` at `position` relative to `target`.
    fn on_move(&mut self, id: &N::Id, target: &N::Id, position: DropPosition);

    /// A node is to become selected (`selected`) or unselected.
    fn on_select(&mut self, id: &N::Id, selected: bool);

    /// Whether the node is selected.
    fn is_selected(&self, id: &N::Id) -> bool;

    /// Whether the node is visible.
    fn is_visible(&self, id: &N::Id) -> bool;

    /// Whether the node is locked.
    fn is_locked(&self, id: &N::Id) -> bool;

    /// The visibility icon of a node was clicked.
    fn on_visibility_toggle(&mut self, id: &N::Id);

    /// The lock icon of a node was clicked.
    fn on_lock_toggle(&mut self, id: &N::Id);

    /// The selection icon of a node was clicked.
    fn on_selection_toggle(&mut self, id: &N::Id);

    /// A custom action icon, named `icon`, of a node was clicked.
    fn on_custom_action(&mut self, id: &N::Id, icon: &str);
}

} // verus!
