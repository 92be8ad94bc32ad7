//! Interaction state for a hierarchical outliner tree widget: node and
//! action traits, drag-and-drop bookkeeping, selection and visibility
//! tracking, an event log, and tree traversals and edits, each with a
//! machine-checked contract.

pub mod default_actions;
pub mod drag_drop;
pub mod event_log;
pub mod interaction;
pub mod node;
pub mod response;
pub mod selection;
pub mod state;
pub mod style;
pub mod text;
pub mod traits;
pub mod tree;
pub mod tree_ops;

pub use drag_drop::DragDropState;
pub use node::TreeNode;
pub use response::DropEvent;
pub use state::OutlinerState;
pub use style::ExpandIconStyle;
pub use traits::{ActionIcon, DropPosition, IconType, OutlinerActions, OutlinerNode};
pub use tree_ops::TreeOperations;
