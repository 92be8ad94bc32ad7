use egui_arbor::tree::{
    collect_descendant_ids, collect_visible_node_ids, contains_descendant, find_node_by_id,
    is_descendant_of,
};
use egui_arbor::{ActionIcon, DropPosition, IconType, OutlinerNode, OutlinerState, TreeNode};

#[derive(Debug, Clone, PartialEq)]
struct TestNode {
    id: u64,
    name: String,
    is_collection: bool,
    children: Vec<TestNode>,
}

impl OutlinerNode for TestNode {
    type Id = u64;

    fn id(&self) -> Self::Id {
        self.id
    }

    fn name(&self) -> &str {
        &self.name
    }

    fn is_collection(&self) -> bool {
        self.is_collection
    }

    fn children(&self) -> &[Self] {
        &self.children
    }

    fn children_mut(&mut self) -> &mut Vec<Self> {
        &mut self.children
    }

    fn icon(&self) -> Option<IconType> {
        if self.is_collection {
            Some(IconType::Collection)
        } else {
            Some(IconType::Entity)
        }
    }

    fn action_icons(&self) -> Vec<ActionIcon> {
        vec![ActionIcon::Visibility, ActionIcon::Lock, ActionIcon::Selection]
    }
}

impl TestNode {
    fn new(id: u64, name: &str, is_collection: bool) -> Self {
        Self {
            id,
            name: name.to_string(),
            is_collection,
            children: Vec::new(),
        }
    }

    fn with_children(mut self, children: Vec<TestNode>) -> Self {
        self.children = children;
        self
    }
}

#[test]
fn test_collect_visible_node_ids_flat() {
    let nodes = vec![
        TestNode::new(1, "Node1", false),
        TestNode::new(2, "Node2", false),
        TestNode::new(3, "Node3", false),
    ];

    let state = OutlinerState::<u64>::default();
    let mut result = Vec::new();

    collect_visible_node_ids(&nodes, &state, &mut result);

    assert_eq!(result, vec![1, 2, 3]);
}

#[test]
fn test_collect_visible_node_ids_with_collapsed_children() {
    let nodes = vec![TestNode::new(1, "Node1", true).with_children(vec![
        TestNode::new(2, "Child1", false),
        TestNode::new(3, "Child2", false),
    ])];

    let state = OutlinerState::<u64>::default();
    let mut result = Vec::new();

    collect_visible_node_ids(&nodes, &state, &mut result);

    assert_eq!(result, vec![1]);
}

#[test]
fn test_collect_visible_node_ids_with_expanded_children() {
    let nodes = vec![TestNode::new(1, "Node1", true).with_children(vec![
        TestNode::new(2, "Child1", false),
        TestNode::new(3, "Child2", false),
    ])];

    let mut state = OutlinerState::<u64>::default();
    state.set_expanded(&1, true);
    let mut result = Vec::new();

    collect_visible_node_ids(&nodes, &state, &mut result);

    assert_eq!(result, vec![1, 2, 3]);
}

#[test]
fn test_collect_visible_node_ids_nested() {
    let nodes = vec![TestNode::new(1, "Node1", true).with_children(vec![
        TestNode::new(2, "Child1", true).with_children(vec![TestNode::new(3, "GrandChild1", false)]),
    ])];

    let mut state = OutlinerState::<u64>::default();
    state.set_expanded(&1, true);
    state.set_expanded(&2, true);
    let mut result = Vec::new();

    collect_visible_node_ids(&nodes, &state, &mut result);

    assert_eq!(result, vec![1, 2, 3]);
}

#[test]
fn test_find_node_by_id_root_level() {
    let nodes = vec![
        TestNode::new(1, "Node1", false),
        TestNode::new(2, "Node2", false),
    ];

    let found = find_node_by_id(&nodes, &1);
    assert!(found.is_some());
    assert_eq!(found.unwrap().id(), 1);

    let found = find_node_by_id(&nodes, &2);
    assert!(found.is_some());
    assert_eq!(found.unwrap().id(), 2);
}

#[test]
fn test_find_node_by_id_nested() {
    let nodes = vec![TestNode::new(1, "Node1", true).with_children(vec![
        TestNode::new(2, "Child1", false),
        TestNode::new(3, "Child2", true).with_children(vec![TestNode::new(4, "GrandChild1", false)]),
    ])];

    let found = find_node_by_id(&nodes, &4);
    assert!(found.is_some());
    assert_eq!(found.unwrap().id(), 4);
}

#[test]
fn test_find_node_by_id_not_found() {
    let nodes = vec![TestNode::new(1, "Node1", false)];

    let found = find_node_by_id(&nodes, &999);
    assert!(found.is_none());
}

#[test]
fn test_contains_descendant_direct_child() {
    let node = TestNode::new(1, "Parent", true).with_children(vec![TestNode::new(2, "Child", false)]);

    assert!(contains_descendant(&node, &2));
    assert!(!contains_descendant(&node, &999));
}

#[test]
fn test_contains_descendant_nested() {
    let node = TestNode::new(1, "Parent", true).with_children(vec![
        TestNode::new(2, "Child", true).with_children(vec![TestNode::new(3, "GrandChild", false)]),
    ]);

    assert!(contains_descendant(&node, &2));
    assert!(contains_descendant(&node, &3));
    assert!(!contains_descendant(&node, &1));
}

#[test]
fn test_is_descendant_of_impl() {
    let nodes = vec![TestNode::new(1, "Parent", true).with_children(vec![
        TestNode::new(2, "Child", true).with_children(vec![TestNode::new(3, "GrandChild", false)]),
    ])];

    assert!(is_descendant_of(&nodes, &2, &1));
    assert!(is_descendant_of(&nodes, &3, &1));
    assert!(is_descendant_of(&nodes, &3, &2));
    assert!(!is_descendant_of(&nodes, &1, &2));
}

#[test]
fn test_collect_descendant_ids() {
    let node = TestNode::new(1, "Parent", true).with_children(vec![
        TestNode::new(2, "Child1", false),
        TestNode::new(3, "Child2", true).with_children(vec![TestNode::new(4, "GrandChild", false)]),
    ]);

    let ids = collect_descendant_ids(&node);
    assert_eq!(ids.len(), 3);
    assert!(ids.contains(&2));
    assert!(ids.contains(&3));
    assert!(ids.contains(&4));
}

#[test]
fn test_collect_descendant_ids_empty() {
    let node = TestNode::new(1, "Leaf", false);
    let ids = collect_descendant_ids(&node);
    assert!(ids.is_empty());
}

#[test]
fn visible_rows_skip_expanded_leaves_and_keep_order() {
    let nodes = vec![
        TestNode::new(1, "A", true).with_children(vec![
            TestNode::new(2, "B", false).with_children(vec![TestNode::new(9, "hidden", false)]),
            TestNode::new(3, "C", true).with_children(vec![TestNode::new(4, "D", false)]),
        ]),
        TestNode::new(5, "E", false),
    ];
    let mut state = OutlinerState::<u64>::default();
    state.set_expanded(&1, true);
    state.set_expanded(&2, true);
    let mut result = vec![100];
    collect_visible_node_ids(&nodes, &state, &mut result);
    assert_eq!(result, vec![100, 1, 2, 3, 5]);
}

#[test]
fn descendant_ids_come_in_display_order() {
    let node = TestNode::new(1, "P", true).with_children(vec![
        TestNode::new(2, "A", true).with_children(vec![TestNode::new(3, "B", false)]),
        TestNode::new(4, "C", false),
    ]);
    assert_eq!(collect_descendant_ids(&node), vec![2, 3, 4]);
}

#[test]
fn is_descendant_of_unknown_source_is_false() {
    let nodes = vec![TestNode::new(1, "P", true).with_children(vec![TestNode::new(2, "C", false)])];
    assert!(!is_descendant_of(&nodes, &2, &42));
    assert!(!is_descendant_of(&nodes, &1, &1));
}

#[test]
fn test_drag_drop_state_access() {
    let mut state = OutlinerState::<u64>::default();

    assert!(!state.drag_drop().is_dragging());

    state.drag_drop_mut().start_drag(42);
    assert!(state.drag_drop().is_dragging());
    assert_eq!(state.drag_drop().dragging_id(), Some(&42));
}

#[test]
fn test_last_selected() {
    let mut state = OutlinerState::<u64>::default();

    assert_eq!(state.last_selected(), None);

    state.set_last_selected(Some(1));
    assert_eq!(state.last_selected(), Some(&1));

    state.set_last_selected(Some(2));
    assert_eq!(state.last_selected(), Some(&2));

    state.set_last_selected(None);
    assert_eq!(state.last_selected(), None);
}

#[test]
fn test_dragging_nodes() {
    let mut state = OutlinerState::<u64>::default();

    assert!(state.dragging_nodes().is_empty());

    let nodes = vec![1, 2, 3];
    state.set_dragging_nodes(nodes.clone());
    assert_eq!(state.dragging_nodes(), &[1, 2, 3]);

    state.clear_dragging_nodes();
    assert!(state.dragging_nodes().is_empty());
}

#[test]
fn test_dragging_nodes_update() {
    let mut state = OutlinerState::<u64>::default();

    state.set_dragging_nodes(vec![1, 2]);
    assert_eq!(state.dragging_nodes().len(), 2);

    state.set_dragging_nodes(vec![3, 4, 5]);
    assert_eq!(state.dragging_nodes().len(), 3);
    assert_eq!(state.dragging_nodes(), &[3, 4, 5]);
}

#[test]
fn test_combined_state_operations() {
    let mut state = OutlinerState::<u64>::default();

    state.set_expanded(&1, true);
    state.set_expanded(&2, true);

    state.start_editing(3, "Node 3".to_string());

    state.set_last_selected(Some(4));

    state.drag_drop_mut().start_drag(5);

    assert!(state.is_expanded(&1));
    assert!(state.is_expanded(&2));
    assert!(state.is_editing(&3));
    assert_eq!(state.last_selected(), Some(&4));
    assert!(state.drag_drop().is_dragging_node(&5));
}

#[test]
fn test_expansion_persistence() {
    let mut state = OutlinerState::<u64>::default();

    for i in 1..=10 {
        state.set_expanded(&i, true);
    }

    for i in 1..=10 {
        assert!(state.is_expanded(&i));
    }

    state.set_expanded(&3, false);
    state.set_expanded(&7, false);

    assert!(state.is_expanded(&1));
    assert!(state.is_expanded(&2));
    assert!(!state.is_expanded(&3));
    assert!(state.is_expanded(&4));
    assert!(!state.is_expanded(&7));
    assert!(state.is_expanded(&10));
}

#[test]
fn test_drag_drop_integration() {
    let mut state = OutlinerState::<u64>::default();

    state.drag_drop_mut().start_drag(1);
    state.set_dragging_nodes(vec![1, 2, 3]);

    state.drag_drop_mut().update_hover(4, DropPosition::Inside);

    assert!(state.drag_drop().is_dragging());
    assert_eq!(state.dragging_nodes(), &[1, 2, 3]);
    assert!(state.drag_drop().is_hover_target(&4));

    let result = state.drag_drop_mut().end_drag();
    assert!(result.is_some());

    state.clear_dragging_nodes();
    assert!(state.dragging_nodes().is_empty());
}

#[test]
fn test_state_isolation() {
    let mut state1 = OutlinerState::<u64>::default();
    let mut state2 = OutlinerState::<u64>::default();

    state1.set_expanded(&1, true);
    state2.set_expanded(&2, true);

    assert!(state1.is_expanded(&1));
    assert!(!state1.is_expanded(&2));
    assert!(!state2.is_expanded(&1));
    assert!(state2.is_expanded(&2));
}

#[test]
fn editing_with_numeric_ids() {
    let mut state = OutlinerState::<u64>::default();
    assert!(!state.is_editing(&1));
    state.start_editing(1, "Node 1".to_string());
    assert!(state.is_editing(&1));
    assert_eq!(state.editing_text(), "Node 1");
    state.editing_text_mut().push_str(" (copy)");
    assert_eq!(state.editing_text(), "Node 1 (copy)");
    state.start_editing(2, "Node 2".to_string());
    assert!(!state.is_editing(&1));
    assert!(state.is_editing(&2));
    state.stop_editing();
    assert!(!state.is_editing(&2));
    assert_eq!(state.editing_text(), "");
}

#[test]
fn toggle_expansion_with_numeric_ids() {
    let mut state = OutlinerState::<u64>::default();
    state.toggle_expanded(&7);
    assert!(state.is_expanded(&7));
    state.toggle_expanded(&7);
    assert!(!state.is_expanded(&7));
}

#[test]
fn ready_made_tree_nodes_walk_like_any_other() {
    let leaf = |id: u64| TreeNode { id, name: format!("n{}", id), is_collection: false, children: vec![] };
    let nodes = vec![TreeNode {
        id: 1,
        name: "root".to_string(),
        is_collection: true,
        children: vec![leaf(2), leaf(3)],
    }];
    let mut state = OutlinerState::<u64>::default();
    state.set_expanded(&1, true);
    let mut rows = Vec::new();
    collect_visible_node_ids(&nodes, &state, &mut rows);
    assert_eq!(rows, vec![1, 2, 3]);
    assert_eq!(find_node_by_id(&nodes, &3).unwrap().name(), "n3");
    assert!(is_descendant_of(&nodes, &2, &1));
    assert_eq!(collect_descendant_ids(&nodes[0]), vec![2, 3]);
}

#[test]
fn editing_node_can_be_read_back() {
    let mut state = OutlinerState::<u64>::default();
    assert_eq!(state.editing(), None);
    state.start_editing(4, "x".to_string());
    assert_eq!(state.editing(), Some(&4));
}
