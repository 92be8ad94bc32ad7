use egui_arbor::event_log::{format_elapsed_secs, EventLog, EventType};
use egui_arbor::interaction::{
    box_select, drop_outcome, finish_edit, hover_over, icon_click, label_click, IconCall,
};
use egui_arbor::{ActionIcon, DragDropState, DropEvent, DropPosition, OutlinerState};

#[test]
fn plain_click_unselects_others_and_selects_the_row() {
    let rows = vec![1, 2, 3, 4];
    let selected = vec![true, false, true, false];
    let out = label_click(&rows, &selected, Some(1), 4, false, false);
    assert_eq!(out.select, vec![(1, false), (3, false), (4, true)]);
    assert_eq!(out.anchor, Some(4));
    assert_eq!(out.reported, Some(4));
}

#[test]
fn ctrl_click_flips_and_anchors_only_when_selecting() {
    let rows = vec![1, 2, 3];
    let out = label_click(&rows, &[false, false, false], Some(1), 2, false, true);
    assert_eq!(out.select, vec![(2, true)]);
    assert_eq!(out.anchor, Some(2));
    assert_eq!(out.reported, Some(2));

    let out = label_click(&rows, &[false, true, false], Some(1), 2, false, true);
    assert_eq!(out.select, vec![(2, false)]);
    assert_eq!(out.anchor, Some(1));
    assert_eq!(out.reported, Some(2));
}

#[test]
fn shift_click_selects_the_range_and_keeps_the_anchor() {
    let rows = vec![1, 2, 3, 4, 5];
    let out = label_click(&rows, &[false; 5], Some(4), 2, true, false);
    assert_eq!(out.select, vec![(2, true), (3, true), (4, true)]);
    assert_eq!(out.anchor, Some(4));
    assert_eq!(out.reported, None);
}

#[test]
fn shift_click_without_anchor_is_a_plain_click() {
    let rows = vec![1, 2];
    let out = label_click(&rows, &[true, false], None, 2, true, false);
    assert_eq!(out.select, vec![(1, false), (2, true)]);
    assert_eq!(out.anchor, Some(2));
}

#[test]
fn box_selection_replaces_or_extends() {
    let rows = vec![1, 2, 3];
    let selected = vec![true, false, false];
    assert_eq!(box_select(&rows, &selected, &[2, 3], false), vec![(1, false), (2, true), (3, true)]);
    assert_eq!(box_select(&rows, &selected, &[2, 3], true), vec![(2, true), (3, true)]);
}

#[test]
fn icon_clicks_cascade_over_descendants() {
    assert_eq!(
        icon_click(&ActionIcon::Visibility, 1, true, &[2, 3], false),
        vec![(1, IconCall::ToggleVisibility), (2, IconCall::ToggleVisibility), (3, IconCall::ToggleVisibility)]
    );
    assert_eq!(
        icon_click(&ActionIcon::Lock, 1, false, &[2, 3], false),
        vec![(1, IconCall::ToggleLock)]
    );
    assert_eq!(
        icon_click(&ActionIcon::Selection, 1, true, &[2], true),
        vec![(1, IconCall::Select(false)), (2, IconCall::Select(false))]
    );
    let custom = ActionIcon::Custom { icon: "x".to_string(), tooltip: None };
    assert_eq!(icon_click(&custom, 1, true, &[2], false), vec![(1, IconCall::Custom)]);
}

#[test]
fn drop_outcome_reports_or_cancels() {
    let out = drop_outcome(Some((1, 2, DropPosition::Inside)), &[1, 5]);
    assert_eq!(out.event, Some(DropEvent::new(1, 2, DropPosition::Inside)));
    assert_eq!(out.dragged, Some(vec![1, 5]));
    assert!(!out.cancel);

    let out = drop_outcome(None, &[1]);
    assert_eq!(out.event, None);
    assert_eq!(out.dragged, None);
    assert!(out.cancel);
}

#[test]
fn hover_is_kept_only_for_valid_drops() {
    let mut drag = DragDropState::<u64>::new();
    drag.start_drag(1);
    hover_over(&mut drag, 2, DropPosition::After, true);
    assert!(drag.is_hover_target(&2));
    hover_over(&mut drag, 3, DropPosition::Before, false);
    assert!(!drag.is_hover_target(&3));
    assert_eq!(drag.current_drop_position(), None);
    assert!(drag.is_dragging_node(&1));
}

#[test]
fn enter_finishes_and_escape_abandons_a_rename() {
    let mut state = OutlinerState::<u64>::default();
    state.start_editing(7, "Lamp".to_string());
    let out = finish_edit(&mut state, 7, false, false);
    assert!(out.renamed.is_none() && !out.changed);
    assert!(state.is_editing(&7));

    let out = finish_edit(&mut state, 7, true, false);
    assert_eq!(out.renamed, Some((7, "Lamp".to_string())));
    assert!(out.changed);
    assert!(!state.is_editing(&7));
    assert_eq!(state.editing_text(), "");

    state.start_editing(8, "Desk".to_string());
    let out = finish_edit(&mut state, 8, false, true);
    assert!(out.renamed.is_none() && out.changed);
    assert!(!state.is_editing(&8));
}

#[test]
fn log_text_keeps_the_message() {
    let mut log = EventLog::<u64>::new(2);
    log.log_text("Event 1".to_string(), EventType::Lock, Some(1));
    log.log_text("Event 2".to_string(), EventType::Lock, Some(2));
    log.log_text("Event 3".to_string(), EventType::Lock, Some(3));
    let messages: Vec<_> = log.entries().map(|e| e.message.clone()).collect();
    assert_eq!(messages, vec!["Event 3".to_string(), "Event 2".to_string()]);
}

#[test]
fn elapsed_text_ties_unknown_to_a_clock_error() {
    assert_eq!(format_elapsed_secs(None), "unknown");
    assert_eq!(format_elapsed_secs(Some(125)), "2m ago");
}

#[test]
fn expanded_set_can_be_read_back() {
    let mut state = OutlinerState::<u64>::default();
    state.set_expanded(&3, true);
    state.set_expanded(&5, true);
    let mut ids: Vec<u64> = state.expanded().iter().copied().collect();
    ids.sort();
    assert_eq!(ids, vec![3, 5]);
}
