use egui_arbor::selection::{nodes_to_drag, position, range_selection};

#[test]
fn range_runs_from_anchor_to_clicked_in_either_direction() {
    let rows = vec![10, 20, 30, 40, 50];
    assert_eq!(range_selection(&rows, &20, &40), vec![20, 30, 40]);
    assert_eq!(range_selection(&rows, &40, &20), vec![20, 30, 40]);
    assert_eq!(range_selection(&rows, &30, &30), vec![30]);
}

#[test]
fn range_is_empty_when_an_end_is_not_shown() {
    let rows = vec![10, 20, 30];
    assert!(range_selection(&rows, &99, &20).is_empty());
    assert!(range_selection(&rows, &10, &99).is_empty());
    assert!(range_selection(&[], &1, &1).is_empty());
}

#[test]
fn position_finds_the_first_occurrence() {
    assert_eq!(position(&[5, 6, 5], &5), 0);
    assert_eq!(position(&[5, 6, 5], &6), 1);
    assert_eq!(position(&[5, 6, 5], &7), 3);
}

#[test]
fn a_drag_carries_the_selection_only_when_grabbed_is_selected() {
    assert_eq!(nodes_to_drag(3, true, &[1, 3, 4]), vec![1, 3, 4]);
    assert_eq!(nodes_to_drag(3, false, &[1, 4]), vec![3]);
}
