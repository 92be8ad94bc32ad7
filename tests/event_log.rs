use egui_arbor::event_log::{format_age, EventLog, EventType, LogEntry};

#[test]
fn test_event_type_as_str() {
    assert_eq!(EventType::Selection.as_str(), "Selection");
    assert_eq!(EventType::Visibility.as_str(), "Visibility");
    assert_eq!(EventType::Lock.as_str(), "Lock");
    assert_eq!(EventType::DragDrop.as_str(), "DragDrop");
    assert_eq!(EventType::Rename.as_str(), "Rename");
    assert_eq!(EventType::Custom("Test".into()).as_str(), "Test");
}

#[test]
fn test_log_entry_creation() {
    let entry = LogEntry::new(
        "Test message".to_string(),
        EventType::Selection,
        Some(42u64),
    );

    assert_eq!(entry.message, "Test message");
    assert_eq!(entry.event_type, EventType::Selection);
    assert_eq!(entry.node_id, Some(42));
}

#[test]
fn test_log_entry_event_type_str() {
    let entry = LogEntry::<u64>::new("Test".into(), EventType::Rename, None);

    assert_eq!(entry.event_type_str(), "Rename");
}

#[test]
fn test_event_log_new() {
    let log = EventLog::<u64>::new(10);
    assert_eq!(log.max_entries(), 10);
    assert_eq!(log.len(), 0);
    assert!(log.is_empty());
}

#[test]
fn test_event_log_log() {
    let mut log = EventLog::new(10);

    log.log("Event 1", EventType::Selection, Some(1u64));
    assert_eq!(log.len(), 1);

    log.log("Event 2", EventType::Rename, Some(2u64));
    assert_eq!(log.len(), 2);
}

#[test]
fn test_event_log_max_capacity() {
    let mut log = EventLog::new(3);

    log.log("Event 1", EventType::Selection, Some(1u64));
    log.log("Event 2", EventType::Selection, Some(2u64));
    log.log("Event 3", EventType::Selection, Some(3u64));
    log.log("Event 4", EventType::Selection, Some(4u64));

    assert_eq!(log.len(), 3);

    let entries: Vec<_> = log.entries().collect();
    assert_eq!(entries[0].message, "Event 4");
    assert_eq!(entries[1].message, "Event 3");
    assert_eq!(entries[2].message, "Event 2");
}

#[test]
fn test_event_log_clear() {
    let mut log = EventLog::<u64>::new(10);

    log.log("Event 1", EventType::Selection, None);
    log.log("Event 2", EventType::Selection, None);
    assert_eq!(log.len(), 2);

    log.clear();
    assert_eq!(log.len(), 0);
    assert!(log.is_empty());
}

#[test]
fn test_event_log_set_max_entries() {
    let mut log = EventLog::new(10);

    for i in 0..10 {
        log.log(format!("Event {}", i), EventType::Selection, Some(i));
    }
    assert_eq!(log.len(), 10);

    log.set_max_entries(5);
    assert_eq!(log.len(), 5);
    assert_eq!(log.max_entries(), 5);

    let entries: Vec<_> = log.entries().collect();
    assert_eq!(entries[0].node_id, Some(9));
    assert_eq!(entries[4].node_id, Some(5));
}

#[test]
fn test_event_log_filter_by_type() {
    let mut log = EventLog::new(10);

    log.log("Select 1", EventType::Selection, Some(1u64));
    log.log("Rename 1", EventType::Rename, Some(2u64));
    log.log("Select 2", EventType::Selection, Some(3u64));
    log.log("Lock 1", EventType::Lock, Some(4u64));
    log.log("Select 3", EventType::Selection, Some(5u64));

    let selections: Vec<_> = log.filter_by_type(&EventType::Selection).collect();
    assert_eq!(selections.len(), 3);

    let renames: Vec<_> = log.filter_by_type(&EventType::Rename).collect();
    assert_eq!(renames.len(), 1);

    let visibility: Vec<_> = log.filter_by_type(&EventType::Visibility).collect();
    assert_eq!(visibility.len(), 0);
}

#[test]
fn test_event_log_default() {
    let log = EventLog::<u64>::default();
    assert_eq!(log.max_entries(), 100);
    assert!(log.is_empty());
}

#[test]
fn test_log_entry_format_elapsed() {
    let entry = LogEntry::<u64>::new("Test".into(), EventType::Selection, None);

    let formatted = entry.format_elapsed();
    assert!(formatted.ends_with("ago"));
}

#[test]
fn format_age_picks_the_largest_whole_unit() {
    assert_eq!(format_age(0), "0s ago");
    assert_eq!(format_age(59), "59s ago");
    assert_eq!(format_age(60), "1m ago");
    assert_eq!(format_age(3599), "59m ago");
    assert_eq!(format_age(3600), "1h ago");
    assert_eq!(format_age(86399), "23h ago");
    assert_eq!(format_age(86400), "1d ago");
    assert_eq!(format_age(10 * 86400 + 5), "10d ago");
    assert_eq!(format_age(u64::MAX), "213503982334601d ago");
}

#[test]
fn filter_keeps_newest_first_and_matches_custom_text() {
    let mut log = EventLog::new(10);
    log.log("a", EventType::Custom("x".to_string()), Some(1u64));
    log.log("b", EventType::Custom("y".to_string()), Some(2u64));
    log.log("c", EventType::Custom("x".to_string()), Some(3u64));
    let xs: Vec<_> = log
        .filter_by_type(&EventType::Custom("x".to_string()))
        .map(|e| e.message.clone())
        .collect();
    assert_eq!(xs, vec!["c".to_string(), "a".to_string()]);
}

#[test]
fn zero_capacity_log_stays_empty() {
    let mut log = EventLog::<u64>::new(0);
    log.log("dropped", EventType::Lock, Some(1));
    assert!(log.is_empty());
    log.set_max_entries(2);
    log.log("kept", EventType::Lock, Some(2));
    assert_eq!(log.len(), 1);
}

#[test]
fn event_types_compare_by_variant_and_text() {
    assert_eq!(EventType::Lock, EventType::Lock);
    assert_ne!(EventType::Lock, EventType::Rename);
    assert_eq!(EventType::Custom("a".into()), EventType::Custom("a".into()));
    assert_ne!(EventType::Custom("a".into()), EventType::Custom("b".into()));
    assert_ne!(EventType::Custom("Lock".into()), EventType::Lock);
}
