use aj_web::alerts::{AlertKind, AlertQueue, MAX_ALERTS, REPEAT_WINDOW_MS};

#[test]
fn kinds_look() {
    assert_eq!(AlertKind::Info.css_class(), "alert-info");
    assert_eq!(AlertKind::Error.css_class(), "alert-error");
    assert_eq!(AlertKind::Success.icon(), "info");
    assert_eq!(AlertKind::Warning.icon(), "warning");
}

#[test]
fn alerts_get_increasing_ids() {
    let mut q = AlertQueue::new();
    assert_eq!(q.last_id(), 0);
    assert_eq!(q.show(AlertKind::Info, "a".to_string(), 10), Some(1));
    assert_eq!(q.show(AlertKind::Info, "b".to_string(), 20), Some(2));
    assert_eq!(q.alerts().len(), 2);
    assert_eq!(q.alerts()[0].text, "a");
    assert_eq!(q.last_id(), 2);
}

#[test]
fn repeats_within_window_are_dropped() {
    let mut q = AlertQueue::new();
    assert_eq!(q.show(AlertKind::Error, "x".to_string(), 1000), Some(1));
    assert_eq!(q.show(AlertKind::Error, "x".to_string(), 1000 + REPEAT_WINDOW_MS - 1), None);
    assert_eq!(q.show(AlertKind::Warning, "x".to_string(), 1001), Some(2));
    assert_eq!(q.show(AlertKind::Warning, "x".to_string(), 1001 + REPEAT_WINDOW_MS), Some(3));
    assert_eq!(q.alerts().len(), 3);
}

#[test]
fn first_empty_info_alert_at_time_zero_counts_as_repeat() {
    let mut q = AlertQueue::new();
    assert_eq!(q.show(AlertKind::Info, String::new(), 0), None);
    assert_eq!(q.alerts().len(), 0);
}

#[test]
fn at_most_five_alerts() {
    let mut q = AlertQueue::new();
    for i in 0..8u64 {
        q.show(AlertKind::Info, format!("m{i}"), i * 10_000);
    }
    assert_eq!(q.alerts().len(), MAX_ALERTS);
    let ids: Vec<u64> = q.alerts().iter().map(|a| a.id).collect();
    assert_eq!(ids, vec![4, 5, 6, 7, 8]);
}

#[test]
fn dismiss_removes_by_id() {
    let mut q = AlertQueue::new();
    q.show(AlertKind::Info, "a".to_string(), 0);
    q.show(AlertKind::Info, "b".to_string(), 5000);
    q.show(AlertKind::Info, "c".to_string(), 10000);
    q.dismiss(2);
    let texts: Vec<&str> = q.alerts().iter().map(|a| a.text.as_str()).collect();
    assert_eq!(texts, vec!["a", "c"]);
    q.dismiss(42);
    assert_eq!(q.alerts().len(), 2);
    assert_eq!(q.show(AlertKind::Info, "d".to_string(), 20000), Some(4));
}

#[test]
fn drain_takes_all_and_keeps_numbering() {
    let mut q = AlertQueue::new();
    q.show(AlertKind::Info, "a".to_string(), 0);
    q.show(AlertKind::Error, "b".to_string(), 10);
    let taken = q.drain();
    assert_eq!(taken.len(), 2);
    assert_eq!(taken[0].text, "a");
    assert_eq!(taken[1].id, 2);
    assert!(q.alerts().is_empty());
    assert_eq!(q.last_id(), 2);
    assert_eq!(q.show(AlertKind::Error, "b".to_string(), 20), None);
    assert_eq!(q.show(AlertKind::Info, "c".to_string(), 30), Some(3));
}
