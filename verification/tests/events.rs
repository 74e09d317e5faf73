use fleet_application::events::{EventKind, EventLog, DEFAULT_EVENT_CAPACITY};

#[test]
fn a_retained_cursor_replays_only_later_events() {
    let mut log = EventLog::new("epoch7", 4);
    let first = log.publish(EventKind::MachineChanged);
    let second = log.publish(EventKind::LeaseChanged);
    let resumption = log.resume(Some(&first.id));
    assert_eq!(resumption.replay, [second]);
    assert!(resumption.gap_id.is_none());
}

#[test]
fn an_expired_or_foreign_cursor_requests_a_full_refetch() {
    let mut log = EventLog::new("epoch7", 2);
    let first = log.publish(EventKind::OperationChanged);
    log.publish(EventKind::LeaseChanged);
    log.publish(EventKind::MachineChanged);
    log.publish(EventKind::OnboardingChanged);
    assert!(log.resume(Some(&first.id)).gap_id.is_some());
    assert!(log.resume(Some("foreign:1")).gap_id.is_some());
    assert!(log.resume(Some("malformed-cursor")).gap_id.is_some());
    let epoch = first.id.split_once(':').unwrap().0;
    assert!(log.resume(Some(&format!("{epoch}:999"))).gap_id.is_some());
}

#[test]
fn event_ids_are_epoch_and_sequence() {
    let mut log = EventLog::new("boot", DEFAULT_EVENT_CAPACITY);
    assert_eq!(log.current_id(), "boot:0");
    let event = log.publish(EventKind::ProxmoxChanged);
    assert_eq!(event.id, "boot:1");
    assert_eq!(event.kind.as_str(), "proxmox.changed");
    assert_eq!(log.current_id(), "boot:1");
}

#[test]
fn a_current_cursor_replays_nothing_and_no_gap() {
    let mut log = EventLog::new("boot", 4);
    let event = log.publish(EventKind::TailnetChanged);
    let resumption = log.resume(Some(&event.id));
    assert!(resumption.replay.is_empty());
    assert!(resumption.gap_id.is_none());
}

#[test]
fn a_gap_names_the_current_cursor() {
    let mut log = EventLog::new("boot", 2);
    log.publish(EventKind::MachineChanged);
    log.publish(EventKind::MachineChanged);
    log.publish(EventKind::MachineChanged);
    let resumption = log.resume(Some("boot:0"));
    assert_eq!(resumption.gap_id.as_deref(), Some("boot:3"));
    assert!(resumption.replay.is_empty());
}

#[test]
fn a_fresh_subscription_replays_nothing() {
    let mut log = EventLog::new("boot", 4);
    log.publish(EventKind::MachineChanged);
    let resumption = log.resume(None);
    assert!(resumption.replay.is_empty());
    assert!(resumption.gap_id.is_none());
}

#[test]
fn the_window_is_at_least_two_events() {
    assert_eq!(EventLog::new("boot", 0).capacity(), 2);
    assert_eq!(EventLog::new("boot", 8).capacity(), 8);
}
