use smpp_loadgen::bind_tracker::{BindState, BindTracker, SessionEvent, session_transition};
use smpp_loadgen::metrics::Metrics;

#[test]
fn new_tracker_is_all_pending() {
    let t = BindTracker::new(3);
    let s = t.snapshot();
    assert_eq!(s.len(), 3);
    for status in &s {
        assert!(matches!(status.state, BindState::Pending));
        assert_eq!(status.last_message_id, None);
    }
}

#[test]
fn set_state_replaces_one_slot() {
    let mut t = BindTracker::new(2);
    t.set_state(1, BindState::Connecting);
    let s = t.snapshot();
    assert!(matches!(s[0].state, BindState::Pending));
    assert!(matches!(s[1].state, BindState::Connecting));
}

#[test]
fn out_of_range_writes_are_dropped() {
    let mut t = BindTracker::new(1);
    t.set_state(7, BindState::Bound);
    t.set_last_message_id(7, Some("x".to_string()));
    let s = t.snapshot();
    assert_eq!(s.len(), 1);
    assert!(matches!(s[0].state, BindState::Pending));
    assert_eq!(s[0].last_message_id, None);
}

#[test]
fn snapshot_is_a_deep_copy() {
    let mut t = BindTracker::new(1);
    let before = t.snapshot();
    t.set_state(0, BindState::Error("boom".to_string()));
    t.set_last_message_id(0, Some("id9".to_string()));
    assert!(matches!(before[0].state, BindState::Pending));
    assert_eq!(before[0].last_message_id, None);
    let after = t.snapshot();
    assert!(matches!(&after[0].state, BindState::Error(m) if m == "boom"));
    assert_eq!(after[0].last_message_id.as_deref(), Some("id9"));
}

#[test]
fn status_reads_one_slot() {
    let mut t = BindTracker::new(2);
    t.set_state(1, BindState::Bound);
    t.set_last_message_id(1, Some("m1".to_string()));
    let s = t.status(1).unwrap();
    assert!(matches!(s.state, BindState::Bound));
    assert_eq!(s.last_message_id.as_deref(), Some("m1"));
    assert!(t.status(2).is_none());
}

#[test]
fn state_labels() {
    assert_eq!(BindState::Pending.label(), "pending");
    assert_eq!(BindState::Connecting.label(), "connecting");
    assert_eq!(BindState::Bound.label(), "bound");
    assert_eq!(BindState::Error("x".to_string()).label(), "error");
}

#[test]
fn session_path_follows_the_main_line() {
    let s0 = BindState::Pending;
    let s1 = session_transition(&s0, SessionEvent::Started).unwrap();
    assert!(matches!(s1, BindState::Connecting));
    let s2 = session_transition(&s1, SessionEvent::Established).unwrap();
    assert!(matches!(s2, BindState::Bound));
    assert!(session_transition(&s2, SessionEvent::Started).is_none());
    assert!(session_transition(&s2, SessionEvent::Established).is_none());
}

#[test]
fn failure_is_terminal_from_any_live_state() {
    let failed = session_transition(
        &BindState::Connecting,
        SessionEvent::Failed("no route".to_string()),
    )
    .unwrap();
    assert!(matches!(&failed, BindState::Error(m) if m == "no route"));
    assert!(session_transition(&failed, SessionEvent::Started).is_none());
    assert!(session_transition(&failed, SessionEvent::Established).is_none());
    assert!(
        session_transition(&failed, SessionEvent::Failed("again".to_string())).is_none()
    );
}

#[test]
fn events_out_of_order_do_not_move_the_state() {
    assert!(session_transition(&BindState::Pending, SessionEvent::Established).is_none());
    assert!(session_transition(&BindState::Connecting, SessionEvent::Started).is_none());
}

#[test]
fn zero_bind_run_has_nothing_to_show() {
    let t = BindTracker::new(0);
    assert_eq!(t.snapshot().len(), 0);
    let m = Metrics::new(0);
    let s = m.snapshot();
    assert_eq!(s.attempts, 0);
    assert_eq!(s.ok, 0);
    assert_eq!(s.err, 0);
    assert_eq!(s.per_bind.len(), 0);
}
