use smpp_loadgen::dlr::DlrState;
use smpp_loadgen::metrics::Metrics;

#[test]
fn new_aggregator_is_all_zero() {
    let m = Metrics::new(3);
    let s = m.snapshot();
    assert_eq!(s.attempts, 0);
    assert_eq!(s.ok, 0);
    assert_eq!(s.err, 0);
    assert_eq!(s.latency_micros, 0);
    assert_eq!(s.per_bind.len(), 3);
    for b in &s.per_bind {
        assert_eq!(b.attempts, 0);
        assert_eq!(b.ok, 0);
        assert_eq!(b.err, 0);
        assert_eq!(b.dlr_received, 0);
        assert_eq!(b.dlr_delivered, 0);
    }
}

#[test]
fn record_success_advances_totals_and_slot() {
    let mut m = Metrics::new(2);
    m.record_success(0, 1500);
    m.record_success(0, 500);
    m.record_success(1, 100);
    let s = m.snapshot();
    assert_eq!(s.attempts, 3);
    assert_eq!(s.ok, 3);
    assert_eq!(s.err, 0);
    assert_eq!(s.latency_micros, 2100);
    assert_eq!(s.per_bind[0].attempts, 2);
    assert_eq!(s.per_bind[0].ok, 2);
    assert_eq!(s.per_bind[0].latency_micros, 2000);
    assert_eq!(s.per_bind[1].attempts, 1);
}

#[test]
fn record_error_advances_error_side() {
    let mut m = Metrics::new(1);
    m.record_error(0, 700);
    let s = m.snapshot();
    assert_eq!(s.attempts, 1);
    assert_eq!(s.ok, 0);
    assert_eq!(s.err, 1);
    assert_eq!(s.per_bind[0].err, 1);
    assert_eq!(s.per_bind[0].latency_micros, 700);
}

#[test]
fn attempts_equal_success_plus_error() {
    let mut m = Metrics::new(2);
    for i in 0..10u64 {
        if i % 3 == 0 {
            m.record_error((i % 2) as usize, i);
        } else {
            m.record_success((i % 2) as usize, i);
        }
    }
    let s = m.snapshot();
    assert_eq!(s.attempts, s.ok + s.err);
    for b in &s.per_bind {
        assert_eq!(b.attempts, b.ok + b.err);
    }
}

#[test]
fn out_of_range_bind_touches_totals_only() {
    let mut m = Metrics::new(1);
    m.record_success(5, 100);
    m.record_dlr(5, 100);
    m.record_dlr_state(5, DlrState::Delivered);
    m.record_dlr_status(5, true, false);
    let s = m.snapshot();
    assert_eq!(s.attempts, 1);
    assert_eq!(s.ok, 1);
    assert_eq!(s.per_bind[0].attempts, 0);
    assert_eq!(s.per_bind[0].dlr_received, 0);
    assert_eq!(s.per_bind[0].dlr_delivered, 0);
}

#[test]
fn record_dlr_counts_receipt_and_delay() {
    let mut m = Metrics::new(1);
    m.record_dlr(0, 2000);
    m.record_dlr(0, 3000);
    let s = m.snapshot();
    assert_eq!(s.per_bind[0].dlr_received, 2);
    assert_eq!(s.per_bind[0].dlr_latency_micros, 5000);
    assert_eq!(s.attempts, 0);
}

#[test]
fn record_dlr_status_priority() {
    let mut m = Metrics::new(1);
    m.record_dlr_status(0, true, true);
    m.record_dlr_status(0, false, true);
    m.record_dlr_status(0, false, false);
    let s = m.snapshot();
    assert_eq!(s.per_bind[0].dlr_delivered, 1);
    assert_eq!(s.per_bind[0].dlr_failed, 1);
    assert_eq!(s.per_bind[0].dlr_unknown, 1);
}

#[test]
fn record_dlr_state_maps_each_state() {
    let mut m = Metrics::new(1);
    m.record_dlr_state(0, DlrState::Enroute);
    m.record_dlr_state(0, DlrState::Delivered);
    m.record_dlr_state(0, DlrState::Expired);
    m.record_dlr_state(0, DlrState::Deleted);
    m.record_dlr_state(0, DlrState::Undeliverable);
    m.record_dlr_state(0, DlrState::Accepted);
    m.record_dlr_state(0, DlrState::Rejected);
    m.record_dlr_state(0, DlrState::Unknown);
    m.record_dlr_state(0, DlrState::Scheduled);
    m.record_dlr_state(0, DlrState::Skipped);
    m.record_dlr_state(0, DlrState::Other(42));
    let s = m.snapshot();
    assert_eq!(s.per_bind[0].dlr_enroute, 1);
    assert_eq!(s.per_bind[0].dlr_delivered, 1);
    assert_eq!(s.per_bind[0].dlr_expired, 1);
    assert_eq!(s.per_bind[0].dlr_deleted, 1);
    assert_eq!(s.per_bind[0].dlr_failed, 2);
    assert_eq!(s.per_bind[0].dlr_accepted, 1);
    assert_eq!(s.per_bind[0].dlr_unknown, 4);
}

#[test]
fn latency_sum_saturates_instead_of_wrapping() {
    let mut m = Metrics::new(1);
    m.record_success(0, u64::MAX);
    m.record_success(0, u64::MAX);
    let s = m.snapshot();
    assert_eq!(s.latency_micros, u64::MAX);
    assert_eq!(s.per_bind[0].latency_micros, u64::MAX);
    assert_eq!(s.attempts, 2);
}

#[test]
fn snapshots_are_monotone_over_recording() {
    let mut m = Metrics::new(1);
    m.record_success(0, 10);
    let s1 = m.snapshot();
    m.record_error(0, 20);
    m.record_dlr(0, 30);
    m.record_dlr_state(0, DlrState::Delivered);
    let s2 = m.snapshot();
    assert!(s1.attempts <= s2.attempts);
    assert!(s1.ok <= s2.ok);
    assert!(s1.err <= s2.err);
    assert!(s1.latency_micros <= s2.latency_micros);
    assert!(s1.per_bind[0].attempts <= s2.per_bind[0].attempts);
    assert!(s1.per_bind[0].dlr_received <= s2.per_bind[0].dlr_received);
    assert!(s1.per_bind[0].dlr_delivered <= s2.per_bind[0].dlr_delivered);
}

#[test]
fn zero_bind_aggregator_stays_empty() {
    let mut m = Metrics::new(0);
    m.record_success(0, 10);
    let s = m.snapshot();
    assert_eq!(s.per_bind.len(), 0);
    assert_eq!(s.attempts, 1);
}
