use std::str::FromStr;

use rusmpp::pdus::DeliverSm;
use rusmpp::tlvs::MessageDeliveryRequestTlvValue;
use rusmpp::types::{COctetString, OctetString};
use rusmpp::values::MessageState;

use smpp_loadgen::bind_tracker::BindTracker;
use smpp_loadgen::dlr::DlrState;
use smpp_loadgen::metrics::Metrics;
use smpp_loadgen::pdu::process_deliver_sm;
use smpp_loadgen::session::{DeliverView, SessionCore, SubmitOutcome};
use smpp_loadgen::throttle::SubmitWindow;

fn success(id: &str, latency: u64) -> SubmitOutcome {
    SubmitOutcome::Success { message_id: id.to_string(), latency_micros: latency }
}

#[test]
fn success_outcome_counts_and_correlates() {
    let mut m = Metrics::new(1);
    let mut t = BindTracker::new(1);
    let mut core = SessionCore::new(0);
    core.handle_outcome(&mut m, &mut t, success("abc", 1500), 10_000);
    let s = m.snapshot();
    assert_eq!(s.ok, 1);
    assert_eq!(s.per_bind[0].ok, 1);
    assert_eq!(s.per_bind[0].latency_micros, 1500);
    assert!(core.contains_id("abc"));
    let statuses = t.snapshot();
    assert_eq!(statuses[0].last_message_id.as_deref(), Some("abc"));
}

#[test]
fn failure_outcome_counts_error_only() {
    let mut m = Metrics::new(1);
    let mut t = BindTracker::new(1);
    let mut core = SessionCore::new(0);
    core.handle_outcome(
        &mut m,
        &mut t,
        SubmitOutcome::Failure { error: "timed out".to_string(), latency_micros: 900 },
        5_000,
    );
    let s = m.snapshot();
    assert_eq!(s.err, 1);
    assert_eq!(s.ok, 0);
    assert!(!core.contains_id("timed out"));
    assert_eq!(t.snapshot()[0].last_message_id, None);
}

#[test]
fn empty_message_id_is_not_remembered() {
    let mut m = Metrics::new(1);
    let mut t = BindTracker::new(1);
    let mut core = SessionCore::new(0);
    core.handle_outcome(&mut m, &mut t, success("", 100), 1_000);
    assert!(!core.contains_id(""));
    assert_eq!(m.snapshot().ok, 1);
}

#[test]
fn receipt_via_tlvs_is_matched_and_classified() {
    let mut m = Metrics::new(1);
    let mut t = BindTracker::new(1);
    let mut core = SessionCore::new(0);
    core.handle_outcome(&mut m, &mut t, success("abc", 1000), 10_000);

    let d = DeliverSm::builder()
        .tlvs(vec![
            MessageDeliveryRequestTlvValue::ReceiptedMessageId(
                COctetString::from_str("abc").unwrap(),
            ),
            MessageDeliveryRequestTlvValue::MessageState(MessageState::Delivered),
        ])
        .build();
    process_deliver_sm(&mut core, &mut m, &d, 12_000);

    let s = m.snapshot();
    assert_eq!(s.per_bind[0].dlr_received, 1);
    assert_eq!(s.per_bind[0].dlr_latency_micros, 2_000);
    // One fine-grained state mark plus one coarse status mark.
    assert_eq!(s.per_bind[0].dlr_delivered, 2);
    assert!(!core.contains_id("abc"));
}

#[test]
fn receipt_via_textual_body_is_matched_and_classified() {
    let mut m = Metrics::new(1);
    let mut t = BindTracker::new(1);
    let mut core = SessionCore::new(0);
    core.handle_outcome(&mut m, &mut t, success("X1", 1000), 10_000);

    let d = DeliverSm::builder()
        .short_message(
            OctetString::from_str("id:X1 sub:001 dlvrd:001 stat:DELIVRD err:000 text:").unwrap(),
        )
        .build();
    process_deliver_sm(&mut core, &mut m, &d, 13_000);

    let s = m.snapshot();
    assert_eq!(s.per_bind[0].dlr_received, 1);
    assert_eq!(s.per_bind[0].dlr_latency_micros, 3_000);
    assert_eq!(s.per_bind[0].dlr_delivered, 2);
    assert!(!core.contains_id("X1"));
}

#[test]
fn uncorrelated_receipt_classifies_without_counting_receipt() {
    let mut m = Metrics::new(1);
    let mut core = SessionCore::new(0);
    let d = DeliverSm::builder()
        .tlvs(vec![MessageDeliveryRequestTlvValue::MessageState(MessageState::Enroute)])
        .build();
    process_deliver_sm(&mut core, &mut m, &d, 1_000);
    let s = m.snapshot();
    assert_eq!(s.per_bind[0].dlr_received, 0);
    assert_eq!(s.per_bind[0].dlr_enroute, 1);
    assert_eq!(s.per_bind[0].dlr_unknown, 1);
}

#[test]
fn tlv_receipt_skips_the_textual_fallback() {
    let mut m = Metrics::new(1);
    let mut core = SessionCore::new(0);
    let v = DeliverView {
        receipted_id: Some("abc".to_string()),
        tlv_state: Some(DlrState::Delivered),
        text: Some("id:abc stat:EXPIRED".to_string()),
    };
    core.process_deliver(&mut m, &v, 2_000);
    let s = m.snapshot();
    assert_eq!(s.per_bind[0].dlr_expired, 0);
    assert_eq!(s.per_bind[0].dlr_delivered, 2);
}

#[test]
fn unthrottled_run_counts_every_completion_and_stays_bounded() {
    let mut m = Metrics::new(1);
    let mut t = BindTracker::new(1);
    let mut core = SessionCore::new(0);
    let mut w = SubmitWindow::new(0, 4);

    let mut issued: u64 = 0;
    let fill = w.initial_fill();
    assert_eq!(fill, 4);
    issued += fill as u64;

    // Every submission succeeds; after each completion one replacement is
    // issued until the run is cancelled.
    let mut next_id: u64 = 0;
    while issued < 204 {
        w.on_completion();
        next_id += 1;
        core.handle_outcome(&mut m, &mut t, success(&format!("m{next_id}"), 1_000), next_id);
        assert!(w.inflight <= 4);
        if w.refill_one(false) {
            issued += 1;
        }
    }
    // Cancelled: drain the remaining four without replacements.
    for _ in 0..4 {
        w.on_completion();
        next_id += 1;
        core.handle_outcome(&mut m, &mut t, success(&format!("m{next_id}"), 1_000), next_id);
        assert!(!w.refill_one(true));
    }
    assert_eq!(w.inflight, 0);

    let s = m.snapshot();
    assert!(s.attempts >= 200);
    assert_eq!(s.err, 0);
    assert_eq!(s.ok, s.attempts);
    let statuses = t.snapshot();
    assert!(statuses[0].last_message_id.is_some());
}

#[test]
fn receipts_never_overtake_successes() {
    let mut m = Metrics::new(1);
    let mut t = BindTracker::new(1);
    let mut core = SessionCore::new(0);
    core.handle_outcome(&mut m, &mut t, success("a", 10), 100);
    core.handle_outcome(&mut m, &mut t, success("b", 10), 200);
    // Two receipts for "a": only the first is counted as received.
    for _ in 0..2 {
        let v = DeliverView {
            receipted_id: Some("a".to_string()),
            tlv_state: None,
            text: None,
        };
        core.process_deliver(&mut m, &v, 300);
    }
    // A receipt for an id never submitted.
    let v = DeliverView {
        receipted_id: Some("ghost".to_string()),
        tlv_state: None,
        text: None,
    };
    core.process_deliver(&mut m, &v, 400);
    let s = m.snapshot();
    assert_eq!(s.per_bind[0].dlr_received, 1);
    assert!(s.per_bind[0].dlr_received <= s.per_bind[0].ok);
}
