use std::str::FromStr;

use rusmpp::pdus::SubmitSmResp;
use rusmpp::types::COctetString;

use smpp_loadgen::pdu::outcome_of;
use smpp_loadgen::session::SubmitOutcome;

#[test]
fn ok_response_becomes_a_success_with_the_server_id() {
    let resp = SubmitSmResp::builder()
        .message_id(COctetString::from_str("abc123").unwrap())
        .build();
    match outcome_of(Ok(resp), 1_234) {
        SubmitOutcome::Success { message_id, latency_micros } => {
            assert_eq!(message_id, "abc123");
            assert_eq!(latency_micros, 1_234);
        },
        SubmitOutcome::Failure { .. } => panic!("expected a success"),
    }
}

#[test]
fn client_error_becomes_a_failure_with_a_description() {
    match outcome_of(Err(rusmppc::error::Error::ConnectionClosed), 55) {
        SubmitOutcome::Failure { error, latency_micros } => {
            assert!(!error.is_empty());
            assert_eq!(latency_micros, 55);
        },
        SubmitOutcome::Success { .. } => panic!("expected a failure"),
    }
}
