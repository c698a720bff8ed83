use std::str::FromStr;

use rusmpp::pdus::{BindTransceiver, SubmitSm};
use rusmpp::types::{COctetString, OctetString};
use rusmpp::values::{DataCoding, EsmClass, Npi, RegisteredDelivery, ServiceType, Ton};

use smpp_loadgen::config::{
    BindType, Config, LoadConfig, MessageConfig, SmppConfig, u16_to_string, DEFAULT_BINDS,
    DEFAULT_INFLIGHT, DEFAULT_MAX_TPS,
};
use smpp_loadgen::pdu::{build_bind_trx_pdu, build_bind_tx_pdu, build_submit_sm, PduBuildError};

fn smpp(system_id: &str, password: &str, system_type: Option<&str>) -> SmppConfig {
    SmppConfig {
        host: "gateway.example".to_string(),
        port: 2775,
        system_id: system_id.to_string(),
        system_type: system_type.map(|s| s.to_string()),
        password: password.to_string(),
        bind_type: BindType::Trx,
    }
}

fn message() -> MessageConfig {
    MessageConfig {
        source_addr: "12345".to_string(),
        source_ton: 0,
        source_npi: 1,
        destination_addr: "49170000000".to_string(),
        destination_ton: 1,
        destination_npi: 1,
        body: "hello".to_string(),
        service_type: None,
        data_coding: 0,
        request_dlr: true,
    }
}

fn config() -> Config {
    Config {
        smpp: smpp("tester", "secret", None),
        message: message(),
        load: LoadConfig { binds: 1, max_tps_per_bind: 50, inflight_per_bind: 16 },
    }
}

#[test]
fn connection_uri_is_host_and_port() {
    let s = smpp("tester", "secret", None);
    assert_eq!(s.connection_uri(), "smpp://gateway.example:2775");
}

#[test]
fn port_formatting() {
    assert_eq!(u16_to_string(0), "0");
    assert_eq!(u16_to_string(7), "7");
    assert_eq!(u16_to_string(2775), "2775");
    assert_eq!(u16_to_string(65535), "65535");
}

#[test]
fn zero_load_values_normalise_to_defaults() {
    let l = LoadConfig { binds: 0, max_tps_per_bind: 0, inflight_per_bind: 0 };
    assert_eq!(l.max_tps_per_bind(), 100);
    assert_eq!(l.inflight_per_bind(), 64);
    let l = LoadConfig { binds: 2, max_tps_per_bind: 7, inflight_per_bind: 3 };
    assert_eq!(l.max_tps_per_bind(), 7);
    assert_eq!(l.inflight_per_bind(), 3);
}

#[test]
fn default_load_shape() {
    let l = LoadConfig::default();
    assert_eq!(l.binds, DEFAULT_BINDS);
    assert_eq!(l.max_tps_per_bind, DEFAULT_MAX_TPS);
    assert_eq!(l.inflight_per_bind, DEFAULT_INFLIGHT);
}

#[test]
fn valid_config_builds_every_pdu() {
    let c = config();
    assert!(build_bind_trx_pdu(&c).is_ok());
    assert!(build_bind_tx_pdu(&c).is_ok());
    assert!(build_submit_sm(&c.message).is_ok());
}

#[test]
fn bind_pdu_carries_the_configured_credentials() {
    let c = config();
    let pdu = build_bind_trx_pdu(&c).unwrap();
    let expected = BindTransceiver::builder()
        .system_id(COctetString::from_str("tester").unwrap())
        .password(COctetString::from_str("secret").unwrap())
        .system_type(COctetString::from_str("").unwrap())
        .addr_ton(Ton::from(0))
        .addr_npi(Npi::from(1))
        .address_range(COctetString::empty())
        .build();
    assert_eq!(pdu, expected);
}

#[test]
fn submit_template_carries_the_configured_fields() {
    let c = config();
    let pdu = build_submit_sm(&c.message).unwrap();
    let expected = SubmitSm::builder()
        .service_type(ServiceType::new(COctetString::from_str("").unwrap()))
        .source_addr_ton(Ton::from(0))
        .source_addr_npi(Npi::from(1))
        .source_addr(COctetString::from_str("12345").unwrap())
        .dest_addr_ton(Ton::from(1))
        .dest_addr_npi(Npi::from(1))
        .destination_addr(COctetString::from_str("49170000000").unwrap())
        .esm_class(EsmClass::default())
        .data_coding(DataCoding::from(0))
        .registered_delivery(RegisteredDelivery::request_all())
        .short_message(OctetString::from_str("hello").unwrap())
        .build();
    assert_eq!(pdu, expected);
}

#[test]
fn oversized_credentials_are_rejected_in_order() {
    let mut c = config();
    c.smpp.system_id = "sixteen-chars-id".to_string();
    assert_eq!(build_bind_trx_pdu(&c).unwrap_err(), PduBuildError::SystemId);
    c.smpp.system_id = "ok".to_string();
    c.smpp.password = "password9".to_string();
    assert_eq!(build_bind_tx_pdu(&c).unwrap_err(), PduBuildError::Password);
    c.smpp.password = "pw".to_string();
    c.smpp.system_type = Some("far-too-long-type".to_string());
    assert_eq!(build_bind_trx_pdu(&c).unwrap_err(), PduBuildError::SystemType);
}

#[test]
fn nul_and_non_ascii_strings_are_rejected() {
    let mut c = config();
    c.smpp.password = "p\0w".to_string();
    assert_eq!(build_bind_trx_pdu(&c).unwrap_err(), PduBuildError::Password);
    let mut m = message();
    m.source_addr = "49\u{e9}".to_string();
    assert_eq!(build_submit_sm(&m).unwrap_err(), PduBuildError::SourceAddr);
}

#[test]
fn submit_template_field_limits() {
    let mut m = message();
    m.service_type = Some("toolong".to_string());
    assert_eq!(build_submit_sm(&m).unwrap_err(), PduBuildError::ServiceType);
    let mut m = message();
    m.service_type = Some("".to_string());
    assert!(build_submit_sm(&m).is_ok());
    let mut m = message();
    m.destination_addr = "123456789012345678901".to_string();
    assert_eq!(build_submit_sm(&m).unwrap_err(), PduBuildError::DestinationAddr);
    let mut m = message();
    m.body = "x".repeat(256);
    assert_eq!(build_submit_sm(&m).unwrap_err(), PduBuildError::Body);
    let mut m = message();
    m.body = "x".repeat(255);
    assert!(build_submit_sm(&m).is_ok());
}
