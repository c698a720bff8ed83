use smpp_loadgen::dlr::{classify_state, map_stat_to_state, parse_textual_dlr, tokenize, DlrState};

#[test]
fn parses_conventional_receipt_body() {
    let r = parse_textual_dlr("id:X1 sub:001 dlvrd:001 stat:DELIVRD err:000 text:");
    let (id, st) = r.unwrap();
    assert_eq!(id, "X1");
    assert_eq!(st, DlrState::Delivered);
}

#[test]
fn whitespace_padding_does_not_change_the_parse() {
    let a = parse_textual_dlr("  \t id:A stat:ENROUTE \r\n ");
    let b = parse_textual_dlr("id:A stat:ENROUTE");
    assert_eq!(a, b);
    assert_eq!(a.unwrap().0, "A");
}

#[test]
fn unicode_whitespace_separates_tokens() {
    let a = parse_textual_dlr("id:A\u{a0}stat:DELIVRD");
    let b = parse_textual_dlr("id:A stat:DELIVRD");
    assert_eq!(a, b);
    let c = parse_textual_dlr("\u{3000}id:A\u{2028}stat:ENROUTE\u{205f}");
    assert_eq!(c.unwrap(), ("A".to_string(), DlrState::Enroute));
    let d = parse_textual_dlr("id:X\u{85}stat:expired\u{1680}err:000");
    assert_eq!(d.unwrap(), ("X".to_string(), DlrState::Expired));
}

#[test]
fn token_order_does_not_matter() {
    let a = parse_textual_dlr("stat:DELIVRD id:A");
    let b = parse_textual_dlr("id:A stat:DELIVRD");
    assert_eq!(a, b);
}

#[test]
fn token_order_does_not_matter_with_noise() {
    let a = parse_textual_dlr("err:000 stat:DELIVRD sub:001 id:A");
    let b = parse_textual_dlr("id:A err:000 sub:001 stat:DELIVRD");
    assert_eq!(a, b);
    assert_eq!(a.unwrap(), ("A".to_string(), DlrState::Delivered));
}

#[test]
fn first_id_and_first_stat_win() {
    let r = parse_textual_dlr("id:A id:B stat:EXPIRED stat:DELIVRD");
    let (id, st) = r.unwrap();
    assert_eq!(id, "A");
    assert_eq!(st, DlrState::Expired);
}

#[test]
fn missing_id_yields_nothing() {
    assert!(parse_textual_dlr("stat:DELIVRD err:000").is_none());
    assert!(parse_textual_dlr("").is_none());
    assert!(parse_textual_dlr("   ").is_none());
}

#[test]
fn empty_values_are_not_recognised() {
    assert!(parse_textual_dlr("id: stat:DELIVRD").is_none());
    let r = parse_textual_dlr("id:A stat:");
    assert_eq!(r.unwrap().1, DlrState::Unknown);
}

#[test]
fn missing_stat_maps_to_unknown() {
    let r = parse_textual_dlr("id:Z9");
    let (id, st) = r.unwrap();
    assert_eq!(id, "Z9");
    assert_eq!(st, DlrState::Unknown);
}

#[test]
fn parsing_is_idempotent_through_a_canonical_rendering() {
    let first = parse_textual_dlr("id:MSG7 sub:001 stat:undeliv err:042").unwrap();
    let rendered = format!("id:{} stat:UNDELIV", first.0);
    let second = parse_textual_dlr(&rendered).unwrap();
    assert_eq!(first, second);
}

#[test]
fn stat_mapping_matches_the_table() {
    assert_eq!(map_stat_to_state("DELIVRD"), DlrState::Delivered);
    assert_eq!(map_stat_to_state("DELIVERED"), DlrState::Delivered);
    assert_eq!(map_stat_to_state("ENROUTE"), DlrState::Enroute);
    assert_eq!(map_stat_to_state("EXPIRED"), DlrState::Expired);
    assert_eq!(map_stat_to_state("DELETED"), DlrState::Deleted);
    assert_eq!(map_stat_to_state("UNDELIV"), DlrState::Undeliverable);
    assert_eq!(map_stat_to_state("UNDELIVERABLE"), DlrState::Undeliverable);
    assert_eq!(map_stat_to_state("ACCEPTD"), DlrState::Accepted);
    assert_eq!(map_stat_to_state("ACCEPTED"), DlrState::Accepted);
    assert_eq!(map_stat_to_state("REJECTD"), DlrState::Rejected);
    assert_eq!(map_stat_to_state("REJECTED"), DlrState::Rejected);
    assert_eq!(map_stat_to_state("UNKNOWN"), DlrState::Unknown);
    assert_eq!(map_stat_to_state("SOMETHING"), DlrState::Unknown);
    assert_eq!(map_stat_to_state(""), DlrState::Unknown);
}

#[test]
fn stat_mapping_is_case_insensitive() {
    assert_eq!(map_stat_to_state("delivrd"), DlrState::Delivered);
    assert_eq!(map_stat_to_state("Enroute"), DlrState::Enroute);
    assert_eq!(map_stat_to_state("rejectd"), DlrState::Rejected);
}

#[test]
fn tokenize_splits_on_whitespace() {
    let toks = tokenize("  a bb\t c \n");
    assert_eq!(toks, vec!["a".to_string(), "bb".to_string(), "c".to_string()]);
    assert_eq!(tokenize(""), Vec::<String>::new());
}

#[test]
fn classification_flags_per_state() {
    assert_eq!(classify_state(DlrState::Delivered), (true, false));
    assert_eq!(classify_state(DlrState::Undeliverable), (false, true));
    assert_eq!(classify_state(DlrState::Rejected), (false, true));
    assert_eq!(classify_state(DlrState::Expired), (false, true));
    assert_eq!(classify_state(DlrState::Deleted), (false, true));
    assert_eq!(classify_state(DlrState::Enroute), (false, false));
    assert_eq!(classify_state(DlrState::Accepted), (false, false));
    assert_eq!(classify_state(DlrState::Unknown), (false, false));
}
