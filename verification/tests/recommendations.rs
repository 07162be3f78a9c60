use anseo_api::recommendations::{
    decode_cursor, encode_cursor, page_cut, page_limit, parse_state, recommendation_id, stored_state, target_state,
    webhook_event_state, LifecycleState,
};

const ID: &str = "0190a1b2-c3d4-7e5f-8a9b-0c1d2e3f4a5b";

fn id_value() -> u128 {
    u128::from_str_radix("0190a1b2c3d47e5f8a9b0c1d2e3f4a5b", 16).unwrap()
}

#[test]
fn state_names_round_trip() {
    assert_eq!(parse_state("surfaced"), Some(LifecycleState::Surfaced));
    assert_eq!(parse_state("stale"), Some(LifecycleState::Stale));
    assert_eq!(parse_state("Surfaced"), None);
    assert_eq!(webhook_event_state(LifecycleState::Acted), Some("acted"));
    assert_eq!(webhook_event_state(LifecycleState::Dismissed), None);
}

#[test]
fn page_limit_defaults_and_clamps() {
    assert_eq!(page_limit(None), 50);
    assert_eq!(page_limit(Some(0)), 1);
    assert_eq!(page_limit(Some(1000)), 200);
    assert_eq!(page_limit(Some(20)), 20);
    assert_eq!(page_cut(21, 20), (20, true));
    assert_eq!(page_cut(20, 20), (20, false));
}

#[test]
fn cursor_encodes_micros_and_hyphenated_uuid() {
    let c = encode_cursor(1_717_000_000_123_456, id_value());
    assert_eq!(c, format!("1717000000123456:{}", ID));
    assert_eq!(decode_cursor(&c), Some((1_717_000_000_123_456, id_value())));
    assert_eq!(encode_cursor(-5, 0), "-5:00000000-0000-0000-0000-000000000000");
}

#[test]
fn malformed_cursors_decode_to_none() {
    assert_eq!(decode_cursor("no-colon"), None);
    assert_eq!(decode_cursor("12x:0190a1b2-c3d4-7e5f-8a9b-0c1d2e3f4a5b"), None);
    assert_eq!(decode_cursor("12:not-a-uuid"), None);
    assert_eq!(decode_cursor(&format!("{}:{}", i64::MAX, ID)), None);
}

#[test]
fn ids_and_states_are_checked() {
    assert_eq!(recommendation_id(ID).ok(), Some(id_value()));
    let e = recommendation_id("nope").err().expect("bad id refused");
    assert_eq!((e.status, e.error.as_str()), (400, "invalid_id"));
    assert_eq!(target_state("acted").ok(), Some(LifecycleState::Acted));
    assert_eq!(target_state("bogus").err().map(|e| e.status), Some(400));
    assert_eq!(stored_state("bogus").err().map(|e| (e.status, e.error)), Some((500, "corrupt_state".to_string())));
}
