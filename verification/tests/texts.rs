use consumption_tracker::text::{event_id, push_decimal, server_address};

#[test]
fn decimal_of_edges() {
    let mut text = String::from("n=");
    push_decimal(&mut text, 0);
    assert_eq!(text, "n=0");
    let mut text = String::new();
    push_decimal(&mut text, u32::MAX);
    assert_eq!(text, "4294967295");
    let mut text = String::new();
    push_decimal(&mut text, 1009);
    assert_eq!(text, "1009");
}

#[test]
fn every_digit_is_written() {
    let mut text = String::new();
    push_decimal(&mut text, 1234567890);
    assert_eq!(text, "1234567890");
}

#[test]
fn event_id_names_para_and_block() {
    assert_eq!(event_id(1000, 123456), "1000-123456");
    assert_eq!(event_id(0, 0), "0-0");
}

#[test]
fn event_ids_differ() {
    assert_ne!(event_id(1, 11), event_id(11, 1));
    assert_ne!(event_id(2000, 7), event_id(2000, 8));
    assert_ne!(event_id(2000, 7), event_id(2001, 7));
}

#[test]
fn address_defaults() {
    assert_eq!(server_address(None, None), "127.0.0.1:9001");
}

#[test]
fn address_from_settings() {
    let address = server_address(Some("0.0.0.0".to_string()), Some("8080".to_string()));
    assert_eq!(address, "0.0.0.0:8080");
    assert_eq!(server_address(Some("10.0.0.1".to_string()), None), "10.0.0.1:9001");
    assert_eq!(server_address(None, Some("80".to_string())), "127.0.0.1:80");
}
