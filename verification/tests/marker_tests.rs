use media_mirror::marker::{decode, encode, recover};

#[test]
fn encode_writes_prefix_and_decimal() {
    assert_eq!(encode(482913), "id=482913");
    assert_eq!(encode(0), "id=0");
    assert_eq!(encode(7), "id=7");
    assert_eq!(encode(10), "id=10");
    assert_eq!(encode(i32::MAX), "id=2147483647");
}

#[test]
fn encode_of_a_negative_identifier_keeps_the_sign() {
    assert_eq!(encode(-5), "id=-5");
    assert_eq!(encode(i32::MIN), "id=-2147483648");
}

#[test]
fn decode_reads_the_identifier() {
    assert_eq!(decode("id=482913"), 482913);
    assert_eq!(decode("id=0"), 0);
    assert_eq!(decode("id=2147483647"), i32::MAX);
}

#[test]
fn decode_takes_the_field_after_the_first_equals() {
    assert_eq!(decode("id=12=3"), 12);
    assert_eq!(decode("x=7"), 7);
    assert_eq!(decode("seen id=41"), 41);
    assert_eq!(decode("id=007"), 7);
    assert_eq!(decode("=5"), 5);
}

#[test]
fn decode_of_malformed_text_is_zero() {
    assert_eq!(decode(""), 0);
    assert_eq!(decode("no marker here"), 0);
    assert_eq!(decode("id="), 0);
    assert_eq!(decode("id==4"), 0);
    assert_eq!(decode("id=12abc"), 0);
    assert_eq!(decode("id= 12"), 0);
    assert_eq!(decode("id=-5"), 0);
    assert_eq!(decode("id=+5"), 0);
    assert_eq!(decode("id=\u{661}\u{662}"), 0);
}

#[test]
fn decode_of_a_number_too_large_is_zero() {
    assert_eq!(decode("id=2147483648"), 0);
    assert_eq!(decode("id=99999999999999999999999999"), 0);
}

#[test]
fn marker_round_trip_on_chosen_identifiers() {
    for id in [0, 1, 9, 10, 99, 100, 12345, 482913, 1_000_000_000, i32::MAX] {
        assert_eq!(decode(&encode(id)), id);
    }
}

#[test]
fn recover_without_marker_is_zero() {
    assert_eq!(recover(None), 0);
}

#[test]
fn recover_reads_the_latest_marker() {
    assert_eq!(recover(Some("id=30")), 30);
    assert_eq!(recover(Some("garbage")), 0);
}
