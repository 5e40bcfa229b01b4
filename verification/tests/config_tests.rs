use media_mirror::config::{is_valid, AppConfig};

fn sample() -> AppConfig {
    AppConfig {
        api_hash: String::from("abc"),
        api_id: 10,
        phone: String::from("12345"),
        from: vec![String::from("source")],
        to: String::from("dst"),
    }
}

#[test]
fn smallest_valid_config_is_valid() {
    assert!(is_valid(&sample()));
}

#[test]
fn short_hash_is_invalid() {
    let mut c = sample();
    c.api_hash = String::from("ab");
    assert!(!is_valid(&c));
    c.api_hash = String::new();
    assert!(!is_valid(&c));
}

#[test]
fn small_api_id_is_invalid() {
    let mut c = sample();
    c.api_id = 9;
    assert!(!is_valid(&c));
}

#[test]
fn no_source_is_invalid() {
    let mut c = sample();
    c.from = Vec::new();
    assert!(!is_valid(&c));
}

#[test]
fn short_destination_is_invalid() {
    let mut c = sample();
    c.to = String::from("ab");
    assert!(!is_valid(&c));
}

#[test]
fn short_phone_is_invalid() {
    let mut c = sample();
    c.phone = String::from("1234");
    assert!(!is_valid(&c));
}

#[test]
fn lengths_count_bytes() {
    let mut c = sample();
    c.to = String::from("éa");
    assert!(is_valid(&c));
}
