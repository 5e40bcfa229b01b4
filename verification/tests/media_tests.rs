use media_mirror::media::{file_extension, is_eligible, MediaDescriptor, MediaKind, SIZE_CEILING};
use media_mirror::naming::{create_file_name_with_path, file_name_for_nonce, nonce_at};

fn document(mime: Option<&str>, size: Option<i64>, name: Option<&str>) -> MediaDescriptor {
    MediaDescriptor {
        kind: MediaKind::Document,
        mime_type: mime.map(String::from),
        size,
        name: name.map(String::from),
        reference: 1,
    }
}

#[test]
fn image_document_within_the_ceiling_is_eligible() {
    assert!(is_eligible(&document(Some("image/png"), Some(1024), Some("a.png"))));
    assert!(is_eligible(&document(Some("image"), Some(0), None)));
}

#[test]
fn size_ceiling_is_inclusive() {
    assert_eq!(SIZE_CEILING, 10_100_000);
    assert!(is_eligible(&document(Some("image/jpeg"), Some(10_100_000), None)));
    assert!(!is_eligible(&document(Some("image/jpeg"), Some(10_100_001), None)));
}

#[test]
fn wrong_mime_is_ineligible() {
    assert!(!is_eligible(&document(Some("video/mp4"), Some(10), None)));
    assert!(!is_eligible(&document(Some("imag"), Some(10), None)));
    assert!(!is_eligible(&document(Some(""), Some(10), None)));
    assert!(!is_eligible(&document(Some("application/image"), Some(10), None)));
}

#[test]
fn undeclared_mime_or_size_excludes_nothing() {
    assert!(is_eligible(&document(None, Some(10), None)));
    assert!(is_eligible(&document(Some("image/gif"), None, None)));
    assert!(is_eligible(&document(None, None, None)));
    assert!(!is_eligible(&document(None, Some(10_100_001), None)));
}

#[test]
fn only_documents_are_eligible() {
    let mut m = document(Some("image/png"), Some(10), None);
    m.kind = MediaKind::Photo;
    assert!(!is_eligible(&m));
    m.kind = MediaKind::Other;
    assert!(!is_eligible(&m));
}

#[test]
fn classifier_gives_the_same_answer_again() {
    let m = document(Some("image/png"), Some(10), Some("x.png"));
    let copy = m.clone();
    let first = is_eligible(&m);
    assert_eq!(is_eligible(&m), first);
    assert_eq!(is_eligible(&copy), first);
    assert_eq!(m.mime_type.as_deref(), Some("image/png"));
}

fn ext(name: &str) -> Option<String> {
    file_extension(&document(None, None, Some(name)))
}

#[test]
fn extension_is_what_follows_the_last_dot() {
    assert_eq!(ext("photo.jpg"), Some(String::from("jpg")));
    assert_eq!(ext("archive.tar.gz"), Some(String::from("gz")));
    assert_eq!(ext(".hidden.txt"), Some(String::from("txt")));
    assert_eq!(ext("trailing."), Some(String::new()));
    assert_eq!(ext("dir.d/photo.webp"), Some(String::from("webp")));
}

#[test]
fn extension_passes_over_trailing_slashes_and_dots() {
    assert_eq!(ext("photo.jpg/"), Some(String::from("jpg")));
    assert_eq!(ext("photo.jpg//"), Some(String::from("jpg")));
    assert_eq!(ext("photo.jpg/."), Some(String::from("jpg")));
    assert_eq!(ext("dir/photo.jpg/./"), Some(String::from("jpg")));
    assert_eq!(ext("/"), None);
    assert_eq!(ext("."), None);
    assert_eq!(ext("./"), None);
    assert_eq!(ext("a.b/.."), None);
    assert_eq!(ext("a.b/../"), None);
}

#[test]
fn extension_agrees_with_the_path_rules_of_the_platform() {
    for name in [
        "photo.jpg", "a.tar.gz", ".bashrc", ".hidden.txt", "trailing.", "noext", "", "..", ".",
        "a.b/", "a.b//", "a.b/.", "a.b/..", "x/y.z", "x.y/z", "/", "./", "a/./b.c/./", "...",
        "a..", "..a", "a/.b", "a/.b.c",
    ] {
        let expected = std::path::Path::new(name)
            .extension()
            .and_then(|e| e.to_str())
            .map(String::from);
        assert_eq!(ext(name), expected, "{}", name);
    }
}

#[test]
fn names_without_extension() {
    assert_eq!(ext(""), None);
    assert_eq!(ext("photo"), None);
    assert_eq!(ext(".bashrc"), None);
    assert_eq!(ext(".."), None);
    assert_eq!(ext("dir.d/photo"), None);
    assert_eq!(ext("dir/.."), None);
}

#[test]
fn only_a_named_document_has_an_extension() {
    assert_eq!(file_extension(&document(None, None, None)), None);
    let mut m = document(None, None, Some("a.png"));
    m.kind = MediaKind::Photo;
    assert_eq!(file_extension(&m), None);
}

#[test]
fn file_name_for_a_known_nonce() {
    let m = document(Some("image/jpeg"), Some(1), Some("cat.jpg"));
    assert_eq!(
        file_name_for_nonce(&m, "images", 0),
        "images/Pixoro-cfcd208495d565ef66e7dff9f98764da.jpg"
    );
    assert_eq!(
        file_name_for_nonce(&m, "images", 1),
        "images/Pixoro-c4ca4238a0b923820dcc509a6f75849b.jpg"
    );
}

#[test]
fn file_name_hashes_the_decimal_nonce() {
    let m = document(None, None, None);
    let nonce: i64 = -1_700_000_000_123_456_789;
    let expected = format!("/tmp/media/Pixoro-{:x}.png", md5::compute(nonce.to_string()));
    assert_eq!(file_name_for_nonce(&m, "/tmp/media", nonce), expected);
}

#[test]
fn file_name_joins_with_one_slash() {
    let m = document(None, None, Some("a.gif"));
    assert_eq!(
        file_name_for_nonce(&m, "images/", 0),
        "images/Pixoro-cfcd208495d565ef66e7dff9f98764da.gif"
    );
    assert_eq!(file_name_for_nonce(&m, "", 0), "Pixoro-cfcd208495d565ef66e7dff9f98764da.gif");
    assert_eq!(file_name_for_nonce(&m, "/", 0), "/Pixoro-cfcd208495d565ef66e7dff9f98764da.gif");
}

#[test]
fn fresh_file_name_has_the_shape() {
    let m = document(Some("image/png"), Some(1), Some("shot.PNG"));
    let path = create_file_name_with_path(&m, "images").expect("the clock can be read");
    let rest = path.strip_prefix("images/Pixoro-").expect("prefix");
    let hash = rest.strip_suffix(".PNG").expect("suffix");
    assert_eq!(hash.len(), 32);
    assert!(hash.chars().all(|c| c.is_ascii_digit() || ('a'..='f').contains(&c)));
}

#[test]
fn nonce_is_the_nanoseconds_since_the_epoch() {
    assert_eq!(nonce_at(0, 0), Some(0));
    assert_eq!(nonce_at(1, 5), Some(1_000_000_005));
    assert_eq!(nonce_at(1_700_000_000, 123_456_789), Some(1_700_000_000_123_456_789));
    assert_eq!(nonce_at(59, 999_999_999), Some(59_999_999_999));
}

#[test]
fn nonce_ends_where_64_bits_end() {
    assert_eq!(nonce_at(9_223_372_036, 854_775_807), Some(i64::MAX));
    assert_eq!(nonce_at(9_223_372_036, 854_775_808), None);
    assert_eq!(nonce_at(9_223_372_037, 0), None);
    assert_eq!(nonce_at(u64::MAX, 0), None);
}

#[test]
fn nonce_needs_a_fraction_below_one_second() {
    assert_eq!(nonce_at(1, 1_000_000_000), None);
    assert_eq!(nonce_at(59, 1_500_000_000), None);
    assert_eq!(nonce_at(0, u32::MAX), None);
}

#[test]
fn hash_part_has_32_hex_digits() {
    let m = document(None, None, None);
    for nonce in [0, 1, -1, i64::MAX, i64::MIN, 1_700_000_000_123_456_789] {
        let path = file_name_for_nonce(&m, "", nonce);
        let hash = path.strip_prefix("Pixoro-").and_then(|r| r.strip_suffix(".png")).expect("shape");
        assert_eq!(hash.len(), 32);
        assert!(hash.chars().all(|c| c.is_ascii_digit() || ('a'..='f').contains(&c)));
    }
}
