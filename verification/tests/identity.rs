use chartlet::digits::push_hex;
use chartlet::ids::{default_id_prefix, fnv1a_hash, validate_id_prefix};

#[test]
fn fnv1a_matches_the_published_test_vectors() {
    assert_eq!(fnv1a_hash(b""), 0xcbf2_9ce4_8422_2325);
    assert_eq!(fnv1a_hash(b"a"), 0xaf63_dc4c_8601_ec8c);
    assert_eq!(fnv1a_hash(b"foobar"), 0x8594_4171_f739_67e8);
}

#[test]
fn derived_prefix_is_the_hash_in_hexadecimal() {
    assert_eq!(default_id_prefix(b""), "chartlet-cbf29ce484222325");
    assert_eq!(default_id_prefix(b"foobar"), "chartlet-85944171f73967e8");
    assert_eq!(default_id_prefix(b"{}"), default_id_prefix(b"{}"));
    assert_ne!(default_id_prefix(b"{}"), default_id_prefix(b"[]"));
}

#[test]
fn derived_prefixes_are_valid_prefixes() {
    for canonical in [&b""[..], &b"a"[..], &b"{\"schemaVersion\":1}"[..]] {
        assert!(validate_id_prefix(&default_id_prefix(canonical)).is_ok());
    }
}

#[test]
fn hexadecimal_digits_are_zero_padded() {
    let mut text = String::from("#");
    push_hex(&mut text, 0xab, 4);
    assert_eq!(text, "#00ab");
}

#[test]
fn given_prefixes_must_be_short_ascii_identifiers() {
    let longest = "x".repeat(64);
    for valid in ["first", "a", "Chart-2_b", longest.as_str()] {
        assert!(validate_id_prefix(valid).is_ok(), "{valid}");
    }
    let too_long = "x".repeat(65);
    for invalid in ["", "1chart", "-a", "a b", "a.b", "café", too_long.as_str()] {
        let error = validate_id_prefix(invalid).unwrap_err();
        assert_eq!(error.code, "invalid_id_prefix");
        assert_eq!(error.path, "/render/idPrefix");
    }
}
