use geometry_kernel::hashing::{
    canonicalize_json, hash_intent_json, hash_normalized, hash_text, normalize_json, to_hex,
    verify_hash,
};
use geometry_kernel::text::strip_whitespace;

const BOX_INTENT: &str = r#"{"part":"test_part","operations":[{"id":"box1","type":"box","parameters":{"width":10.0},"timestamp":0.0}],"constraints":[]}"#;

#[test]
fn test_deterministic_hashing() {
    let hash1 = hash_intent_json(BOX_INTENT);
    let hash2 = hash_intent_json(BOX_INTENT);

    assert_eq!(hash1, hash2);
    assert!(hash1.starts_with("intent_"));
}

#[test]
fn test_different_intents_different_hashes() {
    let ir1 = r#"{"part":"test_part","operations":[],"constraints":[]}"#;
    let ir2 = r#"{"part":"other_part","operations":[],"constraints":[]}"#;

    let hash1 = hash_intent_json(ir1);
    let hash2 = hash_intent_json(ir2);

    assert_ne!(hash1, hash2);
}

#[test]
fn test_json_normalization() {
    let json1 = r#"{ "a": 1, "b": 2 }"#;
    let json2 = r#"{ "b": 2, "a": 1 }"#;

    let hash1 = hash_intent_json(json1);
    let hash2 = hash_intent_json(json2);

    assert_eq!(hash1, hash2);
}

#[test]
fn test_verify_hash() {
    let ir = r#"{"part":"test","operations":[],"constraints":[]}"#;

    let hash = hash_intent_json(ir);
    assert!(verify_hash(ir, &hash));
    assert!(!verify_hash(ir, "intent_0000"));
}

#[test]
fn digest_of_empty_text_is_the_known_value() {
    assert_eq!(
        hash_text(""),
        "af1349b9f5f9a1a6a0404dea36dcc9499bcb25c9adc112b7cc9a93cae41f3262"
    );
}

#[test]
fn digest_differs_from_its_input() {
    let hex = hash_text("abc");
    assert_eq!(hex.len(), 64);
    assert_ne!(hex, "abc");
    assert!(hex.chars().all(|c| c.is_ascii_digit() || ('a'..='f').contains(&c)));
}

#[test]
fn hex_writes_two_lowercase_digits_per_byte() {
    assert_eq!(to_hex(&[0x00, 0x0f, 0xa5, 0xff]), "000fa5ff");
    assert_eq!(to_hex(&[]), "");
}

#[test]
fn canonical_form_sorts_keys_and_drops_whitespace() {
    assert_eq!(
        canonicalize_json(r#"{ "b": [3, 1, 2], "a": { "z": null, "y": true } }"#),
        Some(r#"{"a":{"y":true,"z":null},"b":[3,1,2]}"#.to_string())
    );
}

#[test]
fn canonical_form_of_what_is_not_json_is_none() {
    assert_eq!(canonicalize_json("{ not json"), None);
    assert_eq!(canonicalize_json(""), None);
}

#[test]
fn nested_key_order_does_not_change_the_hash() {
    let one = r#"{"outer":{"a":1,"b":{"x":1,"y":2}},"list":[{"p":1,"q":2}]}"#;
    let two = r#"{"list":[{"q":2,"p":1}],"outer":{"b":{"y":2,"x":1},"a":1}}"#;
    assert_eq!(hash_intent_json(one), hash_intent_json(two));
}

#[test]
fn array_order_changes_the_hash() {
    assert_ne!(hash_intent_json("[1,2]"), hash_intent_json("[2,1]"));
}

#[test]
fn text_that_is_not_json_is_hashed_without_its_whitespace() {
    assert_eq!(normalize_json("not json\tat\u{a0}all\n"), "notjsonatall");
    assert_eq!(hash_intent_json("not json at all"), hash_normalized("notjsonatall"));
}

#[test]
fn strip_whitespace_takes_out_every_kind_of_space() {
    let spaced = "a b\tc\nd\u{b}e\u{c}f\rg\u{85}h\u{a0}i\u{1680}j\u{2000}k\u{200a}l\u{2028}m\u{2029}n\u{202f}o\u{205f}p\u{3000}q";
    assert_eq!(strip_whitespace(spaced), "abcdefghijklmnopq");
    let expected: String = spaced.split_whitespace().collect();
    assert_eq!(strip_whitespace(spaced), expected);
    assert_eq!(strip_whitespace("\u{200b}x"), "\u{200b}x");
}

#[test]
fn intent_hash_is_prefix_and_digest() {
    let hash = hash_normalized("{}");
    assert_eq!(hash, format!("intent_{}", hash_text("{}")));
    assert_eq!(hash.len(), 7 + 64);
}
