use transcriber_api::api::digest::hex_sha256;
use transcriber_api::api::translation::{
    push_json_string, translation_input_hash, translation_input_of, translation_input_to_json,
};
use transcriber_api::text::{
    chars_of, contains_chars, push_decimal, push_str, replace_str, string_from_chars,
};
use transcriber_api::types::translate::{TranslationInput, TranslationInputRequest};

#[test]
fn hex_sha256_of_abc() {
    assert_eq!(
        hex_sha256(b"abc"),
        "ba7816bf8f01cfea414140de5dae2223b00361a396177a9cb410ff61f20015ad"
    );
}

#[test]
fn hex_sha256_of_empty_input() {
    let h = hex_sha256(b"");
    assert_eq!(h, "e3b0c44298fc1c149afbf4c8996fb92427ae41e4649b934ca495991b7852b855");
    assert_eq!(h.len(), 64);
}

#[test]
fn json_string_escapes_like_serde_json() {
    let samples = ["plain", "quote \" and \\ slash", "line\nbreak\ttab\r", "\u{1}\u{8}\u{c}\u{1f}", "日本語", "\u{7f}"];
    for s in samples.iter() {
        let mut out = String::new();
        push_json_string(&mut out, s);
        assert_eq!(out, serde_json::to_string(s).unwrap());
    }
}

#[test]
fn translation_input_json_matches_field_order() {
    let with_context = TranslationInput {
        translation_input: "猫です".to_string(),
        context: Some("a \"pet\"".to_string()),
    };
    assert_eq!(
        translation_input_to_json(&with_context),
        "{\"translation_input\":\"猫です\",\"context\":\"a \\\"pet\\\"\"}"
    );
    let without = TranslationInput { translation_input: "x".to_string(), context: None };
    assert_eq!(translation_input_to_json(&without), "{\"translation_input\":\"x\",\"context\":null}");
}

#[test]
fn translation_hash_is_digest_of_json() {
    let input = TranslationInput { translation_input: "x".to_string(), context: None };
    let json = translation_input_to_json(&input);
    assert_eq!(translation_input_hash(&input), hex_sha256(json.as_bytes()));
    let other = TranslationInput { translation_input: "y".to_string(), context: None };
    assert_ne!(translation_input_hash(&input), translation_input_hash(&other));
}

#[test]
fn translation_input_drops_segment_id() {
    let req = TranslationInputRequest {
        translation_input: "文".to_string(),
        context: Some("ctx".to_string()),
        segment_id: 42,
    };
    let input = translation_input_of(&req);
    assert_eq!(input.translation_input, "文");
    assert_eq!(input.context.as_deref(), Some("ctx"));
}

#[test]
fn replace_every_occurrence() {
    assert_eq!(replace_str("a {x} b {x}", "{x}", "1"), "a 1 b 1");
    assert_eq!(replace_str("aaaa", "aa", "b"), "bb");
    assert_eq!(replace_str("none here", "{x}", "1"), "none here");
    assert_eq!(replace_str("", "{x}", "1"), "");
}

#[test]
fn decimal_digits() {
    let mut s = String::from("n=");
    push_decimal(&mut s, 0);
    push_str(&mut s, ",");
    push_decimal(&mut s, 1207);
    push_str(&mut s, ",");
    push_decimal(&mut s, u64::MAX);
    assert_eq!(s, "n=0,1207,18446744073709551615");
}

#[test]
fn char_helpers() {
    let cs = chars_of("héllo");
    assert_eq!(cs, vec!['h', 'é', 'l', 'l', 'o']);
    assert_eq!(string_from_chars(&cs, 1, 4), "éll");
    assert!(contains_chars(&cs, &['l', 'o']));
    assert!(!contains_chars(&cs, &['o', 'l']));
    assert!(contains_chars(&cs, &[]));
}
