use xorcodec::codec::{decode_content, encode_content, CodecError, DecodeResult};
use xorcodec::xor::xor_transform;

fn decode_ok(content: &str, key: &str) -> DecodeResult {
    match decode_content(content.to_string(), key.to_string()) {
        Ok(d) => d,
        Err(e) => panic!("decode failed: {:?}", e),
    }
}

fn round_trip(text: &str, key: &str, add_bom: bool) {
    let encoded = encode_content(text.to_string(), key.to_string(), add_bom);
    let decoded = decode_ok(&encoded, key);
    assert_eq!(decoded.content, text);
    assert_eq!(decoded.had_bom, add_bom);
}

#[test]
fn concrete_example_encodes_hi() {
    assert_eq!(xor_transform(&[0x68, 0x69], "k"), vec![0x03, 0x02]);
    let encoded = encode_content("hi".to_string(), "k".to_string(), false);
    assert_eq!(encoded, "AwI=");
    let decoded = decode_ok(&encoded, "k");
    assert_eq!(decoded.content, "hi");
    assert!(!decoded.had_bom);
}

#[test]
fn round_trip_various_texts_and_keys() {
    let texts = ["", "a", "hello world", "héllo wörld ✓ 🎉", "line1\nline2\ttab"];
    let keys = ["", "k", "secret", "ключ", "🔑x"];
    for text in texts {
        for key in keys {
            round_trip(text, key, false);
            round_trip(text, key, true);
        }
    }
}

#[test]
fn bom_flag_follows_add_bom() {
    let with = encode_content("data".to_string(), "key".to_string(), true);
    let without = encode_content("data".to_string(), "key".to_string(), false);
    assert!(decode_ok(&with, "key").had_bom);
    assert!(!decode_ok(&without, "key").had_bom);
}

#[test]
fn bom_only_payload_decodes_to_empty_text() {
    // 77u/ is the base64 form of EF BB BF.
    let decoded = decode_ok("77u/", "");
    assert_eq!(decoded.content, "");
    assert!(decoded.had_bom);
}

#[test]
fn text_starting_with_mark_loses_it_without_add_bom() {
    let encoded = encode_content("\u{FEFF}x".to_string(), "k".to_string(), false);
    let decoded = decode_ok(&encoded, "k");
    assert_eq!(decoded.content, "x");
    assert!(decoded.had_bom);
    let encoded = encode_content("\u{FEFF}x".to_string(), "k".to_string(), true);
    let decoded = decode_ok(&encoded, "k");
    assert_eq!(decoded.content, "\u{FEFF}x");
    assert!(decoded.had_bom);
}

#[test]
fn empty_key_is_identity() {
    let data: Vec<u8> = vec![0, 1, 2, 0x7F, 0x80, 0xFF];
    assert_eq!(xor_transform(&data, ""), data);
    assert_eq!(xor_transform(&[], ""), Vec::<u8>::new());
    assert_eq!(encode_content("hi".to_string(), String::new(), false), "aGk=");
}

#[test]
fn xor_is_self_inverse() {
    let data: Vec<u8> = (0u8..=255).collect();
    for key in ["a", "secret", "é", "日本"] {
        let once = xor_transform(&data, key);
        assert_ne!(once, data);
        assert_eq!(xor_transform(&once, key), data);
    }
}

#[test]
fn xor_cycles_over_key_bytes_not_chars() {
    // "é" is the two bytes C3 A9.
    assert_eq!(
        xor_transform(&[0x00, 0x00, 0x00, 0xFF], "é"),
        vec![0xC3, 0xA9, 0xC3, 0x56]
    );
    assert_eq!(xor_transform(&[0x10, 0x20, 0x30], "ab"), vec![0x71, 0x42, 0x51]);
}

#[test]
fn whitespace_is_ignored_when_decoding() {
    let encoded = encode_content("hello world".to_string(), "secret".to_string(), true);
    let plain = decode_ok(&encoded, "secret");
    let mut spaced = String::new();
    for (i, c) in encoded.chars().enumerate() {
        spaced.push(c);
        match i % 3 {
            0 => spaced.push(' '),
            1 => spaced.push('\n'),
            _ => spaced.push_str("\t\r\n"),
        }
    }
    let spaced = format!("  \n{}\u{3000}", spaced);
    let decoded = decode_ok(&spaced, "secret");
    assert_eq!(decoded.content, plain.content);
    assert_eq!(decoded.had_bom, plain.had_bom);
    assert_eq!(decode_ok("A wI=\n", "k").content, "hi");
}

#[test]
fn invalid_alphabet_is_malformed() {
    let r = decode_content("!!!invalid!!!".to_string(), "k".to_string());
    assert!(matches!(r, Err(CodecError::Malformed(_))));
}

#[test]
fn bad_padding_or_length_is_malformed() {
    for input in ["AwI", "AwI==", "A", "AwJ=", "=AwI"] {
        let r = decode_content(input.to_string(), "k".to_string());
        assert!(matches!(r, Err(CodecError::Malformed(_))), "input {:?}", input);
    }
}

#[test]
fn empty_input_decodes_to_empty_text() {
    let decoded = decode_ok("", "anything");
    assert_eq!(decoded.content, "");
    assert!(!decoded.had_bom);
    let decoded = decode_ok(" \n\t ", "");
    assert_eq!(decoded.content, "");
}

#[test]
fn invalid_utf8_is_invalid_text() {
    // /w== is the base64 form of the single byte FF.
    let r = decode_content("/w==".to_string(), String::new());
    assert!(matches!(r, Err(CodecError::InvalidText(_))));
}

#[test]
fn wrong_key_never_returns_original() {
    let encoded = encode_content("hello world".to_string(), "secret".to_string(), true);
    match decode_content(encoded, "wrong".to_string()) {
        Ok(d) => assert_ne!(d.content, "hello world"),
        Err(CodecError::InvalidText(_)) => {}
        Err(CodecError::Malformed(_)) => panic!("well-formed base64 reported as malformed"),
    }
}
