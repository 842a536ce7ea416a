use ldk::hex_utils::{hex_str, to_vec};

#[test]
fn decodes_mixed_case_digits() {
    assert_eq!(to_vec("00ff7Fa0"), Some(vec![0x00, 0xff, 0x7f, 0xa0]));
    assert_eq!(to_vec("DEADbeef"), Some(vec![0xde, 0xad, 0xbe, 0xef]));
}

#[test]
fn decodes_empty_text_to_no_bytes() {
    assert_eq!(to_vec(""), Some(vec![]));
}

#[test]
fn rejects_odd_length() {
    assert_eq!(to_vec("abc"), None);
    assert_eq!(to_vec("0"), None);
}

#[test]
fn rejects_non_hex_characters() {
    assert_eq!(to_vec("zz"), None);
    assert_eq!(to_vec("0g"), None);
    assert_eq!(to_vec("0x10"), None);
    assert_eq!(to_vec(" 10"), None);
    assert_eq!(to_vec("\u{e9}\u{e9}"), None);
    assert_eq!(to_vec("１０"), None);
}

#[test]
fn encodes_in_lower_case() {
    assert_eq!(hex_str(&[0xde, 0xad, 0xbe, 0xef, 0x00, 0x0f]), "deadbeef000f");
    assert_eq!(hex_str(&[]), "");
}

#[test]
fn thirty_two_bytes_round_trip() {
    let text = "AABBccdd00112233445566778899aabbccddeeff00112233445566778899AABB";
    let bytes = to_vec(text).unwrap();
    assert_eq!(bytes.len(), 32);
    assert_eq!(hex_str(&bytes), text.to_lowercase());
    assert_eq!(to_vec(&hex_str(&bytes)), Some(bytes));
}

#[test]
fn invalid_text_is_rejected_not_a_fault() {
    for text in ["", "a", "abc", "xyz!", "00 11", "0011\n", "ＡＢ", "--", "g0"] {
        let decoded = to_vec(text);
        if text.is_empty() {
            assert_eq!(decoded, Some(vec![]));
        } else {
            assert_eq!(decoded, None, "{:?}", text);
        }
    }
}
