use openagent_plugins::digest::{hmac_sha256_owned, sha256};
use openagent_plugins::hexcode::{hex, hex_digit};
use openagent_plugins::json::escape_json;
use openagent_plugins::text::{
    contains_str, nonempty_value, parse_u32, push_decimal, str_chars, str_eq, trim_end_len,
    trim_start_pos, white_space,
};

#[test]
fn hex_renders_lower_case_pairs() {
    assert_eq!(hex(&[]), "");
    assert_eq!(hex(&[0x00, 0x0f, 0xab, 0xff]), "000fabff");
    assert_eq!(hex_digit(10), 'a');
}

#[test]
fn hex_is_twice_as_long_and_distinguishes_inputs() {
    let a = hex(&[1, 2, 3]);
    let b = hex(&[1, 2, 4]);
    assert_eq!(a.len(), 6);
    assert_ne!(a, b);
}

#[test]
fn sha256_of_empty_and_abc() {
    assert_eq!(
        hex(&sha256(b"")),
        "e3b0c44298fc1c149afbf4c8996fb92427ae41e4649b934ca495991b7852b855"
    );
    assert_eq!(
        hex(&sha256(b"abc")),
        "ba7816bf8f01cfea414140de5dae2223b00361a396177a9cb410ff61f20015ad"
    );
}

#[test]
fn hmac_sha256_known_vector() {
    let tag = hmac_sha256_owned(b"key", b"The quick brown fox jumps over the lazy dog");
    assert_eq!(hex(&tag), "f7bc83f430538424b13298e6aa6fb143ef4d59a14946175997479dbc2d1a3cd8");
}

#[test]
fn decimal_and_parse_round_trip() {
    for n in [0u32, 7, 10, 4096, u32::MAX] {
        let mut s = String::new();
        push_decimal(&mut s, n as u64);
        assert_eq!(s, n.to_string());
        assert_eq!(parse_u32(&s), Some(n));
    }
}

#[test]
fn parse_u32_follows_std() {
    for s in ["", "+", "-", "-1", "+12", "007", "12a", " 1", "4294967295", "4294967296", "99999999999", "١"] {
        assert_eq!(parse_u32(s), s.parse::<u32>().ok(), "input {:?}", s);
    }
}

#[test]
fn contains_and_equality() {
    assert!(contains_str("HTTP 401 Unauthorized", "401"));
    assert!(!contains_str("HTTP 403", "401"));
    assert!(contains_str("abc", ""));
    assert!(!contains_str("ab", "abc"));
    assert!(str_eq("glm-5", "glm-5"));
    assert!(!str_eq("glm-5", "glm-5.1"));
}

#[test]
fn white_space_matches_std() {
    for c in ['\t', '\n', '\u{b}', ' ', '\u{85}', '\u{a0}', '\u{2003}', '\u{3000}', 'a', '\u{200b}', '{'] {
        assert_eq!(white_space(c), c.is_whitespace(), "char {:?}", c);
    }
}

#[test]
fn trimming_matches_std() {
    for s in ["  a b \u{3000}", "", "   ", "x"] {
        let cs = str_chars(s);
        let k = trim_end_len(&cs, 0, cs.len());
        let start = trim_start_pos(&cs, 0, cs.len());
        let end: String = cs[..k].iter().collect();
        let begin: String = cs[start..].iter().collect();
        assert_eq!(end, s.trim_end());
        assert_eq!(begin, s.trim_start());
    }
}

#[test]
fn nonempty_value_keeps_only_filled_reads() {
    assert_eq!(nonempty_value(Ok("v".to_string())), Some("v".to_string()));
    assert_eq!(nonempty_value(Ok(String::new())), None);
    assert_eq!(nonempty_value(Err("denied".to_string())), None);
}

#[test]
fn escape_json_escapes_specials() {
    assert_eq!(escape_json("plain text"), "plain text");
    assert_eq!(escape_json("a\"b\\c"), "a\\\"b\\\\c");
    assert_eq!(escape_json("\u{8}\u{c}\n\r\t"), "\\b\\f\\n\\r\\t");
    assert_eq!(escape_json("\u{1}\u{1f}\u{7f}é"), "\\u0001\\u001f\u{7f}é");
}

#[test]
fn escape_json_agrees_with_serde_json() {
    let s = "mixed \" \\ \u{0} \u{b} / ü 🦀";
    let quoted = serde_json::Value::String(s.to_string()).to_string();
    assert_eq!(format!("\"{}\"", escape_json(s)), quoted);
}
