use chat_relay::{decode, encode, ChatMessage, DecodeError};

fn msg(u: &str, c: &str) -> ChatMessage {
    ChatMessage::new(u.to_string(), c.to_string())
}

#[test]
fn encode_plain_envelope() {
    assert_eq!(encode(&msg("alice", "hi")), "{\"username\":\"alice\",\"content\":\"hi\"}");
}

#[test]
fn encode_identification_has_empty_content() {
    let m = ChatMessage::identification("bob".to_string());
    assert_eq!(encode(&m), "{\"username\":\"bob\",\"content\":\"\"}");
}

#[test]
fn encode_escapes_like_serde_json() {
    let tricky = "q\"b\\s\n\r\t\u{8}\u{c}\u{1}\u{1f} é ✓ /";
    let expected = format!(
        "{{\"username\":{},\"content\":{}}}",
        serde_json::to_string("u\u{0}").unwrap(),
        serde_json::to_string(tricky).unwrap()
    );
    assert_eq!(encode(&msg("u\u{0}", tricky)), expected);
}

#[test]
fn round_trip_keeps_every_character() {
    let cases = [
        ("", ""),
        ("alice", "hi"),
        ("a\"b", "c\\d"),
        ("\u{0}\u{1f}\u{7f}", "line\nbreak\ttab\u{8}\u{c}\r"),
        ("ünï", "日本語 ✓"),
    ];
    for (u, c) in cases.iter() {
        let m = msg(u, c);
        assert_eq!(decode(&encode(&m)), Ok(m.clone()));
    }
}

#[test]
fn decode_reads_serde_json_output() {
    let text = format!(
        "{{\"username\":{},\"content\":{}}}",
        serde_json::to_string("carol").unwrap(),
        serde_json::to_string("a \"quoted\" word\n").unwrap()
    );
    assert_eq!(decode(&text), Ok(msg("carol", "a \"quoted\" word\n")));
}

#[test]
fn decode_output_agrees_with_serde_json() {
    let text = encode(&msg("dave", "tab\there \u{2} end"));
    let v: serde_json::Value = serde_json::from_str(&text).unwrap();
    assert_eq!(v.get("username").and_then(|x| x.as_str()), Some("dave"));
    assert_eq!(v.get("content").and_then(|x| x.as_str()), Some("tab\there \u{2} end"));
}

#[test]
fn decode_accepts_any_json_layout_of_the_envelope() {
    let alice_hi = msg("alice", "hi");
    let texts = [
        "{ \"username\": \"alice\", \"content\": \"hi\" }",
        "{\"content\":\"hi\",\"username\":\"alice\"}",
        "{\"username\":\"alice\",\"content\":\"hi\",\"sent\":12}",
        "\n\t{ \"username\" : \"alice\" ,\r\n \"content\" : \"hi\" } ",
        "{\"username\":\"\\u0061lice\",\"content\":\"h\\u0069\"}",
    ];
    for t in texts.iter() {
        assert_eq!(decode(t), Ok(alice_hi.clone()), "{}", t);
    }
}

#[test]
fn decode_reads_every_string_escape() {
    let text = "{\"username\":\"a\\/b\",\"content\":\"\\u00e9 \\ud83d\\ude00 \\\"q\\\" \\\\\"}";
    assert_eq!(decode(text), Ok(msg("a/b", "é 😀 \"q\" \\")));
}

#[test]
fn decode_rejects_malformed_frames() {
    let bad = [
        "",
        "not json",
        "{\"username\":\"a\"}",
        "{\"content\":\"x\"}",
        "{\"username\":\"a\",\"content\":\"x\"",
        "{\"username\":\"a\",\"content\":\"x\"}extra",
        "{\"username\":\"a\",\"content\":\"x\ny\"}",
        "{\"username\":\"a\",\"content\":\"\\q\"}",
        "{\"username\":1,\"content\":\"x\"}",
        "{\"username\":\"a\",\"content\":null}",
        "[\"a\",\"x\"]",
        "\"just a string\"",
    ];
    for t in bad.iter() {
        assert_eq!(decode(t), Err(DecodeError::Malformed), "{}", t);
    }
}

#[test]
fn display_string_joins_name_and_content() {
    assert_eq!(msg("alice", "hi").to_display_string(), "alice: hi");
    assert_eq!(msg("", "").to_display_string(), ": ");
}
