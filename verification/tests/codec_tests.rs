use ws_demo::codec::{decode_incoming, encode_incoming, encode_outgoing};
use ws_demo::msg::{Incoming, Outgoing};

fn decoded_text(input: &str) -> Option<String> {
    match decode_incoming(input) {
        Some(Incoming::Welcome { hello }) => Some(hello),
        None => None,
    }
}

#[test]
fn decodes_canonical_welcome() {
    assert_eq!(
        decoded_text("{\"type\":\"welcome\",\"message\":{\"hello\":\"X\"}}"),
        Some(String::from("X"))
    );
}

#[test]
fn decodes_empty_text() {
    assert_eq!(
        decoded_text("{\"type\":\"welcome\",\"message\":{\"hello\":\"\"}}"),
        Some(String::from(""))
    );
}

#[test]
fn decodes_unicode_text() {
    assert_eq!(
        decoded_text("{\"type\":\"welcome\",\"message\":{\"hello\":\"h\u{00e9}llo \u{2713} \u{65e5}\u{672c}\"}}"),
        Some(String::from("h\u{00e9}llo \u{2713} \u{65e5}\u{672c}"))
    );
}

#[test]
fn decodes_short_escapes() {
    assert_eq!(
        decoded_text("{\"type\":\"welcome\",\"message\":{\"hello\":\"a\\\"b\\\\c\\nd\\te\\/f\"}}"),
        Some(String::from("a\"b\\c\nd\te/f"))
    );
}

#[test]
fn decodes_unicode_escapes() {
    assert_eq!(
        decoded_text("{\"type\":\"welcome\",\"message\":{\"hello\":\"\\u0041\\u00e9\\u2713\"}}"),
        Some(String::from("A\u{00e9}\u{2713}"))
    );
}

#[test]
fn decodes_with_whitespace() {
    assert_eq!(
        decoded_text(" {\n\t\"type\" : \"welcome\" ,\r\n \"message\" : { \"hello\" : \"hi\" } } "),
        Some(String::from("hi"))
    );
}

#[test]
fn decodes_members_in_either_order() {
    assert_eq!(
        decoded_text("{\"message\":{\"hello\":\"hi\"},\"type\":\"welcome\"}"),
        Some(String::from("hi"))
    );
}

#[test]
fn rejects_unrecognized_tag() {
    assert_eq!(
        decoded_text("{\"type\":\"greetings\",\"message\":{\"hello\":\"X\"}}"),
        None
    );
}

#[test]
fn rejects_missing_type() {
    assert_eq!(decoded_text("{\"message\":{\"hello\":\"X\"}}"), None);
}

#[test]
fn rejects_wrong_payload_shape() {
    assert_eq!(
        decoded_text("{\"type\":\"welcome\",\"message\":{\"name\":\"X\"}}"),
        None
    );
}

#[test]
fn rejects_malformed_json() {
    assert_eq!(decoded_text("not json at all"), None);
    assert_eq!(decoded_text(""), None);
    assert_eq!(decoded_text("{\"type\":\"welcome\""), None);
}

#[test]
fn rejects_trailing_garbage() {
    assert_eq!(
        decoded_text("{\"type\":\"welcome\",\"message\":{\"hello\":\"X\"}}!"),
        None
    );
}

#[test]
fn rejects_surrogate_escape() {
    assert_eq!(
        decoded_text("{\"type\":\"welcome\",\"message\":{\"hello\":\"\\ud83d\\ude00\"}}"),
        None
    );
}

#[test]
fn encodes_thanks_exactly() {
    let out = encode_outgoing(&Outgoing::Thanks { name: String::from("X") });
    assert_eq!(out, "{\"type\":\"thanks\",\"message\":{\"name\":\"X\"}}");
}

#[test]
fn encodes_escapes() {
    let out = encode_outgoing(&Outgoing::Thanks { name: String::from("a\"b\\c\nd") });
    assert_eq!(
        out,
        "{\"type\":\"thanks\",\"message\":{\"name\":\"a\\\"b\\\\c\\u000ad\"}}"
    );
}

#[test]
fn encoded_welcome_decodes_back() {
    for text in ["", "X", "quote \" and slash \\", "tab\tand\nnewline", "\u{65e5}\u{672c} \u{2713}"] {
        let encoded = encode_incoming(&Incoming::Welcome { hello: String::from(text) });
        assert_eq!(decoded_text(&encoded), Some(String::from(text)));
    }
}

#[test]
fn encoded_thanks_is_valid_json() {
    let out = encode_outgoing(&Outgoing::Thanks { name: String::from("line\nbreak \"q\" \\") });
    let v: serde_json::Value = serde_json::from_str(&out).unwrap();
    assert_eq!(v["type"].as_str(), Some("thanks"));
    assert_eq!(v["message"]["name"].as_str(), Some("line\nbreak \"q\" \\"));
}

#[test]
fn decode_agrees_with_serde_json() {
    let input = "{\"type\":\"welcome\",\"message\":{\"hello\":\"caf\\u00e9\"}}";
    let v: serde_json::Value = serde_json::from_str(input).unwrap();
    assert_eq!(
        decoded_text(input),
        Some(String::from(v["message"]["hello"].as_str().unwrap()))
    );
}
