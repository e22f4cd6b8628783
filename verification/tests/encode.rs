use parsel::encode::{form_encode, json_from_pairs};
use parsel::panel::BodyMode;
use parsel::request::{build_request, encode_body, BodyPayload, HttpMethod, RequestHeader};

fn pairs(items: &[(&str, &str)]) -> Vec<(String, String)> {
    items.iter().map(|(k, v)| (k.to_string(), v.to_string())).collect()
}

#[test]
fn json_body_parses_back_to_the_pairs() {
    let text = json_from_pairs(pairs(&[("a", "1"), ("b", "2")])).unwrap();
    let value: serde_json::Value = serde_json::from_str(&text).unwrap();
    let object = value.as_object().unwrap();
    assert_eq!(object.len(), 2);
    assert_eq!(object.get("a").unwrap().as_str(), Some("1"));
    assert_eq!(object.get("b").unwrap().as_str(), Some("2"));
}

#[test]
fn json_body_is_compact_and_sorted_by_key() {
    assert_eq!(
        json_from_pairs(pairs(&[("b", "1"), ("a", "2")])).as_deref(),
        Some(r#"{"a":"2","b":"1"}"#)
    );
    assert_eq!(
        json_from_pairs(pairs(&[("a", "2"), ("b", "1")])).as_deref(),
        Some(r#"{"a":"2","b":"1"}"#)
    );
}

#[test]
fn json_body_keeps_the_last_value_of_a_key() {
    assert_eq!(
        json_from_pairs(pairs(&[("a", "1"), ("b", "2"), ("a", "3")])).as_deref(),
        Some(r#"{"a":"3","b":"2"}"#)
    );
}

#[test]
fn json_body_has_string_values_only() {
    assert_eq!(
        json_from_pairs(pairs(&[("n", "42"), ("t", "true"), ("q", "say \"hi\"")])).as_deref(),
        Some(r#"{"n":"42","q":"say \"hi\"","t":"true"}"#)
    );
}

#[test]
fn no_pairs_give_no_json_body() {
    assert_eq!(json_from_pairs(Vec::new()), None);
    assert!(json_from_pairs(pairs(&[("", "")])).is_some());
    assert_eq!(json_from_pairs(pairs(&[("\u{1}", "\n\u{7f}é")])).as_deref(), Some("{\"\\u0001\":\"\\n\u{7f}é\"}"));
}

#[test]
fn form_body_keeps_order_and_encodes_spaces() {
    assert_eq!(form_encode(pairs(&[("q", "a b"), ("k", "v")])), "q=a%20b&k=v");
}

#[test]
fn form_body_escapes_bytes_in_upper_case_hex() {
    assert_eq!(form_encode(pairs(&[("n", "é&=+~*-._")])), "n=%C3%A9%26%3D%2B%7E*-._");
    assert_eq!(form_encode(pairs(&[("a+b c", " + ")])), "a%2Bb%20c=%20%2B%20");
    assert_eq!(form_encode(pairs(&[("", "")])), "=");
    assert_eq!(form_encode(pairs(&[("", ""), ("a", "")])), "=&a=");
}

#[test]
fn no_pairs_give_an_empty_form_string() {
    assert_eq!(form_encode(Vec::new()), "");
}

#[test]
fn body_follows_the_body_mode() {
    assert!(matches!(
        encode_body(BodyMode::Json, "a: 1"),
        Some(BodyPayload::Json(text)) if text == r#"{"a":"1"}"#
    ));
    assert!(matches!(
        encode_body(BodyMode::Form, "a: 1\nb: x y"),
        Some(BodyPayload::Form(text)) if text == "a=1&b=x%20y"
    ));
    assert!(encode_body(BodyMode::Json, "").is_none());
    assert!(encode_body(BodyMode::Form, "no pair here").is_none());
}

#[test]
fn form_request_brings_its_content_type() {
    let request = build_request(HttpMethod::Post, "https://example.com", "", "", BodyMode::Form, "x: 1");
    assert!(matches!(&request.body, Some(BodyPayload::Form(text)) if text == "x=1"));
    assert_eq!(request.headers.len(), 1);
    assert!(matches!(
        &request.headers[0],
        RequestHeader::ContentType(value) if value == "application/x-www-form-urlencoded"
    ));
    assert_eq!(request.url, "https://example.com");
    assert_eq!(request.method, HttpMethod::Post);
    assert!(request.query.is_empty());
    assert!(!request.brotli);
}

#[test]
fn form_request_keeps_a_given_content_type() {
    let request = build_request(
        HttpMethod::Post,
        "u",
        "",
        "content-type: text/plain",
        BodyMode::Form,
        "x: 1",
    );
    assert_eq!(request.headers.len(), 1);
    assert!(matches!(
        &request.headers[0],
        RequestHeader::Custom(name, value) if name == "content-type" && value == "text/plain"
    ));
}

#[test]
fn request_without_form_body_gets_no_content_type() {
    let json = build_request(HttpMethod::Post, "u", "", "", BodyMode::Json, "x: 1");
    assert!(json.headers.is_empty());
    assert!(matches!(&json.body, Some(BodyPayload::Json(text)) if text == r#"{"x":"1"}"#));
    let empty = build_request(HttpMethod::Get, "u", "", "", BodyMode::Form, "");
    assert!(empty.headers.is_empty());
    assert!(empty.body.is_none());
}

#[test]
fn request_takes_query_headers_and_brotli_from_the_form() {
    let request = build_request(
        HttpMethod::Get,
        "https://example.com/a",
        "page: 2\nq: rust",
        "Accept: */*\naccept-encoding: BR",
        BodyMode::Json,
        "",
    );
    assert_eq!(request.query, pairs(&[("page", "2"), ("q", "rust")]));
    assert_eq!(request.headers.len(), 2);
    assert!(request.brotli);
    let plain = build_request(HttpMethod::Get, "u", "", "Accept-Encoding: gzip", BodyMode::Json, "");
    assert!(!plain.brotli);
}
