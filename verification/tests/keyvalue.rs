use parsel::keyvalue::{parse_key_value_lines, split_header_line, vec_to_query_params};
use parsel::request::{has_content_type, parse_headers, parse_query_params, RequestHeader};

fn pairs(items: &[(&str, &str)]) -> Vec<(String, String)> {
    items.iter().map(|(k, v)| (k.to_string(), v.to_string())).collect()
}

#[test]
fn parses_pairs_and_drops_what_is_no_pair() {
    let input = "Accept: application/json\n\nX-Empty:\nBadLine\n : v";
    assert_eq!(
        parse_key_value_lines(input),
        pairs(&[("Accept", "application/json"), ("X-Empty", "")])
    );
}

#[test]
fn empty_input_gives_no_pairs() {
    assert_eq!(parse_key_value_lines(""), pairs(&[]));
    assert_eq!(parse_key_value_lines("\n\n   \n"), pairs(&[]));
}

#[test]
fn keeps_order_and_repeated_keys() {
    let input = "b: 1\na: 2\nb: 3";
    assert_eq!(parse_key_value_lines(input), pairs(&[("b", "1"), ("a", "2"), ("b", "3")]));
}

#[test]
fn cuts_at_the_first_colon_only() {
    assert_eq!(
        parse_key_value_lines("Host: example.com:8080"),
        pairs(&[("Host", "example.com:8080")])
    );
    assert_eq!(parse_key_value_lines("a::b"), pairs(&[("a", ":b")]));
}

#[test]
fn trims_keys_values_and_line_ends() {
    let input = "  key \t:  some value  \r\n\tnext:x\r\n";
    assert_eq!(parse_key_value_lines(input), pairs(&[("key", "some value"), ("next", "x")]));
}

#[test]
fn trims_unicode_whitespace() {
    let input = "\u{3000}k\u{a0}:\u{2003}v\u{85}";
    assert_eq!(parse_key_value_lines(input), pairs(&[("k", "v")]));
}

#[test]
fn counts_one_pair_for_each_good_line() {
    let mut input = String::new();
    for i in 0..50 {
        input.push_str(&format!("key{}: value{}\n", i, i));
        input.push_str("\n");
        input.push_str("no colon here\n");
        input.push_str(": no key\n");
    }
    let parsed = parse_key_value_lines(&input);
    assert_eq!(parsed.len(), 50);
    for (i, (k, v)) in parsed.iter().enumerate() {
        assert_eq!(k, &format!("key{}", i));
        assert_eq!(v, &format!("value{}", i));
    }
}

#[test]
fn query_lines_without_colon_or_key_are_dropped() {
    let lines = vec![
        "a: 1".to_string(),
        "novalue".to_string(),
        ":x".to_string(),
        " b :c:d ".to_string(),
    ];
    assert_eq!(vec_to_query_params(lines), pairs(&[("a", "1"), ("b", "c:d")]));
    let more = vec![
        "page: 2".to_string(),
        "flag".to_string(),
        "  : orphan".to_string(),
        "".to_string(),
        " q : a:b ".to_string(),
        "empty:".to_string(),
    ];
    assert_eq!(vec_to_query_params(more), pairs(&[("page", "2"), ("q", "a:b"), ("empty", "")]));
    assert_eq!(vec_to_query_params(Vec::new()), pairs(&[]));
}

#[test]
fn query_params_come_from_the_field() {
    assert_eq!(parse_query_params("a: 1\nb: 2"), pairs(&[("a", "1"), ("b", "2")]));
}

#[test]
fn headers_come_from_the_field_as_custom_headers() {
    let headers = parse_headers("Accept: text/html\nX-Id: 7");
    assert_eq!(headers.len(), 2);
    assert!(matches!(&headers[0], RequestHeader::Custom(n, v) if n == "Accept" && v == "text/html"));
    assert!(matches!(&headers[1], RequestHeader::Custom(n, v) if n == "X-Id" && v == "7"));
}

#[test]
fn content_type_is_found_in_any_case() {
    assert!(has_content_type(&parse_headers("content-TYPE: text/plain")));
    assert!(has_content_type(&vec![RequestHeader::ContentType("a/b".to_string())]));
    assert!(!has_content_type(&parse_headers("Accept: text/plain\nContent-Typ: x")));
    assert!(!has_content_type(&Vec::new()));
}

#[test]
fn header_lines_are_cut_at_the_first_colon() {
    assert_eq!(
        split_header_line("Accept: application/json"),
        Some(("Accept".to_string(), "application/json".to_string()))
    );
    assert_eq!(
        split_header_line("Accept-Language: en-US,en;q=0.5.to"),
        Some(("Accept-Language".to_string(), "en-US,en;q=0.5.to".to_string()))
    );
    assert_eq!(split_header_line(" a :b: c "), Some(("a".to_string(), "b: c".to_string())));
    assert_eq!(split_header_line("X-Empty:"), Some(("X-Empty".to_string(), "".to_string())));
    assert_eq!(split_header_line("name"), None);
    assert_eq!(split_header_line(" : v"), None);
    assert_eq!(split_header_line(""), None);
}
