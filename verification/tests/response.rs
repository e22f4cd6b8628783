use parsel::response::{
    classify_failure, decimal_string, find_content_type, join_headers, status_text,
    unique_headers, FailureSigns, ResponseRecord, TransportFailure,
};

fn pairs(items: &[(&str, &str)]) -> Vec<(String, String)> {
    items.iter().map(|(k, v)| (k.to_string(), v.to_string())).collect()
}

#[test]
fn numbers_are_written_in_decimal() {
    assert_eq!(decimal_string(0), "0");
    assert_eq!(decimal_string(7), "7");
    assert_eq!(decimal_string(10), "10");
    assert_eq!(decimal_string(404), "404");
    assert_eq!(decimal_string(u128::MAX), u128::MAX.to_string());
}

#[test]
fn last_header_value_wins_at_the_first_place() {
    assert_eq!(
        unique_headers(pairs(&[("a", "1"), ("b", "2"), ("a", "3"), ("c", "4"), ("b", "5")])),
        pairs(&[("a", "3"), ("b", "5"), ("c", "4")])
    );
    assert_eq!(unique_headers(Vec::new()), pairs(&[]));
    assert_eq!(unique_headers(pairs(&[("A", "1"), ("a", "2")])), pairs(&[("A", "1"), ("a", "2")]));
}

#[test]
fn record_keeps_each_header_once() {
    let record = ResponseRecord::new(
        200,
        "OK".to_string(),
        pairs(&[("x", "1"), ("x", "2")]),
        "body".to_string(),
        12,
    );
    assert_eq!(record.headers, pairs(&[("x", "2")]));
    assert_eq!(record.status, 200);
    assert_eq!(record.body, "body");
    assert_eq!(record.elapsed_ms, 12);
    assert_eq!(record.status_line(), "200 OK");
}

#[test]
fn content_type_is_the_first_header_of_that_name() {
    let headers = pairs(&[("Server", "x"), ("CONTENT-type", "text/html"), ("content-type", "a/b")]);
    assert_eq!(find_content_type(&headers).as_deref(), Some("text/html"));
    assert_eq!(find_content_type(&pairs(&[("Server", "x")])), None);
}

#[test]
fn headers_are_joined_line_by_line() {
    assert_eq!(
        join_headers(&pairs(&[("a", "1"), ("b", "2 3")])).as_deref(),
        Some("a: 1\nb: 2 3")
    );
    assert_eq!(join_headers(&pairs(&[("only", "")])).as_deref(), Some("only: "));
    assert_eq!(join_headers(&Vec::new()), None);
}

#[test]
fn common_status_codes_have_a_reason() {
    assert_eq!(status_text(200), "OK");
    assert_eq!(status_text(201), "Created");
    assert_eq!(status_text(204), "No Content");
    assert_eq!(status_text(400), "Bad Request");
    assert_eq!(status_text(401), "Unauthorized");
    assert_eq!(status_text(403), "Forbidden");
    assert_eq!(status_text(404), "Not found");
    assert_eq!(status_text(500), "Unknown");
}

#[test]
fn each_failure_has_its_own_message() {
    let url = TransportFailure::InvalidUrl.message();
    let connect = TransportFailure::Connect.message();
    let other = TransportFailure::Other.message();
    assert_eq!(url, "Failed to make the request please check the URL");
    assert_eq!(connect, "Failed to connect to the internet, please check your connection");
    assert_eq!(other, "Could not make the request due to an unknown reason");
    assert_ne!(url, connect);
    assert_ne!(url, other);
    assert_ne!(connect, other);
}

#[test]
fn failures_are_told_by_their_signs() {
    let none = FailureSigns {
        invalid_url: false,
        url_malformed: false,
        unsupported_protocol: false,
        could_not_connect: false,
        could_not_resolve_host: false,
        could_not_resolve_proxy: false,
    };
    assert_eq!(classify_failure(none), TransportFailure::Other);
    assert_eq!(classify_failure(FailureSigns { invalid_url: true, ..none }), TransportFailure::InvalidUrl);
    assert_eq!(classify_failure(FailureSigns { url_malformed: true, ..none }), TransportFailure::InvalidUrl);
    assert_eq!(
        classify_failure(FailureSigns { unsupported_protocol: true, could_not_connect: true, ..none }),
        TransportFailure::InvalidUrl
    );
    assert_eq!(classify_failure(FailureSigns { could_not_connect: true, ..none }), TransportFailure::Connect);
    assert_eq!(classify_failure(FailureSigns { could_not_resolve_host: true, ..none }), TransportFailure::Connect);
    assert_eq!(classify_failure(FailureSigns { could_not_resolve_proxy: true, ..none }), TransportFailure::Connect);
}
