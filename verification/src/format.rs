//! Pretty-printing of a response body by its content type.

use vstd::prelude::*;
use crate::html::{format_html, html_formatted};
use crate::html_laws::lemma_html_format_is_stable;
use crate::text::{
    ascii_lower, chars_of, find_char, first_index, opt_view, same_text, to_lower, trim,
    trim_range,
};

verus! {

/// What a content type says about the body's syntax.
#[derive(Debug, Copy, Clone, PartialEq, Eq, Structural)]
pub enum ContentKind {
    Json,
    Html,
    Other,
}

/// A JSON value that was read from a text. No other way leads to one, so
/// its nesting is as shallow as the reader allows.
pub struct JsonDocument {
    value: serde_json::Value,
}

/// The document that `serde_json` reads from a text, if the text is JSON.
pub uninterp spec fn json_value_of(text: Seq<char>) -> Option<JsonDocument>;

/// The indented JSON text that `serde_json` writes for a document.
pub uninterp spec fn json_pretty_text(document: JsonDocument) -> Option<Seq<char>>;

/// The text of an optional string slice.
pub open spec fn opt_str_view(o: Option<&str>) -> Option<Seq<char>> {
    match o {
        Some(s) => Some(s@),
        None => None,
    }
}

/// The media type of a content type: what stands before the first `;`,
/// trimmed and in lower case.
pub open spec fn media_type(content_type: Seq<char>) -> Seq<char> {
    ascii_lower(trim(content_type.take(first_index(content_type, ';'))))
}

/// The kind of body that a content type announces.
pub open spec fn content_kind(content_type: Option<Seq<char>>) -> ContentKind {
    match content_type {
        None => ContentKind::Other,
        Some(t) => {
            let m = media_type(t);
            if m == "application/json"@ || m == "text/json"@ || m == "application/ld+json"@ {
                ContentKind::Json
            } else if m == "text/html"@ {
                ContentKind::Html
            } else {
                ContentKind::Other
            }
        },
    }
}

/// The indented form of a JSON text; `None` when the text is not JSON.
pub open spec fn json_formatted(body: Seq<char>) -> Option<Seq<char>> {
    match json_value_of(body) {
        Some(value) => json_pretty_text(value),
        None => None,
    }
}

/// The display form of a body: indented JSON or re-indented HTML by the
/// content type; `None` where the body is to be shown as it is.
pub open spec fn formatted_body(body: Seq<char>, content_type: Option<Seq<char>>) -> Option<
    Seq<char>,
> {
    match content_kind(content_type) {
        ContentKind::Json => json_formatted(body),
        ContentKind::Html => html_formatted(body),
        ContentKind::Other => None,
    }
}

/// What the response panel shows while there is no response.
pub open spec fn placeholder() -> Seq<char> {
    "No response yet\n\nPress Enter to send request"@
}

/// The text that the response panel shows: the cached display form where
/// there is one, else the display form of the body, else the body itself,
/// and a placeholder while there is no body.
pub open spec fn displayed(
    body: Option<Seq<char>>,
    cached: Option<Seq<char>>,
    content_type: Option<Seq<char>>,
) -> Seq<char> {
    match cached {
        Some(text) => text,
        None => match body {
            Some(b) => match formatted_body(b, content_type) {
                Some(text) => text,
                None => b,
            },
            None => placeholder(),
        },
    }
}

/// `serde_json::from_str` for a `Value`: the document read, or nothing
/// where the text is not JSON.
#[verifier::external_body]
fn json_parse(text: &str) -> (r: Option<JsonDocument>)
    ensures
        r == json_value_of(text@),
{
    serde_json::from_str::<serde_json::Value>(text).ok().map(|value| JsonDocument { value })
}

/// `serde_json::to_string_pretty` on the value of a document: its indented
/// JSON text. A text always comes back: the writer is a byte vector, the
/// keys of a `Value` are strings, and no value of it refuses to be written.
/// The text is JSON, and `serde_json` reads from it the document that it
/// was written for: strings, arrays and objects are written in the syntax
/// that the reader reads, whole numbers digit for digit, and other numbers
/// with the fewest digits that lead back to them, which the reader built
/// with `float_roundtrip`, as it is here, reads exactly.
#[verifier::external_body]
fn json_pretty(document: &JsonDocument) -> (r: Option<String>)
    ensures
        r is Some,
        opt_view(r) == json_pretty_text(*document),
        r matches Some(text) ==> json_value_of(text@) == Some(*document),
{
    serde_json::to_string_pretty(&document.value).ok()
}

/// Tells the kind of body from the content type. Parameters after a `;`,
/// surrounding whitespace and the case of ASCII letters do not count.
pub fn classify(content_type: Option<&str>) -> (kind: ContentKind)
    ensures
        kind == content_kind(opt_str_view(content_type)),
{
    match content_type {
        None => ContentKind::Other,
        Some(text) => {
            let v = chars_of(text);
            let semi = find_char(&v, 0, v.len(), ';');
            let (a, b) = trim_range(&v, 0, semi);
            let mut m: Vec<char> = Vec::new();
            let mut i: usize = a;
            while i < b
                invariant
                    a <= i <= b <= v.len(),
                    m@ == ascii_lower(v@.subrange(a as int, i as int)),
                decreases b - i,
            {
                m.push(to_lower(v[i]));
                i += 1;
                assert(m@ =~= ascii_lower(v@.subrange(a as int, i as int)));
            }
            proof {
                assert(v@.subrange(0, v.len() as int) =~= v@);
                assert(v@.take(semi as int) =~= v@.subrange(0, semi as int));
                assert(m@ == media_type(text@));
            }
            if same_text(&m, "application/json") || same_text(&m, "text/json") || same_text(
                &m,
                "application/ld+json",
            ) {
                ContentKind::Json
            } else if same_text(&m, "text/html") {
                ContentKind::Html
            } else {
                ContentKind::Other
            }
        },
    }
}

/// Re-writes a JSON text with indentation; `None` when the text is not JSON.
pub fn format_json(body: &str) -> (r: Option<String>)
    ensures
        opt_view(r) == json_formatted(body@),
        r is Some <==> json_value_of(body@) is Some,
        r matches Some(text) ==> json_value_of(text@) == json_value_of(body@),
        r matches Some(text) ==> json_formatted(text@) == Some(text@),
{
    match json_parse(body) {
        Some(document) => json_pretty(&document),
        None => None,
    }
}

/// Pretty-prints a body by its content type: JSON is re-written with
/// indentation, HTML is re-indented. `None` for any other content type, for
/// malformed JSON and for HTML without a token: the body is then shown as it
/// is.
pub fn format_body(body: &str, content_type: Option<&str>) -> (r: Option<String>)
    ensures
        opt_view(r) == formatted_body(body@, opt_str_view(content_type)),
        content_kind(opt_str_view(content_type)) == ContentKind::Json ==> (r is Some
            <==> json_value_of(body@) is Some),
        content_kind(opt_str_view(content_type)) == ContentKind::Json ==> (r matches Some(text)
            ==> json_value_of(text@) == json_value_of(body@)),
        r matches Some(text) ==> formatted_body(text@, opt_str_view(content_type)) == Some(text@),
{
    match classify(content_type) {
        ContentKind::Json => format_json(body),
        ContentKind::Html => {
            proof {
                if html_formatted(body@) is Some {
                    lemma_html_format_is_stable(body@);
                }
            }
            format_html(body)
        },
        ContentKind::Other => None,
    }
}

/// The display form of a response body, if there is a body and it has one.
pub fn format_for_display(body: Option<&str>, content_type: Option<&str>) -> (r: Option<String>)
    ensures
        opt_view(r) == match opt_str_view(body) {
            Some(b) => formatted_body(b, opt_str_view(content_type)),
            None => None,
        },
        content_kind(opt_str_view(content_type)) == ContentKind::Json ==> (r is Some <==> (
        opt_str_view(body) matches Some(b) && json_value_of(b) is Some)),
        r matches Some(text) ==> formatted_body(text@, opt_str_view(content_type)) == Some(text@),
{
    match body {
        Some(text) => format_body(text, content_type),
        None => None,
    }
}

/// The text that the response panel shows.
pub fn display_content(
    body: Option<&str>,
    formatted_body: Option<&str>,
    content_type: Option<&str>,
) -> (r: String)
    ensures
        r@ == displayed(
            opt_str_view(body),
            opt_str_view(formatted_body),
            opt_str_view(content_type),
        ),
{
    if let Some(formatted) = formatted_body {
        return formatted.to_owned();
    }
    match body {
        Some(text) => match format_body(text, content_type) {
            Some(formatted) => formatted,
            None => text.to_owned(),
        },
        None => "No response yet\n\nPress Enter to send request".to_owned(),
    }
}

} // verus!
