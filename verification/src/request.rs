//! The request that a send hands to the transport: method, URL, query
//! parameters, headers and encoded body, all taken from the form at once.

use vstd::prelude::*;
use crate::encode::{form_encode, form_encoded, json_body, json_from_pairs};
use crate::keyvalue::{key_values, pairs_view, parse_key_value_lines};
use crate::panel::BodyMode;
use crate::text::{eq_ignore_case, same_ignoring_case};

verus! {

/// The request methods, in the order in which the method keys cycle them.
#[derive(Debug, Copy, Clone, PartialEq, Eq, Structural)]
pub enum HttpMethod {
    Get,
    Post,
    Put,
    Delete,
    Patch,
    Head,
    Options,
    Connect,
    Trace,
}

/// A request header: the content type in its own slot, or a name and a value.
#[derive(Debug, Clone)]
pub enum RequestHeader {
    ContentType(String),
    Custom(String, String),
}

/// An encoded request body.
#[derive(Debug, Clone)]
pub enum BodyPayload {
    Json(String),
    Form(String),
}

/// Everything that one request needs. It shares nothing with the form it
/// was taken from.
#[derive(Debug, Clone)]
pub struct PendingRequest {
    pub method: HttpMethod,
    pub url: String,
    pub query: Vec<(String, String)>,
    pub headers: Vec<RequestHeader>,
    pub body: Option<BodyPayload>,
    pub brotli: bool,
}

/// A request header as the contracts see it.
pub enum HeaderModel {
    ContentType(Seq<char>),
    Custom(Seq<char>, Seq<char>),
}

/// An encoded body as the contracts see it.
pub enum PayloadModel {
    Json(Seq<char>),
    Form(Seq<char>),
}

/// A request as the contracts see it.
pub struct RequestModel {
    pub method: HttpMethod,
    pub url: Seq<char>,
    pub query: Seq<(Seq<char>, Seq<char>)>,
    pub headers: Seq<HeaderModel>,
    pub body: Option<PayloadModel>,
    pub brotli: bool,
}

impl Default for HttpMethod {
    fn default() -> (r: HttpMethod)
        ensures
            r == HttpMethod::Get,
    {
        HttpMethod::Get
    }
}

impl View for RequestHeader {
    type V = HeaderModel;

    open spec fn view(&self) -> HeaderModel {
        match self {
            RequestHeader::ContentType(value) => HeaderModel::ContentType(value@),
            RequestHeader::Custom(name, value) => HeaderModel::Custom(name@, value@),
        }
    }
}

impl View for BodyPayload {
    type V = PayloadModel;

    open spec fn view(&self) -> PayloadModel {
        match self {
            BodyPayload::Json(text) => PayloadModel::Json(text@),
            BodyPayload::Form(text) => PayloadModel::Form(text@),
        }
    }
}

/// The headers as the contracts see them.
pub open spec fn headers_view(headers: Seq<RequestHeader>) -> Seq<HeaderModel> {
    headers.map_values(|h: RequestHeader| h@)
}

/// The body as the contracts see it.
pub open spec fn payload_view(body: Option<BodyPayload>) -> Option<PayloadModel> {
    match body {
        Some(b) => Some(b@),
        None => None,
    }
}

impl View for PendingRequest {
    type V = RequestModel;

    open spec fn view(&self) -> RequestModel {
        RequestModel {
            method: self.method,
            url: self.url@,
            query: pairs_view(self.query@),
            headers: headers_view(self.headers@),
            body: payload_view(self.body),
            brotli: self.brotli,
        }
    }
}

impl HttpMethod {
    /// The method that follows in the cycle.
    pub open spec fn spec_next(self) -> HttpMethod {
        match self {
            HttpMethod::Get => HttpMethod::Post,
            HttpMethod::Post => HttpMethod::Put,
            HttpMethod::Put => HttpMethod::Delete,
            HttpMethod::Delete => HttpMethod::Patch,
            HttpMethod::Patch => HttpMethod::Head,
            HttpMethod::Head => HttpMethod::Options,
            HttpMethod::Options => HttpMethod::Connect,
            HttpMethod::Connect => HttpMethod::Trace,
            HttpMethod::Trace => HttpMethod::Get,
        }
    }

    /// The method that comes before in the cycle.
    pub open spec fn spec_prev(self) -> HttpMethod {
        match self {
            HttpMethod::Get => HttpMethod::Trace,
            HttpMethod::Post => HttpMethod::Get,
            HttpMethod::Put => HttpMethod::Post,
            HttpMethod::Delete => HttpMethod::Put,
            HttpMethod::Patch => HttpMethod::Delete,
            HttpMethod::Head => HttpMethod::Patch,
            HttpMethod::Options => HttpMethod::Head,
            HttpMethod::Connect => HttpMethod::Options,
            HttpMethod::Trace => HttpMethod::Connect,
        }
    }

    /// The method reached by `k` steps forward.
    pub open spec fn next_times(self, k: nat) -> HttpMethod
        decreases k,
    {
        if k == 0 {
            self
        } else {
            self.spec_next().next_times((k - 1) as nat)
        }
    }

    /// The method's name as it stands on the wire.
    pub open spec fn spec_label(self) -> Seq<char> {
        match self {
            HttpMethod::Get => "GET"@,
            HttpMethod::Post => "POST"@,
            HttpMethod::Put => "PUT"@,
            HttpMethod::Delete => "DELETE"@,
            HttpMethod::Patch => "PATCH"@,
            HttpMethod::Head => "HEAD"@,
            HttpMethod::Options => "OPTIONS"@,
            HttpMethod::Connect => "CONNECT"@,
            HttpMethod::Trace => "TRACE"@,
        }
    }

    /// The method that follows in the cycle.
    #[verifier::when_used_as_spec(spec_next)]
    pub fn next(self) -> (r: HttpMethod)
        ensures
            r == self.spec_next(),
    {
        match self {
            HttpMethod::Get => HttpMethod::Post,
            HttpMethod::Post => HttpMethod::Put,
            HttpMethod::Put => HttpMethod::Delete,
            HttpMethod::Delete => HttpMethod::Patch,
            HttpMethod::Patch => HttpMethod::Head,
            HttpMethod::Head => HttpMethod::Options,
            HttpMethod::Options => HttpMethod::Connect,
            HttpMethod::Connect => HttpMethod::Trace,
            HttpMethod::Trace => HttpMethod::Get,
        }
    }

    /// The method that comes before in the cycle.
    #[verifier::when_used_as_spec(spec_prev)]
    pub fn prev(self) -> (r: HttpMethod)
        ensures
            r == self.spec_prev(),
    {
        match self {
            HttpMethod::Get => HttpMethod::Trace,
            HttpMethod::Post => HttpMethod::Get,
            HttpMethod::Put => HttpMethod::Post,
            HttpMethod::Delete => HttpMethod::Put,
            HttpMethod::Patch => HttpMethod::Delete,
            HttpMethod::Head => HttpMethod::Patch,
            HttpMethod::Options => HttpMethod::Head,
            HttpMethod::Connect => HttpMethod::Options,
            HttpMethod::Trace => HttpMethod::Connect,
        }
    }

    /// The method's name as it stands on the wire.
    pub fn label(self) -> (r: &'static str)
        ensures
            r@ == self.spec_label(),
    {
        match self {
            HttpMethod::Get => "GET",
            HttpMethod::Post => "POST",
            HttpMethod::Put => "PUT",
            HttpMethod::Delete => "DELETE",
            HttpMethod::Patch => "PATCH",
            HttpMethod::Head => "HEAD",
            HttpMethod::Options => "OPTIONS",
            HttpMethod::Connect => "CONNECT",
            HttpMethod::Trace => "TRACE",
        }
    }

    /// Nine steps forward, one for each method, lead back to the start.
    pub proof fn lemma_cycle_closes(self)
        ensures
            self.next_times(9) == self,
    {
        reveal_with_fuel(HttpMethod::next_times, 10);
    }

    /// A step back undoes a step forward, and a step forward a step back.
    pub proof fn lemma_prev_undoes_next(self)
        ensures
            self.next().prev() == self,
            self.prev().next() == self,
    {
    }
}

/// Whether the header gives the content type: the content type slot, or a
/// name that reads `content-type` in any case.
pub open spec fn names_content_type(h: HeaderModel) -> bool {
    match h {
        HeaderModel::ContentType(_) => true,
        HeaderModel::Custom(name, _) => same_ignoring_case(name, "content-type"@),
    }
}

/// Whether one of the headers gives the content type.
pub open spec fn any_content_type(headers: Seq<HeaderModel>) -> bool {
    exists|i: int| 0 <= i < headers.len() && names_content_type(#[trigger] headers[i])
}

/// Whether the header asks for a Brotli response: `Accept-Encoding: br`,
/// in any case.
pub open spec fn asks_brotli(h: HeaderModel) -> bool {
    match h {
        HeaderModel::ContentType(_) => false,
        HeaderModel::Custom(name, value) => same_ignoring_case(name, "Accept-Encoding"@)
            && same_ignoring_case(value, "br"@),
    }
}

/// Whether one of the headers asks for a Brotli response.
pub open spec fn any_brotli(headers: Seq<HeaderModel>) -> bool {
    exists|i: int| 0 <= i < headers.len() && asks_brotli(#[trigger] headers[i])
}

/// The pairs as headers, each under its own name.
pub open spec fn custom_headers(pairs: Seq<(Seq<char>, Seq<char>)>) -> Seq<HeaderModel> {
    pairs.map_values(|p: (Seq<char>, Seq<char>)| HeaderModel::Custom(p.0, p.1))
}

/// The body that the body field encodes to. Its pairs become a JSON object
/// or a form string by the mode; no pairs, or an empty encoding, give no
/// body.
pub open spec fn body_payload(mode: BodyMode, body_text: Seq<char>) -> Option<PayloadModel> {
    match mode {
        BodyMode::Json => match json_body(key_values(body_text)) {
            Some(text) => Some(PayloadModel::Json(text)),
            None => None,
        },
        BodyMode::Form => {
            let text = form_encoded(key_values(body_text));
            if text.len() == 0 {
                None
            } else {
                Some(PayloadModel::Form(text))
            }
        },
    }
}

/// The headers that go out: those of the form, and the form content type
/// behind them where a form body goes out and no header gives a content
/// type.
pub open spec fn sent_headers(headers: Seq<HeaderModel>, body: Option<PayloadModel>) -> Seq<
    HeaderModel,
> {
    if body matches Some(PayloadModel::Form(_)) && !any_content_type(headers) {
        headers.push(HeaderModel::ContentType("application/x-www-form-urlencoded"@))
    } else {
        headers
    }
}

/// The request that the form stands for.
pub open spec fn request_for(
    method: HttpMethod,
    url: Seq<char>,
    query_text: Seq<char>,
    headers_text: Seq<char>,
    mode: BodyMode,
    body_text: Seq<char>,
) -> RequestModel {
    let body = body_payload(mode, body_text);
    let headers = sent_headers(custom_headers(key_values(headers_text)), body);
    RequestModel {
        method,
        url,
        query: key_values(query_text),
        headers,
        body,
        brotli: any_brotli(headers),
    }
}

/// The query parameters that the lines of the query field stand for.
pub fn parse_query_params(input: &str) -> (params: Vec<(String, String)>)
    ensures
        pairs_view(params@) == key_values(input@),
{
    parse_key_value_lines(input)
}

/// The headers that the lines of the headers field stand for.
pub fn parse_headers(input: &str) -> (headers: Vec<RequestHeader>)
    ensures
        headers_view(headers@) == custom_headers(key_values(input@)),
{
    let pairs = parse_key_value_lines(input);
    let mut headers: Vec<RequestHeader> = Vec::new();
    let mut k: usize = 0;
    while k < pairs.len()
        invariant
            k <= pairs.len(),
            headers.len() == k,
            forall|i: int|
                0 <= i < k ==> (#[trigger] headers@[i])@ == HeaderModel::Custom(
                    pairs@[i].0@,
                    pairs@[i].1@,
                ),
        decreases pairs.len() - k,
    {
        headers.push(RequestHeader::Custom(pairs[k].0.clone(), pairs[k].1.clone()));
        k += 1;
    }
    assert(headers_view(headers@) =~= custom_headers(pairs_view(pairs@)));
    headers
}

/// Whether one of the headers gives the content type.
pub fn has_content_type(headers: &Vec<RequestHeader>) -> (r: bool)
    ensures
        r == any_content_type(headers_view(headers@)),
{
    let mut k: usize = 0;
    while k < headers.len()
        invariant
            k <= headers.len(),
            forall|i: int| 0 <= i < k ==> !names_content_type(#[trigger] headers_view(headers@)[i]),
        decreases headers.len() - k,
    {
        let found = match &headers[k] {
            RequestHeader::ContentType(_) => true,
            RequestHeader::Custom(name, _) => eq_ignore_case(name.as_str(), "content-type"),
        };
        if found {
            assert(names_content_type(headers_view(headers@)[k as int]));
            return true;
        }
        k += 1;
    }
    false
}

/// Whether one of the headers asks for a Brotli response.
pub fn wants_brotli(headers: &Vec<RequestHeader>) -> (r: bool)
    ensures
        r == any_brotli(headers_view(headers@)),
{
    let mut k: usize = 0;
    while k < headers.len()
        invariant
            k <= headers.len(),
            forall|i: int| 0 <= i < k ==> !asks_brotli(#[trigger] headers_view(headers@)[i]),
        decreases headers.len() - k,
    {
        let found = match &headers[k] {
            RequestHeader::ContentType(_) => false,
            RequestHeader::Custom(name, value) => eq_ignore_case(name.as_str(), "Accept-Encoding")
                && eq_ignore_case(value.as_str(), "br"),
        };
        if found {
            assert(asks_brotli(headers_view(headers@)[k as int]));
            return true;
        }
        k += 1;
    }
    false
}

/// Encodes the body field by the body mode. The pairs of the field become a
/// JSON object with string values, or a form string; a field without pairs
/// gives no body.
pub fn encode_body(mode: BodyMode, body_text: &str) -> (body: Option<BodyPayload>)
    ensures
        payload_view(body) == body_payload(mode, body_text@),
{
    let pairs = parse_key_value_lines(body_text);
    match mode {
        BodyMode::Json => match json_from_pairs(pairs) {
            Some(text) => Some(BodyPayload::Json(text)),
            None => None,
        },
        BodyMode::Form => {
            let text = form_encode(pairs);
            if text.as_str().is_empty() {
                None
            } else {
                Some(BodyPayload::Form(text))
            }
        },
    }
}

/// Takes the request from the form: the URL as it stands, the query
/// parameters and headers parsed from their fields, the body encoded by the
/// body mode. A form body brings its content type along unless a header
/// gives one already.
pub fn build_request(
    method: HttpMethod,
    url: &str,
    query_text: &str,
    headers_text: &str,
    mode: BodyMode,
    body_text: &str,
) -> (request: PendingRequest)
    ensures
        request@ == request_for(method, url@, query_text@, headers_text@, mode, body_text@),
{
    let query = parse_query_params(query_text);
    let mut headers = parse_headers(headers_text);
    let body = encode_body(mode, body_text);
    let form = match &body {
        Some(BodyPayload::Form(_)) => true,
        _ => false,
    };
    if form && !has_content_type(&headers) {
        let ghost prior = headers@;
        headers.push(RequestHeader::ContentType("application/x-www-form-urlencoded".to_owned()));
        assert(headers_view(headers@) =~= headers_view(prior).push(
            HeaderModel::ContentType("application/x-www-form-urlencoded"@),
        ));
    }
    let brotli = wants_brotli(&headers);
    PendingRequest { method, url: url.to_owned(), query, headers, body, brotli }
}

} // verus!
