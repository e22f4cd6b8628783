//! What comes back from the transport: the response record, the lines that
//! the response panels show for it, and the messages for failures.

use vstd::prelude::*;
use crate::keyvalue::{key_index, last_wins, pairs_view, put_entry};
use crate::text::{eq_ignore_case, join_lines, opt_view, same_ignoring_case, string_of};

verus! {

/// A completed response. `ResponseRecord::new` keeps each header name
/// once; a record that is put together field by field is well formed only
/// if its header names differ.
#[derive(Debug, Clone)]
pub struct ResponseRecord {
    pub status: u16,
    pub status_text: String,
    pub headers: Vec<(String, String)>,
    pub body: String,
    pub elapsed_ms: u128,
}

/// A response as the contracts see it.
pub struct RecordModel {
    pub status: u16,
    pub status_text: Seq<char>,
    pub headers: Seq<(Seq<char>, Seq<char>)>,
    pub body: Seq<char>,
    pub elapsed_ms: u128,
}

/// The ways in which the transport fails.
#[derive(Debug, Copy, Clone, PartialEq, Eq, Structural)]
pub enum TransportFailure {
    /// The URL is malformed or cannot be reached as written.
    InvalidUrl,
    /// No connection could be made.
    Connect,
    /// Anything else.
    Other,
}

impl View for ResponseRecord {
    type V = RecordModel;

    open spec fn view(&self) -> RecordModel {
        RecordModel {
            status: self.status,
            status_text: self.status_text@,
            headers: pairs_view(self.headers@),
            body: self.body@,
            elapsed_ms: self.elapsed_ms,
        }
    }
}

/// The decimal digit for a value below ten.
pub open spec fn digit(d: nat) -> char {
    (0x30 + d) as u8 as char
}

/// The decimal digits of a number, without leading zeros.
pub open spec fn decimal(n: nat) -> Seq<char>
    decreases n,
{
    if n < 10 {
        seq![digit(n)]
    } else {
        decimal(n / 10).push(digit(n % 10))
    }
}

/// Whether no key occurs twice among the entries.
pub open spec fn keys_unique(entries: Seq<(Seq<char>, Seq<char>)>) -> bool {
    forall|i: int, j: int|
        0 <= i < j < entries.len() ==> (#[trigger] entries[i]).0 != (#[trigger] entries[j]).0
}

/// The value of the first header named `content-type`, in any case.
pub open spec fn content_type_of(headers: Seq<(Seq<char>, Seq<char>)>) -> Option<Seq<char>>
    decreases headers.len(),
{
    if headers.len() == 0 {
        None
    } else if same_ignoring_case(headers[0].0, "content-type"@) {
        Some(headers[0].1)
    } else {
        content_type_of(headers.drop_first())
    }
}

/// The line that shows one header: name, colon, space, value.
pub open spec fn header_line(h: (Seq<char>, Seq<char>)) -> Seq<char> {
    h.0 + seq![':', ' '] + h.1
}

/// The text of the header panel: one line for each header; nothing where
/// there is no header.
pub open spec fn headers_text(headers: Seq<(Seq<char>, Seq<char>)>) -> Option<Seq<char>> {
    if headers.len() == 0 {
        None
    } else {
        Some(join_lines(headers.map_values(|h: (Seq<char>, Seq<char>)| header_line(h))))
    }
}

/// The status line: the code in decimal, a space, and the reason.
pub open spec fn status_line(status: u16, reason: Seq<char>) -> Seq<char> {
    decimal(status as nat) + seq![' '] + reason
}

/// The reason that goes with a status code, for the codes that have one here.
pub open spec fn reason_of(status: u16) -> Seq<char> {
    if status == 200 {
        "OK"@
    } else if status == 201 {
        "Created"@
    } else if status == 204 {
        "No Content"@
    } else if status == 400 {
        "Bad Request"@
    } else if status == 401 {
        "Unauthorized"@
    } else if status == 403 {
        "Forbidden"@
    } else if status == 404 {
        "Not found"@
    } else {
        "Unknown"@
    }
}

impl TransportFailure {
    /// The message that the user sees for the failure.
    pub open spec fn spec_message(self) -> Seq<char> {
        match self {
            TransportFailure::InvalidUrl => "Failed to make the request please check the URL"@,
            TransportFailure::Connect =>
                "Failed to connect to the internet, please check your connection"@,
            TransportFailure::Other => "Could not make the request due to an unknown reason"@,
        }
    }

    /// The message that the user sees for the failure.
    pub fn message(self) -> (r: &'static str)
        ensures
            r@ == self.spec_message(),
    {
        match self {
            TransportFailure::InvalidUrl => "Failed to make the request please check the URL",
            TransportFailure::Connect =>
                "Failed to connect to the internet, please check your connection",
            TransportFailure::Other => "Could not make the request due to an unknown reason",
        }
    }

    /// Different failures have different messages.
    pub proof fn lemma_messages_differ(self, other: TransportFailure)
        requires
            self != other,
        ensures
            self.spec_message() != other.spec_message(),
    {
        reveal_strlit("Failed to make the request please check the URL");
        reveal_strlit("Failed to connect to the internet, please check your connection");
        reveal_strlit("Could not make the request due to an unknown reason");
        assert("Failed to make the request please check the URL"@.len() == 47);
        assert("Failed to connect to the internet, please check your connection"@.len() == 63);
        assert("Could not make the request due to an unknown reason"@.len() == 51);
    }
}

/// The first position of a key is a position of the entries, or their
/// number; no entry before it has the key, and the entry there has it.
pub(crate) proof fn lemma_key_index(entries: Seq<(Seq<char>, Seq<char>)>, key: Seq<char>)
    ensures
        0 <= key_index(entries, key) <= entries.len(),
        forall|k: int| 0 <= k < key_index(entries, key) ==> (#[trigger] entries[k]).0 != key,
        key_index(entries, key) < entries.len() ==> entries[key_index(entries, key)].0 == key,
    decreases entries.len(),
{
    if entries.len() == 0 || entries[0].0 == key {
    } else {
        lemma_key_index(entries.drop_first(), key);
        assert forall|k: int| 0 <= k < key_index(entries, key) implies (#[trigger] entries[k]).0
            != key by {
            if k > 0 {
                assert(entries[k] == entries.drop_first()[k - 1]);
            }
        }
    }
}

/// A position with no entry of the key before it, which holds the key or is
/// the end, is the first position of the key.
pub(crate) proof fn lemma_key_index_is(entries: Seq<(Seq<char>, Seq<char>)>, key: Seq<char>, j: int)
    requires
        0 <= j <= entries.len(),
        forall|k: int| 0 <= k < j ==> (#[trigger] entries[k]).0 != key,
        j < entries.len() ==> entries[j].0 == key,
    ensures
        key_index(entries, key) == j,
    decreases entries.len(),
{
    if entries.len() == 0 || entries[0].0 == key {
        if j > 0 {
            assert(entries[0].0 != key);
        }
    } else {
        assert forall|k: int| 0 <= k < j - 1 implies (#[trigger] entries.drop_first()[k]).0
            != key by {
            assert(entries.drop_first()[k] == entries[k + 1]);
        }
        lemma_key_index_is(entries.drop_first(), key, j - 1);
    }
}

/// Putting an entry keeps the keys unique.
pub proof fn lemma_put_keeps_unique(
    entries: Seq<(Seq<char>, Seq<char>)>,
    key: Seq<char>,
    value: Seq<char>,
)
    requires
        keys_unique(entries),
    ensures
        keys_unique(put_entry(entries, key, value)),
{
    lemma_key_index(entries, key);
    let after = put_entry(entries, key, value);
    let at = key_index(entries, key);
    assert forall|i: int, j: int| 0 <= i < j < after.len() implies (#[trigger] after[i]).0 != (
    #[trigger] after[j]).0 by {
        if at < entries.len() {
            assert(after[i].0 == entries[i].0);
            assert(after[j].0 == entries[j].0);
        } else {
            if j < entries.len() {
                assert(after[i] == entries[i]);
                assert(after[j] == entries[j]);
            } else {
                assert(after[i] == entries[i]);
            }
        }
    }
}

/// With the last value for each key, no key occurs twice.
pub proof fn lemma_last_wins_unique(pairs: Seq<(Seq<char>, Seq<char>)>)
    ensures
        keys_unique(last_wins(pairs)),
    decreases pairs.len(),
{
    if pairs.len() > 0 {
        lemma_last_wins_unique(pairs.drop_last());
        lemma_put_keeps_unique(last_wins(pairs.drop_last()), pairs.last().0, pairs.last().1);
    }
}

/// The decimal digits of `n`, added to `out`.
pub(crate) fn push_decimal(out: &mut Vec<char>, n: u128)
    ensures
        final(out)@ == old(out)@ + decimal(n as nat),
    decreases n,
{
    if n >= 10 {
        push_decimal(out, n / 10);
    }
    let d: u8 = (n % 10) as u8;
    out.push((0x30u8 + d) as char);
    assert(out@ =~= old(out)@ + decimal(n as nat));
}

/// The number in decimal.
pub fn decimal_string(n: u128) -> (r: String)
    ensures
        r@ == decimal(n as nat),
{
    let mut out: Vec<char> = Vec::new();
    push_decimal(&mut out, n);
    assert(out@ =~= decimal(n as nat));
    string_of(&out)
}

/// The reason that goes with a status code: a short text for the common
/// codes, `Unknown` for the others.
pub fn status_text(status: u16) -> (r: &'static str)
    ensures
        r@ == reason_of(status),
{
    if status == 200 {
        "OK"
    } else if status == 201 {
        "Created"
    } else if status == 204 {
        "No Content"
    } else if status == 400 {
        "Bad Request"
    } else if status == 401 {
        "Unauthorized"
    } else if status == 403 {
        "Forbidden"
    } else if status == 404 {
        "Not found"
    } else {
        "Unknown"
    }
}

/// Appends the characters of `s` to `out`.
pub(crate) fn push_str(out: &mut Vec<char>, s: &str)
    ensures
        final(out)@ == old(out)@ + s@,
{
    let v = crate::text::chars_of(s);
    let mut i: usize = 0;
    assert(old(out)@ + v@.take(0) =~= old(out)@);
    while i < v.len()
        invariant
            i <= v.len(),
            out@ == old(out)@ + v@.take(i as int),
        decreases v.len() - i,
    {
        out.push(v[i]);
        i += 1;
        assert(out@ =~= old(out)@ + v@.take(i as int));
    }
    assert(v@.take(i as int) =~= v@);
}

/// Keeps each header name once: a name stands where it first occurs and has
/// the value of its last occurrence.
pub fn unique_headers(headers: Vec<(String, String)>) -> (unique: Vec<(String, String)>)
    ensures
        pairs_view(unique@) == last_wins(pairs_view(headers@)),
        keys_unique(pairs_view(unique@)),
{
    let ghost all = pairs_view(headers@);
    let mut unique: Vec<(String, String)> = Vec::new();
    let mut k: usize = 0;
    assert(all.take(0) =~= Seq::empty());
    assert(pairs_view(unique@) =~= Seq::empty());
    while k < headers.len()
        invariant
            k <= headers.len(),
            all == pairs_view(headers@),
            pairs_view(unique@) == last_wins(all.take(k as int)),
        decreases headers.len() - k,
    {
        let name = headers[k].0.clone();
        let value = headers[k].1.clone();
        let ghost entries = pairs_view(unique@);
        let mut at: usize = 0;
        while at < unique.len() && unique[at].0 != name
            invariant
                at <= unique.len(),
                entries == pairs_view(unique@),
                forall|i: int| 0 <= i < at ==> (#[trigger] entries[i]).0 != name@,
            decreases unique.len() - at,
        {
            at += 1;
        }
        proof {
            lemma_key_index_is(entries, name@, at as int);
            assert(all.take(k + 1).drop_last() =~= all.take(k as int));
            assert(all.take(k + 1).last() == (name@, value@));
        }
        if at < unique.len() {
            unique.set(at, (name, value));
            assert(pairs_view(unique@) =~= entries.update(at as int, (name@, value@)));
        } else {
            unique.push((name, value));
            assert(pairs_view(unique@) =~= entries.push((name@, value@)));
        }
        k += 1;
    }
    assert(all.take(k as int) =~= all);
    proof {
        lemma_last_wins_unique(all);
    }
    unique
}

/// The value of the first header named `content-type`, in any case.
pub fn find_content_type(headers: &Vec<(String, String)>) -> (r: Option<String>)
    ensures
        opt_view(r) == content_type_of(pairs_view(headers@)),
{
    let ghost all = pairs_view(headers@);
    let mut k: usize = 0;
    assert(all.skip(0) =~= all);
    while k < headers.len()
        invariant
            k <= headers.len(),
            all == pairs_view(headers@),
            content_type_of(all) == content_type_of(all.skip(k as int)),
        decreases headers.len() - k,
    {
        proof {
            assert(all.skip(k as int).drop_first() =~= all.skip(k + 1));
            assert(all.skip(k as int)[0] == all[k as int]);
        }
        if eq_ignore_case(headers[k].0.as_str(), "content-type") {
            return Some(headers[k].1.clone());
        }
        k += 1;
    }
    None
}

/// The text of the header panel: a line `name: value` for each header;
/// nothing where there is no header.
pub fn join_headers(headers: &Vec<(String, String)>) -> (r: Option<String>)
    ensures
        opt_view(r) == headers_text(pairs_view(headers@)),
{
    if headers.len() == 0 {
        return None;
    }
    let ghost rows = pairs_view(headers@).map_values(|h: (Seq<char>, Seq<char>)| header_line(h));
    let mut out: Vec<char> = Vec::new();
    let mut k: usize = 0;
    assert(rows.take(0) =~= Seq::empty());
    while k < headers.len()
        invariant
            k <= headers.len(),
            rows == pairs_view(headers@).map_values(|h: (Seq<char>, Seq<char>)| header_line(h)),
            out@ == join_lines(rows.take(k as int)),
        decreases headers.len() - k,
    {
        let ghost before = out@;
        if k > 0 {
            out.push('\n');
        }
        push_str(&mut out, headers[k].0.as_str());
        out.push(':');
        out.push(' ');
        push_str(&mut out, headers[k].1.as_str());
        proof {
            let row = header_line((headers@[k as int].0@, headers@[k as int].1@));
            assert(rows[k as int] == row);
            assert(rows.take(k + 1).drop_last() =~= rows.take(k as int));
            assert(rows.take(k + 1).last() == row);
            if k > 0 {
                assert(out@ =~= before + seq!['\n'] + row);
            } else {
                assert(before =~= Seq::empty());
                assert(out@ =~= row);
            }
        }
        k += 1;
    }
    assert(rows.take(k as int) =~= rows);
    Some(string_of(&out))
}

/// The signs of a failed request, as the transport reports them.
#[derive(Debug, Copy, Clone, PartialEq, Eq, Structural)]
pub struct FailureSigns {
    /// The URL could not be parsed.
    pub invalid_url: bool,
    /// The URL is malformed.
    pub url_malformed: bool,
    /// The URL names a protocol that is not supported.
    pub unsupported_protocol: bool,
    /// No connection to the host could be made.
    pub could_not_connect: bool,
    /// The host name could not be resolved.
    pub could_not_resolve_host: bool,
    /// The name of the proxy could not be resolved.
    pub could_not_resolve_proxy: bool,
}

/// The kind of failure that the signs stand for: a failure of the URL where
/// the URL is invalid, malformed or of an unsupported protocol; else a
/// failure to connect where no connection could be made or a name could not
/// be resolved; else any other failure.
pub open spec fn failure_kind(signs: FailureSigns) -> TransportFailure {
    if signs.invalid_url || signs.url_malformed || signs.unsupported_protocol {
        TransportFailure::InvalidUrl
    } else if signs.could_not_connect || signs.could_not_resolve_host
        || signs.could_not_resolve_proxy {
        TransportFailure::Connect
    } else {
        TransportFailure::Other
    }
}

/// Tells the kind of a failure from its signs.
pub fn classify_failure(signs: FailureSigns) -> (kind: TransportFailure)
    ensures
        kind == failure_kind(signs),
{
    if signs.invalid_url || signs.url_malformed || signs.unsupported_protocol {
        TransportFailure::InvalidUrl
    } else if signs.could_not_connect || signs.could_not_resolve_host
        || signs.could_not_resolve_proxy {
        TransportFailure::Connect
    } else {
        TransportFailure::Other
    }
}

impl ResponseRecord {
    /// Whether no header name occurs twice.
    pub open spec fn wf(&self) -> bool {
        keys_unique(self@.headers)
    }

    /// A record for what the transport received. Each header name is kept
    /// once, with the value that came last.
    pub fn new(
        status: u16,
        status_text: String,
        headers: Vec<(String, String)>,
        body: String,
        elapsed_ms: u128,
    ) -> (record: ResponseRecord)
        ensures
            record@ == (RecordModel {
                status,
                status_text: status_text@,
                headers: last_wins(pairs_view(headers@)),
                body: body@,
                elapsed_ms,
            }),
            record.wf(),
    {
        ResponseRecord { status, status_text, headers: unique_headers(headers), body, elapsed_ms }
    }

    /// The status line of the record: code, space, reason.
    pub fn status_line(&self) -> (r: String)
        ensures
            r@ == status_line(self.status, self.status_text@),
    {
        let mut out: Vec<char> = Vec::new();
        push_decimal(&mut out, self.status as u128);
        out.push(' ');
        push_str(&mut out, self.status_text.as_str());
        assert(out@ =~= status_line(self.status, self.status_text@));
        string_of(&out)
    }
}

} // verus!
