//! Encoders for the request body: a JSON object of string values, or an
//! `application/x-www-form-urlencoded` string.

use vstd::prelude::*;
use vstd::utf8::encode_utf8;
use crate::keyvalue::pairs_view;
use crate::text::opt_view;

verus! {

/// A JSON value of `serde_json`; nothing of its inside is visible here.
#[verifier::external_type_specification]
#[verifier::external_body]
pub struct ExJsonValue(serde_json::Value);

/// The map behind a JSON object in `serde_json`.
#[verifier::external_type_specification]
#[verifier::external_body]
#[verifier::reject_recursive_types(K)]
#[verifier::reject_recursive_types(V)]
pub struct ExJsonMap<K, V>(serde_json::Map<K, V>);

/// The form serializer of the `url` crate, writing into a string of its own.
#[verifier::external_body]
pub struct FormSerializer {
    inner: url::form_urlencoded::Serializer<'static, String>,
}

/// A JSON object under construction whose values are all strings. It is
/// made empty and filled by insertion only.
pub struct JsonObject {
    map: serde_json::Map<String, serde_json::Value>,
}

/// The entries of the object, in the order in which its map hands them out.
pub uninterp spec fn json_entries(object: JsonObject) -> Seq<(Seq<char>, Seq<char>)>;

/// The entries of a `serde_json` map after the insertion of a key with a
/// string value, given its entries before: the key has the value, and the
/// map settles where in its order the key stands.
pub uninterp spec fn json_put(
    entries: Seq<(Seq<char>, Seq<char>)>,
    key: Seq<char>,
    value: Seq<char>,
) -> Seq<(Seq<char>, Seq<char>)>;

/// The compact JSON text that `serde_json` writes for an object with the
/// given string entries, in their order.
pub uninterp spec fn json_object_text(entries: Seq<(Seq<char>, Seq<char>)>) -> Option<Seq<char>>;

/// The entries of the object that the pairs fill, inserted in order.
pub open spec fn json_filled(pairs: Seq<(Seq<char>, Seq<char>)>) -> Seq<(Seq<char>, Seq<char>)> {
    pairs.fold_left(
        Seq::empty(),
        |entries: Seq<(Seq<char>, Seq<char>)>, p: (Seq<char>, Seq<char>)|
            json_put(entries, p.0, p.1),
    )
}

/// The text that a form serializer has written so far.
pub uninterp spec fn form_text(s: FormSerializer) -> Seq<char>;

/// The JSON body for the pairs: nothing for no pairs, else the text of the
/// object that holds them.
pub open spec fn json_body(pairs: Seq<(Seq<char>, Seq<char>)>) -> Option<Seq<char>> {
    if pairs.len() == 0 {
        None
    } else {
        json_object_text(json_filled(pairs))
    }
}

/// Upper-case hexadecimal digit for a value below sixteen.
pub open spec fn hex_digit(n: u8) -> char {
    if n < 10 {
        (0x30 + n) as u8 as char
    } else {
        (0x41 + n - 10) as u8 as char
    }
}

/// Whether the form encoding keeps the byte as it is: ASCII letters and
/// digits and `*`, `-`, `.`, `_`.
pub open spec fn form_keeps(b: u8) -> bool {
    b == 0x2A || b == 0x2D || b == 0x2E || (0x30 <= b <= 0x39) || (0x41 <= b <= 0x5A) || b == 0x5F
        || (0x61 <= b <= 0x7A)
}

/// What the form encoding writes for one byte: the byte itself where it is
/// kept, else `%` and two upper-case hexadecimal digits.
pub open spec fn percent_escape_byte(b: u8) -> Seq<char> {
    if form_keeps(b) {
        seq![b as char]
    } else {
        seq!['%', hex_digit(b / 16), hex_digit(b % 16)]
    }
}

/// What the form encoding writes for a sequence of bytes.
pub open spec fn percent_escape(bytes: Seq<u8>) -> Seq<char>
    decreases bytes.len(),
{
    if bytes.len() == 0 {
        Seq::empty()
    } else {
        percent_escape(bytes.drop_last()) + percent_escape_byte(bytes.last())
    }
}

/// The form text with one more pair: an `&` unless the text is empty, then
/// the escaped UTF-8 bytes of the name, `=`, and those of the value.
pub open spec fn with_pair(text: Seq<char>, name: Seq<char>, value: Seq<char>) -> Seq<char> {
    (if text.len() > 0 {
        text.push('&')
    } else {
        text
    }) + percent_escape(encode_utf8(name)) + seq!['='] + percent_escape(encode_utf8(value))
}

/// The form encoding of the pairs, in order.
pub open spec fn form_encoded(pairs: Seq<(Seq<char>, Seq<char>)>) -> Seq<char> {
    pairs.fold_left(
        Seq::empty(),
        |text: Seq<char>, p: (Seq<char>, Seq<char>)| with_pair(text, p.0, p.1),
    )
}

/// What the serializer of the `url` crate writes for one byte: the byte
/// itself where it is kept, `+` for a space, else `%` and two upper-case
/// hexadecimal digits.
pub open spec fn form_escape_byte(b: u8) -> Seq<char> {
    if form_keeps(b) {
        seq![b as char]
    } else if b == 0x20 {
        seq!['+']
    } else {
        seq!['%', hex_digit(b / 16), hex_digit(b % 16)]
    }
}

/// What the serializer writes for a sequence of bytes.
pub open spec fn form_escape(bytes: Seq<u8>) -> Seq<char>
    decreases bytes.len(),
{
    if bytes.len() == 0 {
        Seq::empty()
    } else {
        form_escape(bytes.drop_last()) + form_escape_byte(bytes.last())
    }
}

/// The serializer's text with one more pair: an `&` unless the text is
/// empty, then the escaped UTF-8 bytes of the name, `=`, and those of the
/// value.
pub open spec fn with_form_pair(text: Seq<char>, name: Seq<char>, value: Seq<char>) -> Seq<char> {
    (if text.len() > 0 {
        text.push('&')
    } else {
        text
    }) + form_escape(encode_utf8(name)) + seq!['='] + form_escape(encode_utf8(value))
}

/// What the serializer writes for the pairs, in order.
pub open spec fn serialized(pairs: Seq<(Seq<char>, Seq<char>)>) -> Seq<char> {
    pairs.fold_left(
        Seq::empty(),
        |text: Seq<char>, p: (Seq<char>, Seq<char>)| with_form_pair(text, p.0, p.1),
    )
}

/// The text with `%20` in place of each `+`.
pub open spec fn plus_as_percent(text: Seq<char>) -> Seq<char>
    decreases text.len(),
{
    if text.len() == 0 {
        Seq::empty()
    } else {
        plus_as_percent(text.drop_last()) + (if text.last() == '+' {
            seq!['%', '2', '0']
        } else {
            seq![text.last()]
        })
    }
}

/// Replacing goes through concatenation.
proof fn lemma_plus_concat(a: Seq<char>, b: Seq<char>)
    ensures
        plus_as_percent(a + b) == plus_as_percent(a) + plus_as_percent(b),
    decreases b.len(),
{
    if b.len() == 0 {
        assert(a + b =~= a);
        assert(plus_as_percent(a) + plus_as_percent(b) =~= plus_as_percent(a));
    } else {
        assert((a + b).drop_last() =~= a + b.drop_last());
        lemma_plus_concat(a, b.drop_last());
        let last = if b.last() == '+' {
            seq!['%', '2', '0']
        } else {
            seq![b.last()]
        };
        assert(plus_as_percent(a + b) =~= plus_as_percent(a) + (plus_as_percent(b.drop_last())
            + last));
    }
}

/// A text of one character that is no `+` stays as it is.
proof fn lemma_plus_single(c: char)
    requires
        c != '+',
    ensures
        plus_as_percent(seq![c]) == seq![c],
{
    assert(seq![c].drop_last() =~= Seq::<char>::empty());
    assert(plus_as_percent(Seq::<char>::empty()) =~= Seq::<char>::empty());
    assert(plus_as_percent(seq![c]) =~= seq![c]);
}

/// With `%20` for each `+`, what the serializer writes for a byte is the
/// percent escape of the byte: a `+` of the serializer always stands for a
/// space.
proof fn lemma_plus_byte(b: u8)
    ensures
        plus_as_percent(form_escape_byte(b)) == percent_escape_byte(b),
{
    if form_keeps(b) {
        lemma_plus_single(b as char);
    } else if b == 0x20 {
        assert(seq!['+'].drop_last() =~= Seq::<char>::empty());
        assert(plus_as_percent(Seq::<char>::empty()) =~= Seq::<char>::empty());
        assert(plus_as_percent(seq!['+']) =~= seq!['%', '2', '0']);
        assert(hex_digit(2) == '2');
        assert(hex_digit(0) == '0');
    } else {
        let h = hex_digit(b / 16);
        let l = hex_digit(b % 16);
        assert(h != '+' && l != '+');
        lemma_plus_single('%');
        lemma_plus_single(h);
        lemma_plus_single(l);
        assert(seq!['%', h, l] =~= seq!['%'] + seq![h] + seq![l]);
        lemma_plus_concat(seq!['%'] + seq![h], seq![l]);
        lemma_plus_concat(seq!['%'], seq![h]);
    }
}

/// With `%20` for each `+`, what the serializer writes for bytes is their
/// percent escape.
proof fn lemma_plus_bytes(bytes: Seq<u8>)
    ensures
        plus_as_percent(form_escape(bytes)) == percent_escape(bytes),
    decreases bytes.len(),
{
    if bytes.len() > 0 {
        lemma_plus_bytes(bytes.drop_last());
        lemma_plus_byte(bytes.last());
        lemma_plus_concat(form_escape(bytes.drop_last()), form_escape_byte(bytes.last()));
    }
}

/// Replacing leaves an empty text empty, and no other.
proof fn lemma_plus_empty(text: Seq<char>)
    ensures
        (plus_as_percent(text).len() == 0) == (text.len() == 0),
{
}

/// With `%20` for each `+`, what the serializer writes for the pairs is
/// their form encoding.
proof fn lemma_plus_pairs(pairs: Seq<(Seq<char>, Seq<char>)>)
    ensures
        plus_as_percent(serialized(pairs)) == form_encoded(pairs),
    decreases pairs.len(),
{
    if pairs.len() > 0 {
        let rest = pairs.drop_last();
        let p = pairs.last();
        lemma_plus_pairs(rest);
        let text = serialized(rest);
        let head = if text.len() > 0 {
            text.push('&')
        } else {
            text
        };
        let name = form_escape(encode_utf8(p.0));
        let value = form_escape(encode_utf8(p.1));
        lemma_plus_empty(text);
        lemma_plus_bytes(encode_utf8(p.0));
        lemma_plus_bytes(encode_utf8(p.1));
        lemma_plus_single('&');
        lemma_plus_single('=');
        assert(text.push('&') =~= text + seq!['&']);
        lemma_plus_concat(text, seq!['&']);
        lemma_plus_concat(head + name + seq!['='], value);
        lemma_plus_concat(head + name, seq!['=']);
        lemma_plus_concat(head, name);
        assert(plus_as_percent(text).push('&') =~= plus_as_percent(text) + seq!['&']);
    }
}

/// `serde_json::Map::new`: an object without entries.
#[verifier::external_body]
fn json_object_new() -> (object: JsonObject)
    ensures
        json_entries(object) == Seq::<(Seq<char>, Seq<char>)>::empty(),
{
    JsonObject { map: serde_json::Map::new() }
}

/// `serde_json::Map::insert` with a string value: the entries afterwards
/// are those that the map makes of its entries before, the key and the
/// value.
#[verifier::external_body]
fn json_object_insert(object: &mut JsonObject, key: String, value: String)
    ensures
        json_entries(*final(object)) == json_put(json_entries(*old(object)), key@, value@),
{
    object.map.insert(key, serde_json::Value::String(value));
}

/// `serde_json::to_string` on the object: its compact JSON text, a function
/// of the entries in the order in which the map hands them out. A text
/// always comes back: the writer is a byte vector, the keys are strings,
/// and writing a string value cannot fail.
#[verifier::external_body]
fn json_object_to_string(object: JsonObject) -> (r: Option<String>)
    ensures
        r is Some,
        opt_view(r) == json_object_text(json_entries(object)),
{
    serde_json::to_string(&serde_json::Value::Object(object.map)).ok()
}

/// `url::form_urlencoded::Serializer::new` on an empty string: nothing is
/// written yet.
#[verifier::external_body]
fn form_serializer_new() -> (s: FormSerializer)
    ensures
        form_text(s) == Seq::<char>::empty(),
{
    FormSerializer { inner: url::form_urlencoded::Serializer::new(String::new()) }
}

/// `url::form_urlencoded::Serializer::append_pair`: writes an `&` unless
/// nothing was written before, then the name, `=` and the value. Of the
/// UTF-8 bytes of a name or value it writes ASCII letters and digits and
/// `*`, `-`, `.`, `_` as they are, `+` for a space, and `%` with two
/// upper-case hexadecimal digits for any other byte.
#[verifier::external_body]
fn form_append_pair(s: &mut FormSerializer, name: &str, value: &str)
    ensures
        form_text(*final(s)) == with_form_pair(form_text(*old(s)), name@, value@),
{
    s.inner.append_pair(name, value);
}

/// `url::form_urlencoded::Serializer::finish`: hands out the text written.
#[verifier::external_body]
fn form_finish(s: FormSerializer) -> (r: String)
    ensures
        r@ == form_text(s),
{
    let mut s = s;
    s.inner.finish()
}

/// Encodes the pairs as a JSON object whose values are all strings. No pairs
/// give no body; any pairs give one.
pub fn json_from_pairs(pairs: Vec<(String, String)>) -> (r: Option<String>)
    ensures
        opt_view(r) == json_body(pairs_view(pairs@)),
        r is Some <==> pairs.len() > 0,
{
    if pairs.len() == 0 {
        assert(pairs_view(pairs@).len() == 0);
        return None;
    }
    let ghost all = pairs_view(pairs@);
    let mut object = json_object_new();
    let mut k: usize = 0;
    assert(all.take(0) =~= Seq::empty());
    while k < pairs.len()
        invariant
            k <= pairs.len(),
            all == pairs_view(pairs@),
            json_entries(object) == json_filled(all.take(k as int)),
        decreases pairs.len() - k,
    {
        let key = pairs[k].0.clone();
        let value = pairs[k].1.clone();
        proof {
            assert(all.take(k + 1).drop_last() =~= all.take(k as int));
            assert(all.take(k + 1).last() == (key@, value@));
        }
        json_object_insert(&mut object, key, value);
        k += 1;
    }
    assert(all.take(k as int) =~= all);
    json_object_to_string(object)
}

/// The text with `%20` in place of each `+`.
fn spaces_as_percent(text: &str) -> (r: String)
    ensures
        r@ == plus_as_percent(text@),
{
    let v = crate::text::chars_of(text);
    let mut out = String::new();
    let mut i: usize = 0;
    assert(v@.take(0) =~= Seq::empty());
    while i < v.len()
        invariant
            i <= v.len(),
            out@ == plus_as_percent(v@.take(i as int)),
        decreases v.len() - i,
    {
        assert(v@.take(i + 1).drop_last() =~= v@.take(i as int));
        if v[i] == '+' {
            out.push('%');
            out.push('2');
            out.push('0');
            assert(out@ =~= plus_as_percent(v@.take(i as int)) + seq!['%', '2', '0']);
        } else {
            out.push(v[i]);
            assert(out@ =~= plus_as_percent(v@.take(i as int)) + seq![v@[i as int]]);
        }
        i += 1;
    }
    assert(v@.take(i as int) =~= v@);
    out
}

/// Encodes the pairs as form text: the pairs in order, joined by `&`, each
/// as name, `=` and value. In names and values ASCII letters and digits and
/// `*`, `-`, `.`, `_` stand for themselves; every other byte of the UTF-8
/// form is percent-encoded, a space as `%20`.
pub fn form_encode(pairs: Vec<(String, String)>) -> (r: String)
    ensures
        r@ == form_encoded(pairs_view(pairs@)),
{
    let ghost all = pairs_view(pairs@);
    let mut serializer = form_serializer_new();
    let mut k: usize = 0;
    assert(all.take(0) =~= Seq::empty());
    while k < pairs.len()
        invariant
            k <= pairs.len(),
            all == pairs_view(pairs@),
            form_text(serializer) == serialized(all.take(k as int)),
        decreases pairs.len() - k,
    {
        proof {
            assert(all.take(k + 1).drop_last() =~= all.take(k as int));
            assert(all.take(k + 1).last() == (pairs@[k as int].0@, pairs@[k as int].1@));
        }
        form_append_pair(&mut serializer, pairs[k].0.as_str(), pairs[k].1.as_str());
        k += 1;
    }
    assert(all.take(k as int) =~= all);
    let written = form_finish(serializer);
    proof {
        lemma_plus_pairs(all);
    }
    spaces_as_percent(written.as_str())
}

} // verus!
