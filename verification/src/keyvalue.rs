//! The `key: value` line parser behind the query, header and body fields.

use vstd::prelude::*;
use crate::text::{
    chars_of, find_char, first_index, lines, next_line, string_of_range, trim, trim_range,
};

verus! {

/// The pair that a line stands for. The trimmed line is cut at its first
/// colon; the key is what stands before it and the value what stands after
/// it, both trimmed. A line without a colon or with an empty key stands for
/// nothing.
pub open spec fn parse_line(line: Seq<char>) -> Option<(Seq<char>, Seq<char>)> {
    let t = trim(line);
    let i = first_index(t, ':');
    if i < t.len() && trim(t.take(i)).len() > 0 {
        Some((trim(t.take(i)), trim(t.skip(i + 1))))
    } else {
        None
    }
}

/// Whether a line stands for a pair: trimmed, it holds a colon, and what
/// stands before the first colon is not blank.
pub open spec fn is_pair_line(line: Seq<char>) -> bool {
    let t = trim(line);
    first_index(t, ':') < t.len() && trim(t.take(first_index(t, ':'))).len() > 0
}

/// `parse_line` as a function value.
pub open spec fn line_parser() -> spec_fn(Seq<char>) -> Option<(Seq<char>, Seq<char>)> {
    |line: Seq<char>| parse_line(line)
}

/// The pairs of a block of text: one for each line that stands for a pair,
/// in the order of the lines.
pub open spec fn key_values(input: Seq<char>) -> Seq<(Seq<char>, Seq<char>)> {
    lines(input).filter_map(line_parser())
}

/// The texts of a list of string pairs.
pub open spec fn pairs_view(pairs: Seq<(String, String)>) -> Seq<(Seq<char>, Seq<char>)> {
    pairs.map_values(|p: (String, String)| (p.0@, p.1@))
}

/// The texts of a list of strings.
pub open spec fn strings_view(items: Seq<String>) -> Seq<Seq<char>> {
    items.map_values(|s: String| s@)
}

/// Position of the first entry with the given key, or the number of entries
/// when there is none.
pub open spec fn key_index(entries: Seq<(Seq<char>, Seq<char>)>, key: Seq<char>) -> int
    decreases entries.len(),
{
    if entries.len() == 0 || entries[0].0 == key {
        0
    } else {
        1 + key_index(entries.drop_first(), key)
    }
}

/// The entries after an insertion: a new key goes to the end, a known key
/// keeps its place and takes the new value.
pub open spec fn put_entry(
    entries: Seq<(Seq<char>, Seq<char>)>,
    key: Seq<char>,
    value: Seq<char>,
) -> Seq<(Seq<char>, Seq<char>)> {
    let i = key_index(entries, key);
    if 0 <= i < entries.len() {
        entries.update(i, (key, value))
    } else {
        entries.push((key, value))
    }
}

/// The pairs with each key once: a key stands where it first occurs and has
/// the value of its last occurrence.
pub open spec fn last_wins(pairs: Seq<(Seq<char>, Seq<char>)>) -> Seq<
    (Seq<char>, Seq<char>),
> {
    pairs.fold_left(
        Seq::empty(),
        |entries: Seq<(Seq<char>, Seq<char>)>, p: (Seq<char>, Seq<char>)|
            put_entry(entries, p.0, p.1),
    )
}

/// The texts of an optional pair of strings.
pub open spec fn pair_view(pair: Option<(String, String)>) -> Option<(Seq<char>, Seq<char>)> {
    match pair {
        Some(p) => Some((p.0@, p.1@)),
        None => None,
    }
}

/// Adding one item at the end adds what it maps to, if anything.
pub(crate) proof fn lemma_filter_map_push<A, B>(s: Seq<A>, f: spec_fn(A) -> Option<B>, x: A)
    ensures
        s.push(x).filter_map(f) == match f(x) {
            Some(y) => s.filter_map(f).push(y),
            None => s.filter_map(f),
        },
{
    assert(s.push(x).drop_last() =~= s);
    match f(x) {
        Some(y) => {
            assert(s.filter_map(f) + seq![y] =~= s.filter_map(f).push(y));
        },
        None => {},
    }
}

/// Mapping the items that map to something is filtering them first and
/// mapping what is left.
pub proof fn lemma_filter_map_is_filter_and_map<A, B>(s: Seq<A>, f: spec_fn(A) -> Option<B>)
    ensures
        s.filter_map(f) == s.filter(|x: A| f(x) is Some).map_values(|x: A| f(x)->Some_0),
    decreases s.len(),
{
    let keep = |x: A| f(x) is Some;
    let take = |x: A| f(x)->Some_0;
    reveal(Seq::filter);
    if s.len() == 0 {
        assert(s.filter_map(f) =~= s.filter(keep).map_values(take));
    } else {
        lemma_filter_map_is_filter_and_map(s.drop_last(), f);
        let rest = s.drop_last();
        match f(s.last()) {
            Some(y) => {
                assert(s.filter(keep) == rest.filter(keep).push(s.last()));
                assert(rest.filter(keep).push(s.last()).map_values(take) =~= rest.filter(
                    keep,
                ).map_values(take).push(y));
                assert(rest.filter_map(f) + seq![y] =~= rest.filter_map(f).push(y));
            },
            None => {
                assert(s.filter(keep) == rest.filter(keep));
            },
        }
    }
}

/// The parser gives exactly one pair for each line that stands for a pair,
/// in the order of the lines, and nothing for any other line.
pub proof fn lemma_one_pair_per_line(input: Seq<char>)
    ensures
        key_values(input) == lines(input).filter(|line: Seq<char>| is_pair_line(line)).map_values(
            |line: Seq<char>| parse_line(line)->Some_0,
        ),
        key_values(input).len() == lines(input).filter(|line: Seq<char>| is_pair_line(line)).len(),
{
    let f = line_parser();
    lemma_filter_map_is_filter_and_map(lines(input), f);
    assert((|x: Seq<char>| f(x) is Some) =~= (|line: Seq<char>| is_pair_line(line)));
    assert((|x: Seq<char>| f(x)->Some_0) =~= (|line: Seq<char>| parse_line(line)->Some_0));
}

/// Parses the line in `v[a..b]` and adds its pair, if it has one.
fn push_line_pair(v: &Vec<char>, a: usize, b: usize, pairs: &mut Vec<(String, String)>)
    requires
        a <= b <= v.len(),
    ensures
        pairs_view(final(pairs)@) == match parse_line(v@.subrange(a as int, b as int)) {
            Some(p) => pairs_view(old(pairs)@).push(p),
            None => pairs_view(old(pairs)@),
        },
{
    let (s, e) = trim_range(v, a, b);
    let colon = find_char(v, s, e, ':');
    let ghost t = v@.subrange(s as int, e as int);
    if colon < e {
        let (ks, ke) = trim_range(v, s, colon);
        assert(t.take(colon - s) =~= v@.subrange(s as int, colon as int));
        if ks < ke {
            let (vs, ve) = trim_range(v, colon + 1, e);
            assert(t.skip(colon - s + 1) =~= v@.subrange(colon + 1, e as int));
            let key = string_of_range(v, ks, ke);
            let value = string_of_range(v, vs, ve);
            pairs.push((key, value));
            assert(pairs_view(pairs@) =~= pairs_view(old(pairs)@).push((key@, value@)));
        }
    }
}

/// Parses a block of `key: value` lines. Each line is trimmed and cut at its
/// first colon into a trimmed key and a trimmed value. Blank lines, lines
/// without a colon and lines with an empty key are dropped; the pairs keep
/// the order of the lines, and a key may occur more than once.
pub fn parse_key_value_lines(input: &str) -> (pairs: Vec<(String, String)>)
    ensures
        pairs_view(pairs@) == key_values(input@),
{
    let v = chars_of(input);
    let mut pairs: Vec<(String, String)> = Vec::new();
    let mut pos: usize = 0;
    let ghost mut done: Seq<Seq<char>> = Seq::empty();
    assert(v@.skip(0) =~= v@);
    assert(pairs_view(pairs@) =~= Seq::empty());
    while pos < v.len()
        invariant
            pos <= v.len(),
            lines(v@) == done + lines(v@.skip(pos as int)),
            pairs_view(pairs@) == done.filter_map(line_parser()),
        decreases v.len() - pos,
    {
        let (end, next) = next_line(&v, pos);
        push_line_pair(&v, pos, end, &mut pairs);
        proof {
            let line = v@.subrange(pos as int, end as int);
            lemma_filter_map_push(done, line_parser(), line);
            assert(done + (seq![line] + lines(v@.skip(next as int))) =~= done.push(line) + lines(
                v@.skip(next as int),
            ));
            done = done.push(line);
        }
        pos = next;
    }
    assert(lines(v@.skip(pos as int)) =~= Seq::empty());
    assert(done + Seq::<Seq<char>>::empty() =~= done);
    pairs
}

/// The pair that one line stands for, if it stands for one: the trimmed
/// line is cut at its first colon into a trimmed key, which must not be
/// empty, and a trimmed value.
pub fn split_header_line(line: &str) -> (pair: Option<(String, String)>)
    ensures
        pair_view(pair) == parse_line(line@),
{
    let v = chars_of(line);
    let mut found: Vec<(String, String)> = Vec::new();
    assert(v@.subrange(0, v.len() as int) =~= v@);
    assert(pairs_view(found@) =~= Seq::empty());
    push_line_pair(&v, 0, v.len(), &mut found);
    let ghost filled = found@;
    let pair = found.pop();
    proof {
        match parse_line(line@) {
            Some(p) => {
                assert(pairs_view(filled).len() == 1);
                assert(pairs_view(filled)[0] == p);
            },
            None => {
                assert(pairs_view(filled).len() == 0);
            },
        }
    }
    pair
}

/// Turns the lines of a query form into pairs, a line at a time, as the
/// parser of a block of lines does: a line without a colon and a line with
/// an empty key are dropped, and the pairs keep the order of the lines.
pub fn vec_to_query_params(params: Vec<String>) -> (pairs: Vec<(String, String)>)
    ensures
        pairs_view(pairs@) == strings_view(params@).filter_map(line_parser()),
{
    let mut pairs: Vec<(String, String)> = Vec::new();
    let mut k: usize = 0;
    let ghost all = strings_view(params@);
    assert(all.take(0) =~= Seq::empty());
    assert(pairs_view(pairs@) =~= Seq::empty());
    while k < params.len()
        invariant
            k <= params.len(),
            all == strings_view(params@),
            pairs_view(pairs@) == all.take(k as int).filter_map(line_parser()),
        decreases params.len() - k,
    {
        let v = chars_of(params[k].as_str());
        proof {
            assert(v@.subrange(0, v.len() as int) =~= v@);
            assert(all.take(k + 1) =~= all.take(k as int).push(v@));
            lemma_filter_map_push(all.take(k as int), line_parser(), v@);
        }
        push_line_pair(&v, 0, v.len(), &mut pairs);
        k += 1;
    }
    assert(all.take(k as int) =~= all);
    pairs
}

} // verus!
