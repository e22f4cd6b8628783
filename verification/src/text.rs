//! Character-level helpers shared by the parsers and formatters: whitespace,
//! trimming, line splitting and conversions between strings and characters.

use vstd::prelude::*;

verus! {

/// `String::push` appends one character to the end of the string.
pub assume_specification[ String::push ](s: &mut String, c: char)
    ensures
        final(s)@ == old(s)@.push(c),
;

/// Characters with the Unicode `White_Space` property.
pub open spec fn is_space(c: char) -> bool {
    let n = c as u32;
    (0x09 <= n <= 0x0D) || n == 0x20 || n == 0x85 || n == 0xA0 || n == 0x1680 || (0x2000 <= n
        <= 0x200A) || n == 0x2028 || n == 0x2029 || n == 0x202F || n == 0x205F || n == 0x3000
}

/// The text without its leading whitespace.
pub open spec fn trim_start(s: Seq<char>) -> Seq<char>
    decreases s.len(),
{
    if s.len() > 0 && is_space(s[0]) {
        trim_start(s.drop_first())
    } else {
        s
    }
}

/// The text without its trailing whitespace.
pub open spec fn trim_end(s: Seq<char>) -> Seq<char>
    decreases s.len(),
{
    if s.len() > 0 && is_space(s.last()) {
        trim_end(s.drop_last())
    } else {
        s
    }
}

/// The text without leading and trailing whitespace.
pub open spec fn trim(s: Seq<char>) -> Seq<char> {
    trim_end(trim_start(s))
}

/// Index of the first occurrence of `c` in `s`, or `s.len()` when there is none.
pub open spec fn first_index(s: Seq<char>, c: char) -> int
    decreases s.len(),
{
    if s.len() == 0 || s[0] == c {
        0
    } else {
        1 + first_index(s.drop_first(), c)
    }
}

/// The text without one trailing carriage return, if it ends in one.
pub open spec fn strip_cr(s: Seq<char>) -> Seq<char> {
    if s.len() > 0 && s.last() == '\r' {
        s.drop_last()
    } else {
        s
    }
}

/// The lines of a text. A line ends at a line feed, or at a carriage return
/// directly followed by a line feed; the terminator is not part of the line.
/// The last line needs no terminator, and an empty rest after the last
/// terminator is no line.
pub open spec fn lines(s: Seq<char>) -> Seq<Seq<char>>
    decreases s.len(),
{
    if s.len() == 0 {
        Seq::empty()
    } else {
        let i = first_index(s, '\n');
        if 0 <= i < s.len() {
            seq![strip_cr(s.take(i))] + lines(s.skip(i + 1))
        } else {
            seq![s]
        }
    }
}

/// The lines joined by single line feeds.
pub open spec fn join_lines(rows: Seq<Seq<char>>) -> Seq<char>
    decreases rows.len(),
{
    if rows.len() == 0 {
        Seq::empty()
    } else if rows.len() == 1 {
        rows[0]
    } else {
        join_lines(rows.drop_last()) + seq!['\n'] + rows.last()
    }
}

/// ASCII lower-case form of a character; other characters are unchanged.
pub open spec fn lower(c: char) -> char {
    if 'A' <= c <= 'Z' {
        ((c as u8) + 32) as char
    } else {
        c
    }
}

/// ASCII lower-case form of a text.
pub open spec fn ascii_lower(s: Seq<char>) -> Seq<char> {
    s.map_values(|c: char| lower(c))
}

/// The text of an optional string.
pub open spec fn opt_view(o: Option<String>) -> Option<Seq<char>> {
    match o {
        Some(s) => Some(s@),
        None => None,
    }
}

/// The text without its leading run of `c`.
pub open spec fn strip_leading(s: Seq<char>, c: char) -> Seq<char>
    decreases s.len(),
{
    if s.len() > 0 && s[0] == c {
        strip_leading(s.drop_first(), c)
    } else {
        s
    }
}

/// The text without its trailing run of `c`.
pub open spec fn strip_trailing(s: Seq<char>, c: char) -> Seq<char>
    decreases s.len(),
{
    if s.len() > 0 && s.last() == c {
        strip_trailing(s.drop_last(), c)
    } else {
        s
    }
}

/// Index of the first whitespace character of `s`, or `s.len()` when there is none.
pub open spec fn first_space(s: Seq<char>) -> int
    decreases s.len(),
{
    if s.len() == 0 || is_space(s[0]) {
        0
    } else {
        1 + first_space(s.drop_first())
    }
}

/// The first run of characters of `s` that holds no whitespace; empty when
/// `s` holds nothing else.
pub open spec fn first_word(s: Seq<char>) -> Seq<char> {
    let t = trim_start(s);
    t.take(first_space(t))
}

/// A position with no `c` before it, which holds `c` or is the end, is the first index.
pub(crate) proof fn lemma_first_index_is(s: Seq<char>, c: char, j: int)
    requires
        0 <= j <= s.len(),
        forall|k: int| 0 <= k < j ==> s[k] != c,
        j < s.len() ==> s[j] == c,
    ensures
        first_index(s, c) == j,
    decreases s.len(),
{
    if s.len() == 0 || s[0] == c {
    } else {
        assert forall|k: int| 0 <= k < j - 1 implies s.drop_first()[k] != c by {
            assert(s.drop_first()[k] == s[k + 1]);
        }
        lemma_first_index_is(s.drop_first(), c, j - 1);
    }
}

/// Whether the character is whitespace.
pub fn is_whitespace(c: char) -> (r: bool)
    ensures
        r == is_space(c),
{
    let n: u32 = c as u32;
    (0x09 <= n && n <= 0x0D) || n == 0x20 || n == 0x85 || n == 0xA0 || n == 0x1680 || (0x2000 <= n
        && n <= 0x200A) || n == 0x2028 || n == 0x2029 || n == 0x202F || n == 0x205F || n == 0x3000
}

/// ASCII lower-case form of a character.
pub fn to_lower(c: char) -> (r: char)
    ensures
        r == lower(c),
{
    if 'A' <= c && c <= 'Z' {
        ((c as u8) + 32) as char
    } else {
        c
    }
}

/// The characters of a string, in order.
pub fn chars_of(s: &str) -> (v: Vec<char>)
    ensures
        v@ == s@,
{
    let mut v: Vec<char> = Vec::new();
    for c in it: s.chars()
        invariant
            v@ == it.seq().take(it.index() as int),
    {
        v.push(c);
    }
    v
}

/// The string made of the characters of `v` from `a` up to `b`.
pub(crate) fn string_of_range(v: &Vec<char>, a: usize, b: usize) -> (s: String)
    requires
        a <= b <= v.len(),
    ensures
        s@ == v@.subrange(a as int, b as int),
{
    let mut s = String::new();
    let mut i: usize = a;
    while i < b
        invariant
            a <= i <= b <= v.len(),
            s@ == v@.subrange(a as int, i as int),
        decreases b - i,
    {
        s.push(v[i]);
        i += 1;
        assert(v@.subrange(a as int, i as int) == v@.subrange(a as int, i - 1).push(v@[i - 1]));
    }
    s
}

/// The string made of the given characters.
pub fn string_of(v: &Vec<char>) -> (s: String)
    ensures
        s@ == v@,
{
    let s = string_of_range(v, 0, v.len());
    assert(v@.subrange(0, v.len() as int) == v@);
    s
}

/// Start of the text left in `v[a..b]` once leading whitespace is skipped.
pub(crate) fn skip_spaces(v: &Vec<char>, a: usize, b: usize) -> (r: usize)
    requires
        a <= b <= v.len(),
    ensures
        a <= r <= b,
        v@.subrange(r as int, b as int) == trim_start(v@.subrange(a as int, b as int)),
{
    let mut i: usize = a;
    while i < b && is_whitespace(v[i])
        invariant
            a <= i <= b <= v.len(),
            trim_start(v@.subrange(i as int, b as int)) == trim_start(
                v@.subrange(a as int, b as int),
            ),
        decreases b - i,
    {
        assert(v@.subrange(i as int, b as int).drop_first() == v@.subrange(i + 1, b as int));
        i += 1;
    }
    i
}

/// End of the text left in `v[a..b]` once trailing whitespace is dropped.
pub(crate) fn skip_spaces_back(v: &Vec<char>, a: usize, b: usize) -> (r: usize)
    requires
        a <= b <= v.len(),
    ensures
        a <= r <= b,
        v@.subrange(a as int, r as int) == trim_end(v@.subrange(a as int, b as int)),
{
    let mut i: usize = b;
    while i > a && is_whitespace(v[i - 1])
        invariant
            a <= i <= b <= v.len(),
            trim_end(v@.subrange(a as int, i as int)) == trim_end(v@.subrange(a as int, b as int)),
        decreases i - a,
    {
        assert(v@.subrange(a as int, i as int).drop_last() == v@.subrange(a as int, i - 1));
        i -= 1;
    }
    i
}

/// Bounds of the text left in `v[a..b]` once whitespace is trimmed at both ends.
pub(crate) fn trim_range(v: &Vec<char>, a: usize, b: usize) -> (r: (usize, usize))
    requires
        a <= b <= v.len(),
    ensures
        a <= r.0 <= r.1 <= b,
        v@.subrange(r.0 as int, r.1 as int) == trim(v@.subrange(a as int, b as int)),
{
    let start = skip_spaces(v, a, b);
    let end = skip_spaces_back(v, start, b);
    (start, end)
}

/// Position of the first `c` in `v[a..b]`, or `b` when there is none.
pub(crate) fn find_char(v: &Vec<char>, a: usize, b: usize, c: char) -> (r: usize)
    requires
        a <= b <= v.len(),
    ensures
        a <= r <= b,
        r - a == first_index(v@.subrange(a as int, b as int), c),
{
    let mut i: usize = a;
    while i < b && v[i] != c
        invariant
            a <= i <= b <= v.len(),
            forall|k: int| a <= k < i ==> v@[k] != c,
        decreases b - i,
    {
        i += 1;
    }
    proof {
        lemma_first_index_is(v@.subrange(a as int, b as int), c, i - a);
    }
    i
}

/// Start of what is left of `v[a..b]` once its leading run of `c` is skipped.
pub(crate) fn skip_leading(v: &Vec<char>, a: usize, b: usize, c: char) -> (r: usize)
    requires
        a <= b <= v.len(),
    ensures
        a <= r <= b,
        v@.subrange(r as int, b as int) == strip_leading(v@.subrange(a as int, b as int), c),
{
    let mut i: usize = a;
    while i < b && v[i] == c
        invariant
            a <= i <= b <= v.len(),
            strip_leading(v@.subrange(i as int, b as int), c) == strip_leading(
                v@.subrange(a as int, b as int),
                c,
            ),
        decreases b - i,
    {
        assert(v@.subrange(i as int, b as int).drop_first() == v@.subrange(i + 1, b as int));
        i += 1;
    }
    i
}

/// End of what is left of `v[a..b]` once its trailing run of `c` is dropped.
pub(crate) fn skip_trailing(v: &Vec<char>, a: usize, b: usize, c: char) -> (r: usize)
    requires
        a <= b <= v.len(),
    ensures
        a <= r <= b,
        v@.subrange(a as int, r as int) == strip_trailing(v@.subrange(a as int, b as int), c),
{
    let mut i: usize = b;
    while i > a && v[i - 1] == c
        invariant
            a <= i <= b <= v.len(),
            strip_trailing(v@.subrange(a as int, i as int), c) == strip_trailing(
                v@.subrange(a as int, b as int),
                c,
            ),
        decreases i - a,
    {
        assert(v@.subrange(a as int, i as int).drop_last() == v@.subrange(a as int, i - 1));
        i -= 1;
    }
    i
}

/// A position with no whitespace before it, which holds whitespace or is
/// the end, is the first space.
pub(crate) proof fn lemma_first_space_is(s: Seq<char>, j: int)
    requires
        0 <= j <= s.len(),
        forall|k: int| 0 <= k < j ==> !is_space(s[k]),
        j < s.len() ==> is_space(s[j]),
    ensures
        first_space(s) == j,
    decreases s.len(),
{
    if s.len() == 0 || is_space(s[0]) {
    } else {
        assert forall|k: int| 0 <= k < j - 1 implies !is_space(s.drop_first()[k]) by {
            assert(s.drop_first()[k] == s[k + 1]);
        }
        lemma_first_space_is(s.drop_first(), j - 1);
    }
}

/// Bounds of the first word of `v[a..b]`.
pub(crate) fn word_range(v: &Vec<char>, a: usize, b: usize) -> (r: (usize, usize))
    requires
        a <= b <= v.len(),
    ensures
        a <= r.0 <= r.1 <= b,
        v@.subrange(r.0 as int, r.1 as int) == first_word(v@.subrange(a as int, b as int)),
{
    let start = skip_spaces(v, a, b);
    let mut i: usize = start;
    while i < b && !is_whitespace(v[i])
        invariant
            start <= i <= b <= v.len(),
            forall|k: int| start <= k < i ==> !is_space(v@[k]),
        decreases b - i,
    {
        i += 1;
    }
    proof {
        let t = v@.subrange(start as int, b as int);
        lemma_first_space_is(t, i - start);
        assert(t.take(i - start) == v@.subrange(start as int, i as int));
    }
    (start, i)
}

/// The first line of the text that starts at `pos`: the end of the line
/// without its terminator, and the start of the text after it.
pub(crate) fn next_line(v: &Vec<char>, pos: usize) -> (r: (usize, usize))
    requires
        pos < v.len(),
    ensures
        pos <= r.0 <= r.1 <= v.len(),
        pos < r.1,
        lines(v@.skip(pos as int)) == seq![v@.subrange(pos as int, r.0 as int)] + lines(
            v@.skip(r.1 as int),
        ),
{
    let n = v.len();
    let j = find_char(v, pos, n, '\n');
    let ghost s = v@.skip(pos as int);
    assert(s =~= v@.subrange(pos as int, n as int));
    if j < n {
        let end = if j > pos && v[j - 1] == '\r' {
            j - 1
        } else {
            j
        };
        proof {
            assert(s.take(j - pos) =~= v@.subrange(pos as int, j as int));
            assert(s.skip(j - pos + 1) =~= v@.skip(j + 1));
            assert(strip_cr(v@.subrange(pos as int, j as int)) =~= v@.subrange(
                pos as int,
                end as int,
            ));
        }
        (end, j + 1)
    } else {
        proof {
            assert(lines(v@.skip(n as int)) =~= Seq::empty());
            assert(seq![s] + Seq::<Seq<char>>::empty() =~= seq![s]);
        }
        (n, n)
    }
}

/// Whether two texts are equal once ASCII letters are put in lower case.
pub open spec fn same_ignoring_case(a: Seq<char>, b: Seq<char>) -> bool {
    ascii_lower(a) == ascii_lower(b)
}

/// Whether two strings are equal up to the case of their ASCII letters.
pub fn eq_ignore_case(a: &str, b: &str) -> (r: bool)
    ensures
        r == same_ignoring_case(a@, b@),
{
    let x = chars_of(a);
    let y = chars_of(b);
    if x.len() != y.len() {
        assert(ascii_lower(a@).len() != ascii_lower(b@).len());
        return false;
    }
    let mut i: usize = 0;
    while i < x.len()
        invariant
            x@ == a@,
            y@ == b@,
            x.len() == y.len(),
            i <= x.len(),
            forall|k: int| 0 <= k < i ==> lower(x@[k]) == lower(y@[k]),
        decreases x.len() - i,
    {
        if to_lower(x[i]) != to_lower(y[i]) {
            assert(ascii_lower(a@)[i as int] != ascii_lower(b@)[i as int]);
            return false;
        }
        i += 1;
    }
    assert(ascii_lower(a@) =~= ascii_lower(b@));
    true
}

/// Whether the characters of `v[a..b]` are those of `word`.
pub(crate) fn range_equals(v: &Vec<char>, a: usize, b: usize, word: &Vec<char>) -> (r: bool)
    requires
        a <= b <= v.len(),
    ensures
        r == (v@.subrange(a as int, b as int) == word@),
{
    if b - a != word.len() {
        return false;
    }
    let mut i: usize = 0;
    while i < word.len()
        invariant
            a <= b <= v.len(),
            b - a == word.len(),
            i <= word.len(),
            forall|k: int| 0 <= k < i ==> v@[a + k] == word@[k],
        decreases word.len() - i,
    {
        if v[a + i] != word[i] {
            assert(v@.subrange(a as int, b as int)[i as int] != word@[i as int]);
            return false;
        }
        i += 1;
    }
    assert(v@.subrange(a as int, b as int) =~= word@);
    true
}

/// Whether the characters of `v` are those of `word`.
pub fn same_text(v: &Vec<char>, word: &str) -> (r: bool)
    ensures
        r == (v@ == word@),
{
    let w = chars_of(word);
    let r = range_equals(v, 0, v.len(), &w);
    assert(v@.subrange(0, v.len() as int) =~= v@);
    r
}

} // verus!
