//! Re-indentation of HTML text: a scanner that cuts the text into tags and
//! text runs, and a layout that puts one token on each row, indented by its
//! nesting depth.

use vstd::prelude::*;
use crate::text::{
    ascii_lower, chars_of, first_word, join_lines, opt_view, same_text, skip_leading,
    skip_trailing, string_of, strip_leading, strip_trailing, to_lower, trim, trim_range,
    word_range,
};

verus! {

/// State of the scanner after some prefix of the text.
pub struct HtmlScan {
    /// Tokens completed so far.
    pub tokens: Seq<Seq<char>>,
    /// Characters read since the last completed token.
    pub buf: Seq<char>,
    /// Whether a `<` was read that no `>` has closed yet.
    pub in_tag: bool,
    /// Whether a single-quoted attribute value is open.
    pub in_single: bool,
    /// Whether a double-quoted attribute value is open.
    pub in_double: bool,
}

/// State of the layout after some prefix of the tokens.
pub struct HtmlLayout {
    /// Rows laid out so far.
    pub rows: Seq<Seq<char>>,
    /// Nesting depth for the next row.
    pub depth: nat,
}

/// The tokens with the pending text added, trimmed, unless it is blank.
pub open spec fn flush_text(tokens: Seq<Seq<char>>, buf: Seq<char>) -> Seq<Seq<char>> {
    if trim(buf).len() > 0 {
        tokens.push(trim(buf))
    } else {
        tokens
    }
}

/// One step of the scanner. A `<` ends the pending text and opens a tag.
/// Inside a tag a quote character toggles its own quote unless the other
/// quote is open, and a `>` closes the tag only when no quote is open.
pub open spec fn html_step(st: HtmlScan, c: char) -> HtmlScan {
    if c == '<' {
        HtmlScan {
            tokens: flush_text(st.tokens, st.buf),
            buf: seq!['<'],
            in_tag: true,
            in_single: st.in_single,
            in_double: st.in_double,
        }
    } else {
        let single = if st.in_tag && c == '\'' && !st.in_double {
            !st.in_single
        } else {
            st.in_single
        };
        let double = if st.in_tag && c == '"' && !st.in_single {
            !st.in_double
        } else {
            st.in_double
        };
        if c == '>' && st.in_tag && !single && !double {
            HtmlScan {
                tokens: st.tokens.push(st.buf.push(c)),
                buf: Seq::empty(),
                in_tag: false,
                in_single: false,
                in_double: false,
            }
        } else {
            HtmlScan {
                tokens: st.tokens,
                buf: st.buf.push(c),
                in_tag: st.in_tag,
                in_single: single,
                in_double: double,
            }
        }
    }
}

/// The scanner's state before any character is read.
pub open spec fn html_start() -> HtmlScan {
    HtmlScan {
        tokens: Seq::empty(),
        buf: Seq::empty(),
        in_tag: false,
        in_single: false,
        in_double: false,
    }
}

/// The scanner's state after reading `s` from the state `st`.
pub open spec fn html_run(st: HtmlScan, s: Seq<char>) -> HtmlScan {
    s.fold_left(st, |st: HtmlScan, c: char| html_step(st, c))
}

/// The scanner's state after the whole of `s`.
pub open spec fn html_scan(s: Seq<char>) -> HtmlScan {
    html_run(html_start(), s)
}

/// The tokens of an HTML text: tags from `<` to the closing `>`, and the
/// trimmed, non-blank text between them.
pub open spec fn html_tokens(s: Seq<char>) -> Seq<Seq<char>> {
    flush_text(html_scan(s).tokens, html_scan(s).buf)
}

/// Whether the token is a tag.
pub open spec fn is_tag(t: Seq<char>) -> bool {
    t.len() > 0 && t[0] == '<' && t.last() == '>'
}

/// Whether the tag closes an element (`</...`).
pub open spec fn is_closing_tag(t: Seq<char>) -> bool {
    t.len() >= 2 && t[0] == '<' && t[1] == '/'
}

/// Whether the tag is a comment, a doctype or another declaration (`<!...`).
pub open spec fn is_declaration(t: Seq<char>) -> bool {
    t.len() >= 2 && t[0] == '<' && t[1] == '!'
}

/// Whether the tag is a processing instruction (`<?...`).
pub open spec fn is_instruction(t: Seq<char>) -> bool {
    t.len() >= 2 && t[0] == '<' && t[1] == '?'
}

/// Whether the tag closes itself (`.../>`).
pub open spec fn is_self_closed(t: Seq<char>) -> bool {
    t.len() >= 2 && t[t.len() - 2] == '/' && t.last() == '>'
}

/// The element name of a tag, in lower case: what follows the leading `<`
/// and `/` up to the first whitespace, without trailing `>` and `/`.
pub open spec fn tag_name(tag: Seq<char>) -> Seq<char> {
    ascii_lower(
        strip_trailing(
            strip_trailing(first_word(strip_leading(strip_leading(tag, '<'), '/')), '>'),
            '/',
        ),
    )
}

/// The names of the elements that never have content.
pub open spec fn is_void_name(name: Seq<char>) -> bool {
    name == "area"@ || name == "base"@ || name == "br"@ || name == "col"@ || name == "embed"@
        || name == "hr"@ || name == "img"@ || name == "input"@ || name == "link"@ || name
        == "meta"@ || name == "param"@ || name == "source"@ || name == "track"@ || name == "wbr"@
}

/// Whether the tag names a void element.
pub open spec fn is_void_tag(tag: Seq<char>) -> bool {
    is_void_name(tag_name(tag))
}

/// Whether the rows after this tag are nested one level deeper.
pub open spec fn opens_element(t: Seq<char>) -> bool {
    !is_closing_tag(t) && !is_self_closed(t) && !is_declaration(t) && !is_instruction(t)
        && !is_void_tag(t)
}

/// Two spaces for each level of depth.
pub open spec fn indent(depth: nat) -> Seq<char> {
    Seq::new(2 * depth, |i: int| ' ')
}

/// One step of the layout: the token becomes a row. A closing tag stands one
/// level up (never above the top level); a tag that opens an element moves
/// the rows after it one level down.
pub open spec fn layout_step(l: HtmlLayout, t: Seq<char>) -> HtmlLayout {
    if is_tag(t) {
        let d: nat = if is_closing_tag(t) && l.depth > 0 {
            (l.depth - 1) as nat
        } else {
            l.depth
        };
        HtmlLayout { rows: l.rows.push(indent(d) + t), depth: if opens_element(t) {
            d + 1
        } else {
            d
        } }
    } else {
        HtmlLayout { rows: l.rows.push(indent(l.depth) + t), depth: l.depth }
    }
}

/// The layout of a sequence of tokens.
pub open spec fn html_layout(tokens: Seq<Seq<char>>) -> HtmlLayout {
    tokens.fold_left(
        HtmlLayout { rows: Seq::empty(), depth: 0 },
        |l: HtmlLayout, t: Seq<char>| layout_step(l, t),
    )
}

/// The re-indented form of an HTML text; `None` when the text holds no token.
pub open spec fn html_formatted(s: Seq<char>) -> Option<Seq<char>> {
    let rows = html_layout(html_tokens(s)).rows;
    if rows.len() == 0 {
        None
    } else {
        Some(join_lines(rows))
    }
}

/// A `>` read while a quoted attribute value is open completes no token and
/// leaves the tag and the quote open.
pub proof fn lemma_quoted_gt_stays_in_tag(st: HtmlScan)
    requires
        st.in_tag,
        st.in_single || st.in_double,
    ensures
        html_step(st, '>').tokens == st.tokens,
        html_step(st, '>').buf == st.buf.push('>'),
        html_step(st, '>').in_tag,
        html_step(st, '>').in_single == st.in_single,
        html_step(st, '>').in_double == st.in_double,
{
}

/// The texts that the ranges cut out of `v`.
pub open spec fn ranges_view(v: Seq<char>, ranges: Seq<(usize, usize)>) -> Seq<Seq<char>> {
    ranges.map_values(|r: (usize, usize)| v.subrange(r.0 as int, r.1 as int))
}

/// Whether every range lies inside a text of length `n`.
pub open spec fn ranges_valid(n: nat, ranges: Seq<(usize, usize)>) -> bool {
    forall|k: int| 0 <= k < ranges.len() ==> (#[trigger] ranges[k]).0 <= ranges[k].1 <= n
}

/// Adds the text in `v[a..b]` to the tokens, trimmed, unless it is blank.
fn flush_range(v: &Vec<char>, tokens: &mut Vec<(usize, usize)>, a: usize, b: usize)
    requires
        a <= b <= v.len(),
        ranges_valid(v@.len(), old(tokens)@),
    ensures
        ranges_valid(v@.len(), final(tokens)@),
        ranges_view(v@, final(tokens)@) == flush_text(
            ranges_view(v@, old(tokens)@),
            v@.subrange(a as int, b as int),
        ),
{
    let (s, e) = trim_range(v, a, b);
    if s < e {
        tokens.push((s, e));
        assert(ranges_view(v@, tokens@) =~= ranges_view(v@, old(tokens)@).push(
            v@.subrange(s as int, e as int),
        ));
    }
}

/// The tokens of `v`, as ranges of positions.
pub(crate) fn scan_tokens(v: &Vec<char>) -> (tokens: Vec<(usize, usize)>)
    ensures
        ranges_valid(v@.len(), tokens@),
        ranges_view(v@, tokens@) == html_tokens(v@),
{
    let mut tokens: Vec<(usize, usize)> = Vec::new();
    let mut start: usize = 0;
    let mut in_tag = false;
    let mut in_single = false;
    let mut in_double = false;
    let mut i: usize = 0;
    assert(ranges_view(v@, tokens@) =~= Seq::empty());
    assert(v@.subrange(0, 0) =~= Seq::empty());
    assert(v@.take(0) =~= Seq::empty());
    while i < v.len()
        invariant
            start <= i <= v.len(),
            ranges_valid(v@.len(), tokens@),
            html_scan(v@.take(i as int)) == (HtmlScan {
                tokens: ranges_view(v@, tokens@),
                buf: v@.subrange(start as int, i as int),
                in_tag,
                in_single,
                in_double,
            }),
        decreases v.len() - i,
    {
        let c = v[i];
        let ghost before = html_scan(v@.take(i as int));
        proof {
            assert(v@.take(i + 1).drop_last() =~= v@.take(i as int));
            assert(html_scan(v@.take(i + 1)) == html_step(before, c));
        }
        if c == '<' {
            flush_range(v, &mut tokens, start, i);
            in_tag = true;
            start = i;
            assert(v@.subrange(i as int, i + 1) =~= seq!['<']);
        } else {
            if in_tag {
                if c == '\'' && !in_double {
                    in_single = !in_single;
                } else if c == '"' && !in_single {
                    in_double = !in_double;
                }
            }
            if c == '>' && in_tag && !in_single && !in_double {
                let ghost prior = tokens@;
                tokens.push((start, i + 1));
                assert(v@.subrange(start as int, i + 1) =~= before.buf.push(c));
                assert(ranges_view(v@, tokens@) =~= ranges_view(v@, prior).push(
                    v@.subrange(start as int, i + 1),
                ));
                in_tag = false;
                in_single = false;
                in_double = false;
                start = i + 1;
                assert(v@.subrange(i + 1, i + 1) =~= Seq::empty());
            } else {
                assert(v@.subrange(start as int, i + 1) =~= before.buf.push(c));
            }
        }
        i += 1;
    }
    assert(v@.take(i as int) =~= v@);
    flush_range(v, &mut tokens, start, i);
    tokens
}

/// Whether the tag in `v[a..b]` names a void element.
pub(crate) fn is_void_range(v: &Vec<char>, a: usize, b: usize) -> (r: bool)
    requires
        a <= b <= v.len(),
    ensures
        r == is_void_tag(v@.subrange(a as int, b as int)),
{
    let s1 = skip_leading(v, a, b, '<');
    let s2 = skip_leading(v, s1, b, '/');
    let (w0, w1) = word_range(v, s2, b);
    let e1 = skip_trailing(v, w0, w1, '>');
    let e2 = skip_trailing(v, w0, e1, '/');
    let mut name: Vec<char> = Vec::new();
    let mut i: usize = w0;
    while i < e2
        invariant
            w0 <= i <= e2 <= v.len(),
            name@ == ascii_lower(v@.subrange(w0 as int, i as int)),
        decreases e2 - i,
    {
        name.push(to_lower(v[i]));
        i += 1;
        assert(name@ =~= ascii_lower(v@.subrange(w0 as int, i as int)));
    }
    assert(name@ == tag_name(v@.subrange(a as int, b as int)));
    same_text(&name, "area") || same_text(&name, "base") || same_text(&name, "br") || same_text(
        &name,
        "col",
    ) || same_text(&name, "embed") || same_text(&name, "hr") || same_text(&name, "img")
        || same_text(&name, "input") || same_text(&name, "link") || same_text(&name, "meta")
        || same_text(&name, "param") || same_text(&name, "source") || same_text(&name, "track")
        || same_text(&name, "wbr")
}

/// Whether the tag names an element that never has content, such as `<br>`.
pub fn is_void_element(tag: &str) -> (r: bool)
    ensures
        r == is_void_tag(tag@),
{
    let v = chars_of(tag);
    let r = is_void_range(&v, 0, v.len());
    assert(v@.subrange(0, v.len() as int) =~= v@);
    r
}

/// Appends one row to the joined text: a line feed unless it is the first
/// row, the indentation, and the token in `v[a..b]`.
fn push_row(
    out: &mut Vec<char>,
    Ghost(rows): Ghost<Seq<Seq<char>>>,
    first: bool,
    depth: usize,
    v: &Vec<char>,
    a: usize,
    b: usize,
)
    requires
        a <= b <= v.len(),
        first == (rows.len() == 0),
        old(out)@ == join_lines(rows),
    ensures
        final(out)@ == join_lines(
            rows.push(indent(depth as nat) + v@.subrange(a as int, b as int)),
        ),
{
    if !first {
        out.push('\n');
    }
    let ghost base = out@;
    let mut j: usize = 0;
    while j < depth
        invariant
            j <= depth,
            out@ == base + indent(j as nat),
        decreases depth - j,
    {
        out.push(' ');
        out.push(' ');
        j += 1;
        assert(out@ =~= base + indent(j as nat));
    }
    let mut p: usize = a;
    while p < b
        invariant
            a <= p <= b <= v.len(),
            out@ == base + indent(depth as nat) + v@.subrange(a as int, p as int),
        decreases b - p,
    {
        out.push(v[p]);
        p += 1;
        assert(out@ =~= base + indent(depth as nat) + v@.subrange(a as int, p as int));
    }
    proof {
        let row = indent(depth as nat) + v@.subrange(a as int, b as int);
        let next = rows.push(row);
        assert(next.drop_last() =~= rows);
        assert(next.last() == row);
        if first {
            assert(base =~= Seq::empty());
            assert(out@ =~= row);
        } else {
            assert(out@ =~= join_lines(rows) + seq!['\n'] + row);
        }
    }
}

/// Lays the tokens out, one to a row; `None` when there is no token.
pub(crate) fn layout_tokens(v: &Vec<char>, tokens: &Vec<(usize, usize)>) -> (out: Option<Vec<char>>)
    requires
        ranges_valid(v@.len(), tokens@),
    ensures
        ({
            let rows = html_layout(ranges_view(v@, tokens@)).rows;
            match out {
                Some(text) => rows.len() > 0 && text@ == join_lines(rows),
                None => rows.len() == 0,
            }
        }),
{
    let ghost all = ranges_view(v@, tokens@);
    let mut out: Vec<char> = Vec::new();
    let mut depth: usize = 0;
    let mut rows: Ghost<Seq<Seq<char>>> = Ghost(Seq::empty());
    let mut k: usize = 0;
    assert(all.take(0) =~= Seq::empty());
    while k < tokens.len()
        invariant
            k <= tokens.len(),
            depth <= k,
            all == ranges_view(v@, tokens@),
            ranges_valid(v@.len(), tokens@),
            rows@.len() == k,
            out@ == join_lines(rows@),
            html_layout(all.take(k as int)) == (HtmlLayout { rows: rows@, depth: depth as nat }),
        decreases tokens.len() - k,
    {
        let (a, b) = tokens[k];
        let ghost t = v@.subrange(a as int, b as int);
        proof {
            assert(all.take(k + 1).drop_last() =~= all.take(k as int));
            assert(all.take(k + 1).last() == t);
            assert(html_layout(all.take(k + 1)) == layout_step(
                html_layout(all.take(k as int)),
                t,
            ));
        }
        let tag = b > a && v[a] == '<' && v[b - 1] == '>';
        let mut row_depth = depth;
        if tag {
            let closing = b - a >= 2 && v[a + 1] == '/';
            let declaration = b - a >= 2 && v[a + 1] == '!';
            let instruction = b - a >= 2 && v[a + 1] == '?';
            let self_closed = b - a >= 2 && v[b - 2] == '/';
            if closing && depth > 0 {
                row_depth = depth - 1;
            }
            depth = row_depth;
            if !closing && !self_closed && !declaration && !instruction && !is_void_range(v, a, b) {
                depth = row_depth + 1;
            }
        }
        push_row(&mut out, rows, k == 0, row_depth, v, a, b);
        proof {
            rows@ = rows@.push(indent(row_depth as nat) + t);
        }
        k += 1;
    }
    assert(all.take(k as int) =~= all);
    if k == 0 {
        None
    } else {
        Some(out)
    }
}

/// Re-indents an HTML text: every tag and every run of text between tags
/// stands on a row of its own, two spaces deeper for each element that is
/// open around it. A `>` inside a quoted attribute value does not end the
/// tag. Comments, declarations, processing instructions, self-closed tags
/// and void elements open nothing. `None` when the text holds no token.
pub fn format_html(body: &str) -> (r: Option<String>)
    ensures
        opt_view(r) == html_formatted(body@),
{
    let v = chars_of(body);
    let tokens = scan_tokens(&v);
    match layout_tokens(&v, &tokens) {
        Some(text) => Some(string_of(&text)),
        None => None,
    }
}

} // verus!
