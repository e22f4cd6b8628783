//! Formatting HTML twice is formatting it once: the rows of the formatted
//! text are its tokens again.

use vstd::prelude::*;
use crate::html::{
    flush_text, html_formatted, html_layout, html_run, html_scan, html_start, html_step,
    html_tokens, indent, is_closing_tag, is_tag, layout_step, opens_element, HtmlLayout, HtmlScan,
};
use crate::text::{is_space, join_lines, trim, trim_end, trim_start};

verus! {

/// Whether the text holds nothing but whitespace.
pub open spec fn all_space(w: Seq<char>) -> bool {
    forall|i: int| 0 <= i < w.len() ==> is_space(#[trigger] w[i])
}

/// Leading whitespace does not count for what is left after it.
proof fn lemma_trim_start_pad(w: Seq<char>, x: Seq<char>)
    requires
        all_space(w),
    ensures
        trim_start(w + x) == trim_start(x),
    decreases w.len(),
{
    if w.len() == 0 {
        assert(w + x =~= x);
    } else {
        assert((w + x)[0] == w[0]);
        assert((w + x).drop_first() =~= w.drop_first() + x);
        lemma_trim_start_pad(w.drop_first(), x);
    }
}

/// Trailing whitespace does not count for what stands before it.
proof fn lemma_trim_end_pad(x: Seq<char>, w: Seq<char>)
    requires
        all_space(w),
    ensures
        trim_end(x + w) == trim_end(x),
    decreases w.len(),
{
    if w.len() == 0 {
        assert(x + w =~= x);
    } else {
        assert((x + w).last() == w.last());
        assert((x + w).drop_last() =~= x + w.drop_last());
        lemma_trim_end_pad(x, w.drop_last());
    }
}

/// What `trim_start` leaves is the text without a run of whitespace at its
/// start, and begins with no whitespace.
proof fn lemma_trim_start_split(x: Seq<char>) -> (w: Seq<char>)
    ensures
        all_space(w),
        x == w + trim_start(x),
        trim_start(x).len() > 0 ==> !is_space(trim_start(x)[0]),
    decreases x.len(),
{
    if x.len() > 0 && is_space(x[0]) {
        let rest = lemma_trim_start_split(x.drop_first());
        let w = seq![x[0]] + rest;
        assert(x =~= w + trim_start(x)) by {
            assert(x =~= seq![x[0]] + x.drop_first());
        }
        w
    } else {
        assert(x =~= Seq::<char>::empty() + x);
        Seq::empty()
    }
}

/// What `trim_end` leaves is the text without a run of whitespace at its
/// end, and ends with no whitespace.
proof fn lemma_trim_end_split(x: Seq<char>) -> (w: Seq<char>)
    ensures
        all_space(w),
        x == trim_end(x) + w,
        trim_end(x).len() > 0 ==> !is_space(trim_end(x).last()),
    decreases x.len(),
{
    if x.len() > 0 && is_space(x.last()) {
        let rest = lemma_trim_end_split(x.drop_last());
        let w = rest.push(x.last());
        assert(x =~= trim_end(x) + w) by {
            assert(x =~= x.drop_last().push(x.last()));
        }
        w
    } else {
        assert(x =~= x + Seq::<char>::empty());
        Seq::empty()
    }
}

/// Text that begins with no whitespace keeps its start under `trim_start`,
/// whatever follows.
proof fn lemma_trim_start_fixed(x: Seq<char>)
    requires
        x.len() > 0 ==> !is_space(x[0]),
    ensures
        trim_start(x) == x,
{
}

/// Text that ends with no whitespace keeps its end under `trim_end`.
proof fn lemma_trim_end_fixed(x: Seq<char>)
    requires
        x.len() > 0 ==> !is_space(x.last()),
    ensures
        trim_end(x) == x,
{
}

/// Trimming at the end leaves the start alone: the two trims commute.
proof fn lemma_trims_commute(x: Seq<char>)
    ensures
        trim_end(trim_start(x)) == trim_start(trim_end(x)),
{
    let lead = lemma_trim_start_split(x);
    let core = trim_start(x);
    let tail = lemma_trim_end_split(core);
    let mid = trim_end(core);
    // x == lead + mid + tail
    assert(x =~= (lead + mid) + tail);
    lemma_trim_end_pad(lead + mid, tail);
    if mid.len() == 0 {
        // x is all whitespace
        assert(lead + mid =~= lead);
        lemma_all_space_trims(lead);
        assert(trim_end(x) == trim_end(lead));
        assert(trim_start(trim_end(x)) == Seq::<char>::empty()) by {
            lemma_trim_end_blank(lead);
        }
    } else {
        assert((lead + mid).last() == mid.last());
        lemma_trim_end_fixed(lead + mid);
        lemma_trim_start_pad(lead, mid);
        assert(mid[0] == core[0]) by {
            assert(core =~= mid + tail);
        }
        lemma_trim_start_fixed(mid);
    }
}

/// Whitespace trims to nothing.
proof fn lemma_all_space_trims(w: Seq<char>)
    requires
        all_space(w),
    ensures
        trim_start(w) == Seq::<char>::empty(),
        trim_end(w) == Seq::<char>::empty(),
    decreases w.len(),
{
    if w.len() > 0 {
        lemma_all_space_trims(w.drop_first());
        lemma_all_space_trims(w.drop_last());
        assert(is_space(w[0]));
        assert(is_space(w.last()));
    } else {
        assert(w =~= Seq::<char>::empty());
    }
}

/// Whitespace trimmed at the end and then at the start is nothing.
proof fn lemma_trim_end_blank(w: Seq<char>)
    requires
        all_space(w),
    ensures
        trim_start(trim_end(w)) == Seq::<char>::empty(),
{
    lemma_all_space_trims(w);
}

/// A text whose trimmed form is empty is whitespace.
proof fn lemma_blank_is_space(x: Seq<char>)
    requires
        trim(x).len() == 0,
    ensures
        all_space(x),
{
    let lead = lemma_trim_start_split(x);
    let tail = lemma_trim_end_split(trim_start(x));
    assert(trim_end(trim_start(x)) =~= Seq::<char>::empty());
    assert(x =~= lead + tail);
}

/// Texts with the same rest after their leading whitespace have the same
/// rest when the same text follows both.
proof fn lemma_trim_start_extends(x: Seq<char>, y: Seq<char>, z: Seq<char>)
    requires
        trim_start(x) == trim_start(y),
    ensures
        trim_start(x + z) == trim_start(y + z),
{
    let lx = lemma_trim_start_split(x);
    let ly = lemma_trim_start_split(y);
    let t = trim_start(x);
    assert(x + z =~= lx + (t + z));
    assert(y + z =~= ly + (t + z));
    lemma_trim_start_pad(lx, t + z);
    lemma_trim_start_pad(ly, t + z);
}

/// Texts that have the same rest once a character that is no whitespace is
/// added to both have the same rest without it.
proof fn lemma_trim_start_shrinks(u: Seq<char>, v: Seq<char>, c: char)
    requires
        !is_space(c),
        trim_start(u.push(c)) == trim_start(v.push(c)),
    ensures
        trim_start(u) == trim_start(v),
{
    let lu = lemma_trim_start_split(u);
    let lv = lemma_trim_start_split(v);
    let tu = trim_start(u);
    let tv = trim_start(v);
    assert(u.push(c) =~= lu + tu.push(c));
    assert(v.push(c) =~= lv + tv.push(c));
    lemma_trim_start_pad(lu, tu.push(c));
    lemma_trim_start_pad(lv, tv.push(c));
    assert(tu.push(c)[0] == if tu.len() > 0 {
        tu[0]
    } else {
        c
    });
    assert(tv.push(c)[0] == if tv.len() > 0 {
        tv[0]
    } else {
        c
    });
    lemma_trim_start_fixed(tu.push(c));
    lemma_trim_start_fixed(tv.push(c));
    assert(tu =~= tu.push(c).drop_last());
    assert(tv =~= tv.push(c).drop_last());
}

/// Reading one more character is one more step.
proof fn lemma_run_push(st: HtmlScan, w: Seq<char>, c: char)
    ensures
        html_run(st, w.push(c)) == html_step(html_run(st, w), c),
{
    assert(w.push(c).drop_last() =~= w);
}

/// Reading two texts one after the other is reading their concatenation.
proof fn lemma_run_concat(st: HtmlScan, a: Seq<char>, b: Seq<char>)
    ensures
        html_run(st, a + b) == html_run(html_run(st, a), b),
    decreases b.len(),
{
    if b.len() == 0 {
        assert(a + b =~= a);
    } else {
        assert((a + b).drop_last() =~= a + b.drop_last());
        lemma_run_concat(st, a, b.drop_last());
    }
}

/// Whitespace only grows the pending text.
proof fn lemma_run_space(st: HtmlScan, w: Seq<char>)
    requires
        all_space(w),
    ensures
        html_run(st, w) == (HtmlScan { buf: st.buf + w, ..st }),
    decreases w.len(),
{
    if w.len() == 0 {
        assert(st.buf + w =~= st.buf);
    } else {
        lemma_run_space(st, w.drop_last());
        let c = w.last();
        assert(is_space(c));
        assert((st.buf + w.drop_last()).push(c) =~= st.buf + w);
    }
}

/// Inside a tag the pending text begins with the `<` that opened the tag.
proof fn lemma_tag_begins(p: Seq<char>)
    ensures
        html_scan(p).in_tag ==> html_scan(p).buf.len() > 0 && html_scan(p).buf[0] == '<',
    decreases p.len(),
{
    if p.len() > 0 {
        lemma_tag_begins(p.drop_last());
    }
}

/// Text that begins with no whitespace keeps its first character when its
/// end is trimmed.
proof fn lemma_trim_end_keeps_start(x: Seq<char>)
    requires
        x.len() > 0,
        !is_space(x[0]),
    ensures
        trim_end(x).len() > 0,
        trim_end(x)[0] == x[0],
    decreases x.len(),
{
    if is_space(x.last()) {
        lemma_trim_end_keeps_start(x.drop_last());
    }
}

/// Whether every pad holds nothing but whitespace.
pub open spec fn pads_ok(pads: Seq<Seq<char>>) -> bool {
    forall|k: int| 0 <= k < pads.len() ==> all_space(#[trigger] pads[k])
}

/// The tokens written one after the other, each behind its pad.
pub open spec fn padded(tokens: Seq<Seq<char>>, pads: Seq<Seq<char>>) -> Seq<char>
    decreases tokens.len(),
{
    if tokens.len() == 0 || pads.len() == 0 {
        Seq::empty()
    } else {
        padded(tokens.drop_last(), pads.drop_last()) + pads.last() + tokens.last()
    }
}

/// Whether `b` can stand for the pending text of `st`: inside a tag it is
/// the same but for trailing whitespace, outside a tag but for whitespace
/// at both ends.
spec fn variant(b: Seq<char>, st: HtmlScan) -> bool {
    if st.in_tag {
        trim_end(b) == trim_end(st.buf)
    } else {
        trim_start(trim_end(b)) == trim_start(trim_end(st.buf))
    }
}

/// Whether `r` is the state `st` with `b` for its pending text: inside a
/// tag exactly, outside a tag but for leading whitespace.
spec fn rel(r: HtmlScan, st: HtmlScan, b: Seq<char>) -> bool {
    &&& r.tokens == st.tokens
    &&& r.in_tag == st.in_tag
    &&& r.in_single == st.in_single
    &&& r.in_double == st.in_double
    &&& if st.in_tag {
        r.buf == b
    } else {
        trim_start(r.buf) == trim_start(b)
    }
}

/// The trimmed form of a text that is not blank: it begins and ends with
/// no whitespace, and it is what is left of the text when its end is
/// trimmed after its start, or its start after its end.
proof fn lemma_trim_core(x: Seq<char>)
    requires
        trim(x).len() > 0,
    ensures
        !is_space(trim(x)[0]),
        !is_space(trim(x).last()),
        trim_start(trim(x)) == trim(x),
        trim_end(trim(x)) == trim(x),
        trim_start(trim_end(x)) == trim(x),
{
    let lead = lemma_trim_start_split(x);
    let core = trim_start(x);
    let tail = lemma_trim_end_split(core);
    assert(core =~= trim(x) + tail);
    assert(trim(x)[0] == core[0]);
    lemma_trim_start_fixed(trim(x));
    lemma_trim_end_fixed(trim(x));
    lemma_trims_commute(x);
}

/// Scanning the tokens of a scanner state again, each behind any run of
/// whitespace, and then a text that stands for the pending text, leads to
/// the same state.
proof fn lemma_rescan(p: Seq<char>, pads: Seq<Seq<char>>, q: Seq<char>, b: Seq<char>)
    requires
        pads.len() == html_scan(p).tokens.len(),
        pads_ok(pads),
        all_space(q),
        variant(b, html_scan(p)),
    ensures
        rel(html_scan(padded(html_scan(p).tokens, pads) + q + b), html_scan(p), b),
    decreases p.len(), q.len(),
{
    let st = html_scan(p);
    let page = padded(st.tokens, pads);
    let none = Seq::<char>::empty();
    if !st.in_tag && q.len() > 0 {
        lemma_trims_commute(q + b);
        lemma_trims_commute(b);
        lemma_trim_start_pad(q, b);
        lemma_rescan(p, pads, none, q + b);
        assert(page + none + (q + b) =~= page + q + b);
    } else if p.len() == 0 {
        assert(page =~= none);
        lemma_trims_commute(b);
        assert(trim_end(none) =~= none);
        assert(trim(b) =~= none);
        lemma_blank_is_space(b);
        assert(page + q + b =~= b);
        lemma_run_space(html_start(), b);
        assert(html_start().buf + b =~= b);
    } else {
        let p0 = p.drop_last();
        let c = p.last();
        let st0 = html_scan(p0);
        assert(p0.push(c) =~= p);
        lemma_run_push(html_start(), p0, c);
        assert(st == html_step(st0, c));
        lemma_tag_begins(p0);
        if c == '<' {
            lemma_rescan_open(p, pads, q, b);
        } else {
            let single = if st0.in_tag && c == '\'' && !st0.in_double {
                !st0.in_single
            } else {
                st0.in_single
            };
            let double = if st0.in_tag && c == '"' && !st0.in_single {
                !st0.in_double
            } else {
                st0.in_double
            };
            if c == '>' && st0.in_tag && !single && !double {
                lemma_rescan_close(p, pads, q, b);
            } else if st0.in_tag {
                lemma_rescan_inside(p, pads, q, b);
            } else {
                lemma_rescan_outside(p, pads, q, b);
            }
        }
    }
}

/// `lemma_rescan` where the last character opens a tag.
proof fn lemma_rescan_open(p: Seq<char>, pads: Seq<Seq<char>>, q: Seq<char>, b: Seq<char>)
    requires
        p.len() > 0,
        p.last() == '<',
        pads.len() == html_scan(p).tokens.len(),
        pads_ok(pads),
        all_space(q),
        variant(b, html_scan(p)),
    ensures
        rel(html_scan(padded(html_scan(p).tokens, pads) + q + b), html_scan(p), b),
    decreases p.len(), q.len(), 0nat,
{
    let st = html_scan(p);
    let page = padded(st.tokens, pads);
    let none = Seq::<char>::empty();
    let p0 = p.drop_last();
    let c = p.last();
    let st0 = html_scan(p0);
    assert(p0.push(c) =~= p);
    lemma_run_push(html_start(), p0, c);
    assert(st == html_step(st0, c));
    lemma_tag_begins(p0);
    let open = seq!['<'];
    lemma_trim_end_fixed(open);
    let w = lemma_trim_end_split(b);
    assert(b == open + w);
    if trim(st0.buf).len() == 0 {
        if st0.in_tag {
            lemma_trim_start_fixed(st0.buf);
            lemma_trim_end_keeps_start(st0.buf);
        }
        assert(!st0.in_tag);
        lemma_all_space_trims(q);
        lemma_trim_end_blank(q);
        lemma_trims_commute(st0.buf);
        assert(trim(st0.buf) =~= none);
        lemma_rescan(p0, pads, none, q);
        let x = page + none + q;
        let r0 = html_scan(x);
        assert(page + q + b =~= x.push('<') + w);
        lemma_run_concat(html_start(), x.push('<'), w);
        lemma_run_push(html_start(), x, '<');
        let r1 = html_step(r0, '<');
        assert(trim(r0.buf) =~= none) by {
            assert(trim_start(r0.buf) =~= none);
        }
        lemma_run_space(r1, w);
    } else {
        let tau = trim(st0.buf);
        lemma_trim_core(st0.buf);
        let pads0 = pads.drop_last();
        let pl = pads.last();
        let page0 = padded(st0.tokens, pads0);
        assert(st.tokens == st0.tokens.push(tau));
        assert(st.tokens.drop_last() =~= st0.tokens);
        assert(page == page0 + pl + tau);
        assert(all_space(pl));
        if st0.in_tag {
            lemma_trim_start_fixed(st0.buf);
            let b0 = tau + q;
            lemma_trim_end_pad(tau, q);
            lemma_rescan(p0, pads0, pl, b0);
            let x = page0 + pl + b0;
            let r0 = html_scan(x);
            assert(page + q + b =~= x.push('<') + w);
            lemma_run_concat(html_start(), x.push('<'), w);
            lemma_run_push(html_start(), x, '<');
            let r1 = html_step(r0, '<');
            assert(b0[0] == tau[0]);
            lemma_trim_start_fixed(b0);
            assert(trim(r0.buf) == tau);
            lemma_run_space(r1, w);
        } else {
            let b0 = pl + tau + q;
            assert(b0 =~= (pl + tau) + q);
            lemma_trim_end_pad(pl + tau, q);
            assert((pl + tau).last() == tau.last());
            lemma_trim_end_fixed(pl + tau);
            lemma_trim_start_pad(pl, tau);
            lemma_rescan(p0, pads0, none, b0);
            let x = page0 + none + b0;
            let r0 = html_scan(x);
            assert(page + q + b =~= x.push('<') + w);
            lemma_run_concat(html_start(), x.push('<'), w);
            lemma_run_push(html_start(), x, '<');
            let r1 = html_step(r0, '<');
            assert(b0 =~= pl + (tau + q));
            lemma_trim_start_pad(pl, tau + q);
            assert((tau + q)[0] == tau[0]);
            lemma_trim_start_fixed(tau + q);
            lemma_trim_end_pad(tau, q);
            assert(trim(r0.buf) == tau);
            lemma_run_space(r1, w);
        }
    }
}

/// `lemma_rescan` where the last character closes a tag.
proof fn lemma_rescan_close(p: Seq<char>, pads: Seq<Seq<char>>, q: Seq<char>, b: Seq<char>)
    requires
        p.len() > 0,
        p.last() == '>',
        html_scan(p.drop_last()).in_tag,
        !html_scan(p).in_tag,
        pads.len() == html_scan(p).tokens.len(),
        pads_ok(pads),
        q.len() == 0,
        variant(b, html_scan(p)),
    ensures
        rel(html_scan(padded(html_scan(p).tokens, pads) + q + b), html_scan(p), b),
    decreases p.len(), q.len(), 0nat,
{
    let st = html_scan(p);
    let page = padded(st.tokens, pads);
    let none = Seq::<char>::empty();
    let p0 = p.drop_last();
    let c = p.last();
    let st0 = html_scan(p0);
    assert(p0.push(c) =~= p);
    lemma_run_push(html_start(), p0, c);
    assert(st == html_step(st0, c));
    assert(st.buf =~= none);
    assert(trim_end(none) =~= none);
    lemma_trims_commute(b);
    assert(trim(b) =~= none);
    lemma_blank_is_space(b);
    let pads0 = pads.drop_last();
    let pl = pads.last();
    let page0 = padded(st0.tokens, pads0);
    assert(st.tokens == st0.tokens.push(st0.buf.push(c)));
    assert(st.tokens.drop_last() =~= st0.tokens);
    assert(page == page0 + pl + st0.buf.push(c));
    assert(all_space(pl));
    lemma_rescan(p0, pads0, pl, st0.buf);
    let x = page0 + pl + st0.buf;
    let r0 = html_scan(x);
    assert(page + q + b =~= x.push(c) + b);
    lemma_run_concat(html_start(), x.push(c), b);
    lemma_run_push(html_start(), x, c);
    let r1 = html_step(r0, c);
    lemma_run_space(r1, b);
    assert(r1.buf + b =~= b);
}

/// `lemma_rescan` where the last character goes on inside a tag.
proof fn lemma_rescan_inside(p: Seq<char>, pads: Seq<Seq<char>>, q: Seq<char>, b: Seq<char>)
    requires
        p.len() > 0,
        p.last() != '<',
        html_scan(p.drop_last()).in_tag,
        html_scan(p).in_tag,
        pads.len() == html_scan(p).tokens.len(),
        pads_ok(pads),
        all_space(q),
        variant(b, html_scan(p)),
    ensures
        rel(html_scan(padded(html_scan(p).tokens, pads) + q + b), html_scan(p), b),
    decreases p.len(), q.len(), 0nat,
{
    let st = html_scan(p);
    let page = padded(st.tokens, pads);
    let p0 = p.drop_last();
    let c = p.last();
    let st0 = html_scan(p0);
    assert(p0.push(c) =~= p);
    lemma_run_push(html_start(), p0, c);
    assert(st == html_step(st0, c));
    assert(st.buf == st0.buf.push(c));
    assert(st.buf.drop_last() =~= st0.buf);
    if is_space(c) {
        lemma_rescan(p0, pads, q, b);
    } else {
        lemma_trim_end_fixed(st.buf);
        let w = lemma_trim_end_split(b);
        lemma_rescan(p0, pads, q, st0.buf);
        let x = page + q + st0.buf;
        let r0 = html_scan(x);
        assert(page + q + b =~= x.push(c) + w);
        lemma_run_concat(html_start(), x.push(c), w);
        lemma_run_push(html_start(), x, c);
        let r1 = html_step(r0, c);
        lemma_run_space(r1, w);
    }
}

/// `lemma_rescan` where the last character goes on outside a tag.
proof fn lemma_rescan_outside(p: Seq<char>, pads: Seq<Seq<char>>, q: Seq<char>, b: Seq<char>)
    requires
        p.len() > 0,
        p.last() != '<',
        !html_scan(p.drop_last()).in_tag,
        pads.len() == html_scan(p).tokens.len(),
        pads_ok(pads),
        q.len() == 0,
        variant(b, html_scan(p)),
    ensures
        rel(html_scan(padded(html_scan(p).tokens, pads) + q + b), html_scan(p), b),
    decreases p.len(), q.len(), 0nat,
{
    let st = html_scan(p);
    let page = padded(st.tokens, pads);
    let none = Seq::<char>::empty();
    let p0 = p.drop_last();
    let c = p.last();
    let st0 = html_scan(p0);
    assert(p0.push(c) =~= p);
    lemma_run_push(html_start(), p0, c);
    assert(st == html_step(st0, c));
    assert(st.buf == st0.buf.push(c));
    assert(st.buf.drop_last() =~= st0.buf);
    assert(q =~= none);
    if is_space(c) {
        lemma_rescan(p0, pads, none, b);
        assert(page + none + b =~= page + q + b);
    } else {
        lemma_trim_end_fixed(st.buf);
        let e = trim_end(b);
        let w = lemma_trim_end_split(b);
        let l0 = lemma_trim_start_split(st.buf);
        let ts = trim_start(st.buf);
        if ts.len() == 0 {
            assert(st.buf =~= l0);
            assert(is_space(st.buf[st.buf.len() - 1]));
        }
        assert(ts.last() == c) by {
            assert(st.buf == l0 + ts);
            assert(st.buf.last() == c);
        }
        let le = lemma_trim_start_split(e);
        assert(e.last() == c) by {
            assert(e == le + ts);
        }
        let u = e.drop_last();
        assert(e =~= u.push(c));
        lemma_trim_start_shrinks(u, st0.buf, c);
        lemma_trims_commute(u);
        lemma_trims_commute(st0.buf);
        lemma_rescan(p0, pads, none, u);
        let x = page + none + u;
        let r0 = html_scan(x);
        assert(page + q + b =~= x.push(c) + w);
        lemma_run_concat(html_start(), x.push(c), w);
        lemma_run_push(html_start(), x, c);
        let r1 = html_step(r0, c);
        lemma_run_space(r1, w);
        lemma_trim_start_extends(r0.buf, u, seq![c] + w);
        assert(r0.buf.push(c) + w =~= r0.buf + (seq![c] + w));
        assert(b =~= u + (seq![c] + w));
    }
}

/// Scanning the tokens of a text again, each behind any run of whitespace,
/// gives the same tokens.
pub proof fn lemma_tokens_again(s: Seq<char>, pads: Seq<Seq<char>>)
    requires
        pads.len() == html_tokens(s).len(),
        pads_ok(pads),
    ensures
        html_tokens(padded(html_tokens(s), pads)) == html_tokens(s),
{
    let st = html_scan(s);
    let none = Seq::<char>::empty();
    lemma_tag_begins(s);
    if trim(st.buf).len() == 0 {
        if st.in_tag {
            lemma_trim_start_fixed(st.buf);
            lemma_trim_end_keeps_start(st.buf);
        }
        lemma_trims_commute(st.buf);
        assert(trim(st.buf) =~= none);
        assert(trim_end(none) =~= none);
        lemma_rescan(s, pads, none, none);
        let page = padded(st.tokens, pads);
        assert(page + none + none =~= page);
        let r = html_scan(page);
        assert(trim(r.buf) =~= none) by {
            assert(trim_start(r.buf) =~= none);
        }
    } else {
        let tau = trim(st.buf);
        lemma_trim_core(st.buf);
        let pads0 = pads.drop_last();
        let pl = pads.last();
        let tokens = st.tokens.push(tau);
        assert(tokens.drop_last() =~= st.tokens);
        let page0 = padded(st.tokens, pads0);
        assert(all_space(pl));
        if st.in_tag {
            lemma_trim_start_fixed(st.buf);
            lemma_rescan(s, pads0, pl, tau);
            let r = html_scan(page0 + pl + tau);
            assert(r.buf == tau);
        } else {
            let b0 = pl + tau;
            assert(b0.last() == tau.last());
            lemma_trim_end_fixed(b0);
            lemma_trim_start_pad(pl, tau);
            lemma_rescan(s, pads0, none, b0);
            assert(page0 + none + b0 =~= page0 + pl + tau);
            let r = html_scan(page0 + pl + tau);
            assert(trim(r.buf) == tau);
        }
    }
}

/// The depth at which the layout puts the row of a token.
pub open spec fn row_depth(l: HtmlLayout, t: Seq<char>) -> nat {
    if is_tag(t) && is_closing_tag(t) && l.depth > 0 {
        (l.depth - 1) as nat
    } else {
        l.depth
    }
}

/// What the formatted text puts in front of each token: the indentation of
/// its row, behind a line feed for every row but the first.
pub open spec fn layout_pads(tokens: Seq<Seq<char>>) -> Seq<Seq<char>>
    decreases tokens.len(),
{
    if tokens.len() == 0 {
        Seq::empty()
    } else {
        let d = row_depth(html_layout(tokens.drop_last()), tokens.last());
        layout_pads(tokens.drop_last()).push(
            if tokens.len() == 1 {
                indent(d)
            } else {
                seq!['\n'] + indent(d)
            },
        )
    }
}

/// The formatted text is its tokens, each behind its pad of whitespace.
pub proof fn lemma_layout_renders(tokens: Seq<Seq<char>>)
    ensures
        html_layout(tokens).rows.len() == tokens.len(),
        layout_pads(tokens).len() == tokens.len(),
        pads_ok(layout_pads(tokens)),
        join_lines(html_layout(tokens).rows) == padded(tokens, layout_pads(tokens)),
    decreases tokens.len(),
{
    if tokens.len() > 0 {
        let rest = tokens.drop_last();
        let t = tokens.last();
        lemma_layout_renders(rest);
        let before = html_layout(rest);
        let d = row_depth(before, t);
        let rows = html_layout(tokens).rows;
        assert(html_layout(tokens) == layout_step(before, t));
        assert(rows == before.rows.push(indent(d) + t));
        assert(rows.drop_last() =~= before.rows);
        let pad = if tokens.len() == 1 {
            indent(d)
        } else {
            seq!['\n'] + indent(d)
        };
        assert(all_space(indent(d)));
        assert(all_space(pad));
        assert(layout_pads(tokens).drop_last() =~= layout_pads(rest));
        if tokens.len() == 1 {
            assert(padded(rest, layout_pads(rest)) =~= Seq::<char>::empty());
            assert(join_lines(rows) =~= padded(tokens, layout_pads(tokens)));
        } else {
            assert(join_lines(rows) =~= padded(tokens, layout_pads(tokens)));
        }
    }
}

/// Formatting a formatted HTML text again changes nothing.
pub proof fn lemma_html_format_is_stable(body: Seq<char>)
    requires
        html_formatted(body) is Some,
    ensures
        html_formatted(html_formatted(body)->Some_0) == html_formatted(body),
{
    let tokens = html_tokens(body);
    lemma_layout_renders(tokens);
    lemma_tokens_again(body, layout_pads(tokens));
}

/// Which quotes are open after the text of a tag, read from behind its `<`:
/// the single quote and the double quote. A quote character toggles its own
/// quote unless the other one is open.
pub open spec fn quotes_after(s: Seq<char>) -> (bool, bool)
    decreases s.len(),
{
    if s.len() == 0 {
        (false, false)
    } else {
        let q = quotes_after(s.drop_last());
        if s.last() == '\'' && !q.1 {
            (!q.0, q.1)
        } else if s.last() == '"' && !q.0 {
            (q.0, !q.1)
        } else {
            q
        }
    }
}

/// Whether the text is a tag whose `>` characters stand inside quoted
/// attribute values, but for the last, which stands outside every quote;
/// it begins with `<` and holds no other `<`.
pub open spec fn is_quoted_tag(t: Seq<char>) -> bool {
    &&& t.len() >= 2
    &&& t[0] == '<'
    &&& t.last() == '>'
    &&& forall|i: int| 1 <= i < t.len() ==> t[i] != '<'
    &&& forall|i: int|
        1 <= i < t.len() - 1 && t[i] == '>' ==> {
            let q = #[trigger] quotes_after(t.subrange(1, i));
            q.0 || q.1
        }
    &&& quotes_after(t.subrange(1, t.len() - 1)) == (false, false)
}

/// Outside a tag no quote is open.
pub proof fn lemma_quotes_closed_outside(p: Seq<char>)
    ensures
        !html_scan(p).in_tag ==> !html_scan(p).in_single && !html_scan(p).in_double,
    decreases p.len(),
{
    if p.len() > 0 {
        lemma_quotes_closed_outside(p.drop_last());
    }
}

/// Behind its `<`, a quoted tag stays open up to its last character.
proof fn lemma_inside_quoted_tag(st: HtmlScan, t: Seq<char>, i: int)
    requires
        is_quoted_tag(t),
        1 <= i <= t.len() - 1,
        st.in_tag,
        !st.in_single,
        !st.in_double,
        st.buf == seq!['<'],
    ensures
        html_run(st, t.subrange(1, i)) == (HtmlScan {
            tokens: st.tokens,
            buf: t.subrange(0, i),
            in_tag: true,
            in_single: quotes_after(t.subrange(1, i)).0,
            in_double: quotes_after(t.subrange(1, i)).1,
        }),
    decreases i,
{
    if i == 1 {
        assert(t.subrange(1, 1) =~= Seq::<char>::empty());
        assert(t.subrange(0, 1) =~= seq!['<']);
    } else {
        lemma_inside_quoted_tag(st, t, i - 1);
        let c = t[i - 1];
        assert(t.subrange(1, i) =~= t.subrange(1, i - 1).push(c));
        assert(t.subrange(1, i).drop_last() =~= t.subrange(1, i - 1));
        lemma_run_push(st, t.subrange(1, i - 1), c);
        assert(t.subrange(0, i) =~= t.subrange(0, i - 1).push(c));
        if c == '>' {
            let q = quotes_after(t.subrange(1, i - 1));
            assert(q.0 || q.1);
        }
    }
}

/// A quoted tag that is read where no quote is open becomes one token, and
/// leaves the scanner outside a tag with nothing pending.
pub proof fn lemma_quoted_tag_is_a_token(pre: Seq<char>, t: Seq<char>)
    requires
        is_quoted_tag(t),
        !html_scan(pre).in_single,
        !html_scan(pre).in_double,
    ensures
        html_scan(pre + t) == (HtmlScan {
            tokens: flush_text(html_scan(pre).tokens, html_scan(pre).buf).push(t),
            buf: Seq::empty(),
            in_tag: false,
            in_single: false,
            in_double: false,
        }),
{
    let st0 = html_scan(pre);
    let st1 = html_step(st0, '<');
    let n = t.len() as int;
    let inner = t.subrange(1, n - 1);
    assert(pre + t =~= (pre.push('<') + inner).push('>'));
    lemma_run_push(html_start(), pre.push('<') + inner, '>');
    lemma_run_concat(html_start(), pre.push('<'), inner);
    lemma_run_push(html_start(), pre, '<');
    lemma_inside_quoted_tag(st1, t, n - 1);
    assert(t.subrange(0, n - 1).push('>') =~= t);
}

/// What the scanner has completed stays completed: reading on only adds
/// tokens behind those that are there.
pub proof fn lemma_tokens_stay(st: HtmlScan, w: Seq<char>)
    ensures
        html_run(st, w).tokens.len() >= st.tokens.len(),
        html_run(st, w).tokens.take(st.tokens.len() as int) == st.tokens,
    decreases w.len(),
{
    if w.len() == 0 {
        assert(st.tokens.take(st.tokens.len() as int) =~= st.tokens);
    } else {
        lemma_tokens_stay(st, w.drop_last());
        let before = html_run(st, w.drop_last());
        let after = html_run(st, w);
        assert(after == html_step(before, w.last()));
        assert(after.tokens.take(st.tokens.len() as int) =~= before.tokens.take(
            st.tokens.len() as int,
        ));
    }
}

/// Each token is one row of the layout: the token behind the indentation
/// of its depth.
pub proof fn lemma_token_is_a_row(tokens: Seq<Seq<char>>, k: int)
    requires
        0 <= k < tokens.len(),
    ensures
        html_layout(tokens).rows.len() == tokens.len(),
        html_layout(tokens).rows[k] == indent(row_depth(html_layout(tokens.take(k)), tokens[k]))
            + tokens[k],
    decreases tokens.len(),
{
    lemma_layout_renders(tokens);
    let rest = tokens.drop_last();
    lemma_layout_renders(rest);
    let before = html_layout(rest);
    assert(html_layout(tokens) == layout_step(before, tokens.last()));
    if k == tokens.len() - 1 {
        assert(tokens.take(k) =~= rest);
    } else {
        lemma_token_is_a_row(rest, k);
        assert(rest.take(k) =~= tokens.take(k));
    }
}

/// A quoted tag that stands in a text where no quote is open before it is
/// one token of the text and one row of the formatted text, whole, behind
/// the indentation of its depth: no `>` inside a quoted value ends it, and
/// its last `>` does.
pub proof fn lemma_quoted_tag_is_a_row(pre: Seq<char>, t: Seq<char>, post: Seq<char>) -> (k: int)
    requires
        is_quoted_tag(t),
        !html_scan(pre).in_single,
        !html_scan(pre).in_double,
    ensures
        0 <= k < html_tokens(pre + t + post).len(),
        k == html_tokens(pre).len(),
        html_tokens(pre + t + post)[k] == t,
        html_layout(html_tokens(pre + t + post)).rows.len() == html_tokens(pre + t + post).len(),
        html_layout(html_tokens(pre + t + post)).rows[k] == indent(
            row_depth(html_layout(html_tokens(pre + t + post).take(k)), t),
        ) + t,
        html_formatted(pre + t + post) == Some(
            join_lines(html_layout(html_tokens(pre + t + post)).rows),
        ),
{
    let mid = html_scan(pre + t);
    lemma_quoted_tag_is_a_token(pre, t);
    lemma_run_concat(html_start(), pre + t, post);
    lemma_tokens_stay(mid, post);
    let end = html_scan(pre + t + post);
    let tokens = html_tokens(pre + t + post);
    let k = html_tokens(pre).len() as int;
    assert(mid.tokens.len() == k + 1);
    assert(mid.tokens[k] == t);
    assert(end.tokens.take(k + 1)[k] == end.tokens[k]);
    assert(tokens[k] == t);
    lemma_token_is_a_row(tokens, k);
    k
}

} // verus!
