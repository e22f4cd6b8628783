//! Syntax highlighting of the displayed body: the highlighter's events are
//! turned into rows of styled spans, one row for each line of the text.

use vstd::prelude::*;
use vstd::utf8::{
    encode_utf8, encode_utf8_valid_utf8, is_char_boundary,
    is_char_boundary_iff_not_is_continuation_byte, is_char_boundary_start_end_of_seq,
    valid_utf8, valid_utf8_split,
};
use vstd::string::StringSliceAdditionalSpecFns;
use tree_sitter_highlight::{HighlightConfiguration, HighlightEvent as Step, Highlighter};
use crate::format::{classify, content_kind, opt_str_view, ContentKind};
use crate::text::{chars_of, same_text};

verus! {

/// The languages that can be highlighted.
#[derive(Debug, Copy, Clone, PartialEq, Eq, Structural)]
pub enum Syntax {
    Json,
    Html,
}

/// One step of a highlighted text: a highlight starts, the innermost
/// highlight ends, or the bytes from `start` up to `end` are to be shown.
#[derive(Debug, Copy, Clone, PartialEq, Eq, Structural)]
pub enum HighlightEvent {
    Source { start: usize, end: usize },
    Start(usize),
    End,
}

/// The colours of the display styles.
#[derive(Debug, Copy, Clone, PartialEq, Eq, Structural)]
pub enum Color {
    Default,
    Green,
    Yellow,
    Cyan,
    Blue,
    Magenta,
    DarkGray,
    LightBlue,
}

/// A display style: a colour, and whether the text is set in italics.
#[derive(Debug, Copy, Clone, PartialEq, Eq, Structural)]
pub struct Style {
    pub color: Color,
    pub italic: bool,
}

/// A run of text in one style.
#[derive(Debug, Clone)]
pub struct StyledSpan {
    pub text: String,
    pub style: Style,
}

/// A span as the contracts see it: the UTF-8 bytes of its text and its style.
pub struct SpanModel {
    pub bytes: Seq<u8>,
    pub style: Style,
}

/// State of the painter after some prefix of the events.
pub struct Painter {
    /// Rows that are complete.
    pub rows: Seq<Seq<SpanModel>>,
    /// Spans of the row in progress.
    pub row: Seq<SpanModel>,
    /// The highlights that are open, innermost last.
    pub stack: Seq<usize>,
    /// Whether every source range so far lay inside the text, on character
    /// boundaries.
    pub ok: bool,
}

impl View for StyledSpan {
    type V = SpanModel;

    open spec fn view(&self) -> SpanModel {
        SpanModel { bytes: encode_utf8(self.text@), style: self.style }
    }
}

/// The rows as the contracts see them.
pub open spec fn rows_view(rows: Seq<Vec<StyledSpan>>) -> Seq<Seq<SpanModel>> {
    rows.map_values(|row: Vec<StyledSpan>| row@.map_values(|span: StyledSpan| span@))
}

/// The optional rows as the contracts see them.
pub open spec fn opt_rows_view(rows: Option<Vec<Vec<StyledSpan>>>) -> Option<Seq<Seq<SpanModel>>> {
    match rows {
        Some(r) => Some(rows_view(r@)),
        None => None,
    }
}

/// The texts of a list of string slices.
pub open spec fn names_view(names: Seq<&'static str>) -> Seq<Seq<char>> {
    names.map_values(|s: &'static str| s@)
}

/// The optional events, as a sequence.
pub open spec fn opt_events_view(events: Option<Vec<HighlightEvent>>) -> Option<
    Seq<HighlightEvent>,
> {
    match events {
        Some(e) => Some(e@),
        None => None,
    }
}

/// The events that the tree-sitter highlighter yields for a text, with the
/// grammar and queries of the syntax and the given list of highlight names;
/// nothing where it fails. `Start` carries a position in the list of names.
pub uninterp spec fn highlight_trace(
    syntax: Syntax,
    names: Seq<Seq<char>>,
    source: Seq<char>,
) -> Option<Seq<HighlightEvent>>;

/// The style without colour or emphasis.
pub open spec fn plain() -> Style {
    Style { color: Color::Default, italic: false }
}

/// The display style of a highlight name: strings green, numbers yellow,
/// constants cyan, properties and attributes blue, tags and keywords
/// magenta, comments dark gray and in italics, punctuation dark gray, types
/// light blue; every other name plain.
pub open spec fn name_style(name: Seq<char>) -> Style {
    if name == "string"@ || name == "string.special"@ {
        Style { color: Color::Green, italic: false }
    } else if name == "number"@ {
        Style { color: Color::Yellow, italic: false }
    } else if name == "boolean"@ || name == "constant"@ || name == "constant.builtin"@ || name
        == "null"@ {
        Style { color: Color::Cyan, italic: false }
    } else if name == "property"@ || name == "property.builtin"@ || name == "attribute"@ {
        Style { color: Color::Blue, italic: false }
    } else if name == "tag"@ || name == "tag.builtin"@ || name == "keyword"@ {
        Style { color: Color::Magenta, italic: false }
    } else if name == "comment"@ {
        Style { color: Color::DarkGray, italic: true }
    } else if name == "punctuation"@ || name == "punctuation.bracket"@ || name
        == "punctuation.delimiter"@ || name == "punctuation.special"@ {
        Style { color: Color::DarkGray, italic: false }
    } else if name == "type"@ || name == "type.builtin"@ || name == "constructor"@ {
        Style { color: Color::LightBlue, italic: false }
    } else {
        plain()
    }
}

/// The highlight names that the highlighter is asked to recognize.
pub open spec fn recognized_names() -> Seq<Seq<char>> {
    seq![
        "attribute"@,
        "comment"@,
        "constant"@,
        "constant.builtin"@,
        "constructor"@,
        "embedded"@,
        "function"@,
        "function.builtin"@,
        "keyword"@,
        "module"@,
        "number"@,
        "operator"@,
        "property"@,
        "property.builtin"@,
        "punctuation"@,
        "punctuation.bracket"@,
        "punctuation.delimiter"@,
        "punctuation.special"@,
        "string"@,
        "string.special"@,
        "tag"@,
        "type"@,
        "type.builtin"@,
        "variable"@,
        "variable.builtin"@,
        "boolean"@,
        "null"@,
    ]
}

/// The style of the text under the open highlights: that of the innermost
/// one, plain where none is open or its position names nothing.
pub open spec fn stack_style(stack: Seq<usize>) -> Style {
    if stack.len() > 0 && stack.last() < recognized_names().len() {
        name_style(recognized_names()[stack.last() as int])
    } else {
        plain()
    }
}

/// Whether the range lies inside the text and on character boundaries.
pub open spec fn source_ok(bytes: Seq<u8>, start: usize, end: usize) -> bool {
    start <= end <= bytes.len() && is_char_boundary(bytes, start as int) && is_char_boundary(
        bytes,
        end as int,
    )
}

/// Index of the first line feed in the bytes, or their number when there is
/// none.
pub open spec fn first_line_feed(bytes: Seq<u8>) -> int
    decreases bytes.len(),
{
    if bytes.len() == 0 || bytes[0] == 0x0A {
        0
    } else {
        1 + first_line_feed(bytes.drop_first())
    }
}

/// The painter after a piece of source in one style. Each line feed in the
/// piece ends the row in progress; what stands between line feeds becomes a
/// span unless it is empty.
pub open spec fn paint_slice(p: Painter, piece: Seq<u8>, style: Style) -> Painter
    decreases piece.len(),
{
    let i = first_line_feed(piece);
    let row = if i > 0 {
        p.row.push(SpanModel { bytes: piece.take(i), style })
    } else {
        p.row
    };
    if 0 <= i < piece.len() {
        paint_slice(
            Painter { rows: p.rows.push(row), row: Seq::empty(), ..p },
            piece.skip(i + 1),
            style,
        )
    } else {
        Painter { row, ..p }
    }
}

/// One step of the painter.
pub open spec fn paint_step(bytes: Seq<u8>, p: Painter, event: HighlightEvent) -> Painter {
    match event {
        HighlightEvent::Start(id) => Painter { stack: p.stack.push(id), ..p },
        HighlightEvent::End => Painter {
            stack: if p.stack.len() > 0 {
                p.stack.drop_last()
            } else {
                p.stack
            },
            ..p
        },
        HighlightEvent::Source { start, end } => if source_ok(bytes, start, end) {
            paint_slice(p, bytes.subrange(start as int, end as int), stack_style(p.stack))
        } else {
            Painter { ok: false, ..p }
        },
    }
}

/// The painter after all the events.
pub open spec fn painted(bytes: Seq<u8>, events: Seq<HighlightEvent>) -> Painter {
    events.fold_left(
        Painter { rows: Seq::empty(), row: Seq::empty(), stack: Seq::empty(), ok: true },
        |p: Painter, event: HighlightEvent| paint_step(bytes, p, event),
    )
}

/// The rows of styled spans that the events stand for; nothing where a
/// source range does not fit the text.
pub open spec fn styled_rows(bytes: Seq<u8>, events: Seq<HighlightEvent>) -> Option<
    Seq<Seq<SpanModel>>,
> {
    let p = painted(bytes, events);
    if p.ok {
        Some(p.rows.push(p.row))
    } else {
        None
    }
}

/// The syntax that goes with a kind of content, if it can be highlighted.
pub open spec fn syntax_of(kind: ContentKind) -> Option<Syntax> {
    match kind {
        ContentKind::Json => Some(Syntax::Json),
        ContentKind::Html => Some(Syntax::Html),
        ContentKind::Other => None,
    }
}

/// The highlighted rows of a body, given what the highlighter yields for
/// it: nothing for content that has no syntax here, nothing where the
/// highlighter fails, else the rows that its events stand for.
pub open spec fn highlighted(
    body: Seq<char>,
    content_type: Option<Seq<char>>,
    trace: Option<Seq<HighlightEvent>>,
) -> Option<Seq<Seq<SpanModel>>> {
    match syntax_of(content_kind(content_type)) {
        None => None,
        Some(_) => match trace {
            None => None,
            Some(events) => styled_rows(encode_utf8(body), events),
        },
    }
}

/// The tree-sitter highlighter, run over `source` with the grammar and the
/// queries of the syntax (`tree_sitter_json`, `tree_sitter_html`) and with
/// `names` as the highlight names to recognize: the events that
/// `Highlighter::highlight` yields, or nothing where the configuration, the
/// highlighter or one of its events fails.
#[verifier::external_body]
fn highlight_events(syntax: Syntax, names: &Vec<&'static str>, source: &str) -> (r: Option<
    Vec<HighlightEvent>,
>)
    ensures
        opt_events_view(r) == highlight_trace(syntax, names_view(names@), source@),
{
    let (language, label, queries, injections) = match syntax {
        Syntax::Json => (tree_sitter_json::LANGUAGE, "json", tree_sitter_json::HIGHLIGHTS_QUERY, ""),
        Syntax::Html => (tree_sitter_html::LANGUAGE, "html", tree_sitter_html::HIGHLIGHTS_QUERY, tree_sitter_html::INJECTIONS_QUERY),
    };
    let mut config = HighlightConfiguration::new(language.into(), label, queries, injections, "").ok()?;
    config.configure(names);
    let mut highlighter = Highlighter::new();
    let events = highlighter.highlight(&config, source.as_bytes(), None, None, |_| None).ok()?;
    events.map(|event| Some(match event.ok()? {
        Step::Source { start, end } => HighlightEvent::Source { start, end },
        Step::HighlightStart(h) => HighlightEvent::Start(h.0),
        Step::HighlightEnd => HighlightEvent::End,
    })).collect()
}

/// The display style of a highlight name.
pub fn style_for_highlight_name(name: &str) -> (style: Style)
    ensures
        style == name_style(name@),
{
    let n = chars_of(name);
    if same_text(&n, "string") || same_text(&n, "string.special") {
        Style { color: Color::Green, italic: false }
    } else if same_text(&n, "number") {
        Style { color: Color::Yellow, italic: false }
    } else if same_text(&n, "boolean") || same_text(&n, "constant") || same_text(
        &n,
        "constant.builtin",
    ) || same_text(&n, "null") {
        Style { color: Color::Cyan, italic: false }
    } else if same_text(&n, "property") || same_text(&n, "property.builtin") || same_text(
        &n,
        "attribute",
    ) {
        Style { color: Color::Blue, italic: false }
    } else if same_text(&n, "tag") || same_text(&n, "tag.builtin") || same_text(&n, "keyword") {
        Style { color: Color::Magenta, italic: false }
    } else if same_text(&n, "comment") {
        Style { color: Color::DarkGray, italic: true }
    } else if same_text(&n, "punctuation") || same_text(&n, "punctuation.bracket") || same_text(
        &n,
        "punctuation.delimiter",
    ) || same_text(&n, "punctuation.special") {
        Style { color: Color::DarkGray, italic: false }
    } else if same_text(&n, "type") || same_text(&n, "type.builtin") || same_text(
        &n,
        "constructor",
    ) {
        Style { color: Color::LightBlue, italic: false }
    } else {
        Style { color: Color::Default, italic: false }
    }
}

/// The highlight names that the highlighter is asked to recognize.
pub fn highlight_names() -> (names: Vec<&'static str>)
    ensures
        names_view(names@) == recognized_names(),
{
    let mut names: Vec<&'static str> = Vec::new();
    names.push("attribute");
    names.push("comment");
    names.push("constant");
    names.push("constant.builtin");
    names.push("constructor");
    names.push("embedded");
    names.push("function");
    names.push("function.builtin");
    names.push("keyword");
    names.push("module");
    names.push("number");
    names.push("operator");
    names.push("property");
    names.push("property.builtin");
    names.push("punctuation");
    names.push("punctuation.bracket");
    names.push("punctuation.delimiter");
    names.push("punctuation.special");
    names.push("string");
    names.push("string.special");
    names.push("tag");
    names.push("type");
    names.push("type.builtin");
    names.push("variable");
    names.push("variable.builtin");
    names.push("boolean");
    names.push("null");
    assert(names_view(names@) =~= recognized_names());
    names
}

/// The spans of a row as the contracts see them.
pub open spec fn row_view(row: Seq<StyledSpan>) -> Seq<SpanModel> {
    row.map_values(|span: StyledSpan| span@)
}

/// A prefix of valid UTF-8 that ends on a character boundary is valid, and
/// has the character boundaries of the whole.
proof fn lemma_boundary_in_prefix(bytes: Seq<u8>, a: int, b: int)
    requires
        valid_utf8(bytes),
        0 <= a <= b <= bytes.len(),
        is_char_boundary(bytes, a),
        is_char_boundary(bytes, b),
    ensures
        valid_utf8(bytes.subrange(0, b)),
        is_char_boundary(bytes.subrange(0, b), a),
{
    valid_utf8_split(bytes, b);
    let head = bytes.subrange(0, b);
    if a == b {
        is_char_boundary_start_end_of_seq(head);
    } else {
        is_char_boundary_iff_not_is_continuation_byte(bytes, a);
        is_char_boundary_iff_not_is_continuation_byte(head, a);
    }
}

/// In valid UTF-8 an ASCII byte is a character of its own: there is a
/// character boundary before it and behind it.
proof fn lemma_boundary_around_ascii(bytes: Seq<u8>, p: int)
    requires
        valid_utf8(bytes),
        0 <= p < bytes.len(),
        bytes[p] < 0x80,
    ensures
        is_char_boundary(bytes, p),
        is_char_boundary(bytes, p + 1),
{
    is_char_boundary_iff_not_is_continuation_byte(bytes, p);
    valid_utf8_split(bytes, p);
    let tail = bytes.subrange(p, bytes.len() as int);
    assert(tail[0] == bytes[p]);
    let rest = vstd::utf8::pop_first_scalar(tail);
    assert(valid_utf8(rest));
    if p + 1 == bytes.len() {
        is_char_boundary_start_end_of_seq(bytes);
    } else {
        assert(rest.len() > 0);
        assert(rest[0] == bytes[p + 1]);
        assert(vstd::utf8::valid_first_scalar(rest));
        is_char_boundary_iff_not_is_continuation_byte(bytes, p + 1);
    }
}

/// A position with no line feed before it, which holds a line feed or is
/// the end, is the first line feed.
proof fn lemma_first_line_feed_is(bytes: Seq<u8>, j: int)
    requires
        0 <= j <= bytes.len(),
        forall|k: int| 0 <= k < j ==> bytes[k] != 0x0A,
        j < bytes.len() ==> bytes[j] == 0x0A,
    ensures
        first_line_feed(bytes) == j,
    decreases bytes.len(),
{
    if bytes.len() == 0 || bytes[0] == 0x0A {
    } else {
        assert forall|k: int| 0 <= k < j - 1 implies bytes.drop_first()[k] != 0x0A by {
            assert(bytes.drop_first()[k] == bytes[k + 1]);
        }
        lemma_first_line_feed_is(bytes.drop_first(), j - 1);
    }
}

/// Painting a piece of source changes the rows only.
proof fn lemma_paint_slice_keeps(p: Painter, piece: Seq<u8>, style: Style)
    ensures
        paint_slice(p, piece, style).stack == p.stack,
        paint_slice(p, piece, style).ok == p.ok,
    decreases piece.len(),
{
    let i = first_line_feed(piece);
    if 0 <= i < piece.len() {
        let row = if i > 0 {
            p.row.push(SpanModel { bytes: piece.take(i), style })
        } else {
            p.row
        };
        lemma_paint_slice_keeps(
            Painter { rows: p.rows.push(row), row: Seq::empty(), ..p },
            piece.skip(i + 1),
            style,
        );
    }
}

/// Once a source range did not fit, the events stand for nothing, whatever
/// follows.
proof fn lemma_failure_stays(bytes: Seq<u8>, events: Seq<HighlightEvent>, k: int)
    requires
        0 <= k <= events.len(),
        !painted(bytes, events.take(k)).ok,
    ensures
        !painted(bytes, events).ok,
    decreases events.len() - k,
{
    if k == events.len() {
        assert(events.take(k) =~= events);
    } else {
        let before = painted(bytes, events.take(k));
        assert(events.take(k + 1).drop_last() =~= events.take(k));
        assert(painted(bytes, events.take(k + 1)) == paint_step(bytes, before, events[k]));
        match events[k] {
            HighlightEvent::Source { start, end } => {
                lemma_paint_slice_keeps(
                    before,
                    bytes.subrange(start as int, end as int),
                    stack_style(before.stack),
                );
            },
            _ => {},
        }
        lemma_failure_stays(bytes, events, k + 1);
    }
}

/// The number of line feeds among the bytes.
pub open spec fn line_feeds(bytes: Seq<u8>) -> nat
    decreases bytes.len(),
{
    if bytes.len() == 0 {
        0
    } else {
        line_feeds(bytes.drop_last()) + (if bytes.last() == 0x0A {
            1nat
        } else {
            0nat
        })
    }
}

/// Whether the span is not empty and holds no line feed.
pub open spec fn span_clean(span: SpanModel) -> bool {
    span.bytes.len() > 0 && forall|i: int| 0 <= i < span.bytes.len() ==> span.bytes[i] != 0x0A
}

/// Whether every span of the row is clean.
pub open spec fn row_clean(row: Seq<SpanModel>) -> bool {
    forall|i: int| 0 <= i < row.len() ==> span_clean(#[trigger] row[i])
}

/// Whether every span of the painter is clean.
pub open spec fn painter_clean(p: Painter) -> bool {
    row_clean(p.row) && forall|i: int| 0 <= i < p.rows.len() ==> row_clean(#[trigger] p.rows[i])
}

/// No line feed stands before the first line feed, and a line feed stands
/// there unless it is the end.
proof fn lemma_first_line_feed(bytes: Seq<u8>)
    ensures
        0 <= first_line_feed(bytes) <= bytes.len(),
        forall|k: int| 0 <= k < first_line_feed(bytes) ==> bytes[k] != 0x0A,
        first_line_feed(bytes) < bytes.len() ==> bytes[first_line_feed(bytes)] == 0x0A,
    decreases bytes.len(),
{
    if bytes.len() == 0 || bytes[0] == 0x0A {
    } else {
        lemma_first_line_feed(bytes.drop_first());
        assert forall|k: int| 0 <= k < first_line_feed(bytes) implies bytes[k] != 0x0A by {
            if k > 0 {
                assert(bytes[k] == bytes.drop_first()[k - 1]);
            }
        }
    }
}

/// The line feeds of two pieces add up.
proof fn lemma_line_feeds_add(a: Seq<u8>, b: Seq<u8>)
    ensures
        line_feeds(a + b) == line_feeds(a) + line_feeds(b),
    decreases b.len(),
{
    if b.len() == 0 {
        assert(a + b =~= a);
    } else {
        assert((a + b).drop_last() =~= a + b.drop_last());
        lemma_line_feeds_add(a, b.drop_last());
    }
}

/// Bytes without a line feed count no line feed.
proof fn lemma_no_line_feeds(a: Seq<u8>)
    requires
        forall|k: int| 0 <= k < a.len() ==> a[k] != 0x0A,
    ensures
        line_feeds(a) == 0,
    decreases a.len(),
{
    if a.len() > 0 {
        lemma_no_line_feeds(a.drop_last());
    }
}

/// Every line feed of a piece of source ends a row, and only line feeds do;
/// no span that the piece adds is empty or holds a line feed.
pub proof fn lemma_line_feeds_end_rows(p: Painter, piece: Seq<u8>, style: Style)
    ensures
        paint_slice(p, piece, style).rows.len() == p.rows.len() + line_feeds(piece),
        painter_clean(p) ==> painter_clean(paint_slice(p, piece, style)),
    decreases piece.len(),
{
    let i = first_line_feed(piece);
    lemma_first_line_feed(piece);
    let row = if i > 0 {
        p.row.push(SpanModel { bytes: piece.take(i), style })
    } else {
        p.row
    };
    lemma_no_line_feeds(piece.take(i));
    if painter_clean(p) {
        assert(row_clean(row));
    }
    if 0 <= i < piece.len() {
        let next = Painter { rows: p.rows.push(row), row: Seq::empty(), ..p };
        lemma_line_feeds_end_rows(next, piece.skip(i + 1), style);
        assert(piece =~= piece.take(i) + seq![0x0Au8] + piece.skip(i + 1));
        lemma_line_feeds_add(piece.take(i) + seq![0x0Au8], piece.skip(i + 1));
        lemma_line_feeds_add(piece.take(i), seq![0x0Au8]);
        assert(line_feeds(seq![0x0Au8]) == 1) by {
            assert(seq![0x0Au8].drop_last() =~= Seq::<u8>::empty());
            assert(line_feeds(Seq::<u8>::empty()) == 0);
        }
        if painter_clean(p) {
            assert(painter_clean(next));
        }
    } else {
        assert(piece.take(i) =~= piece);
    }
}

/// The number of line feeds in the source ranges of the events that fit
/// the text.
pub open spec fn sourced_line_feeds(bytes: Seq<u8>, events: Seq<HighlightEvent>) -> nat
    decreases events.len(),
{
    if events.len() == 0 {
        0
    } else {
        sourced_line_feeds(bytes, events.drop_last()) + (match events.last() {
            HighlightEvent::Source { start, end } => if source_ok(bytes, start, end) {
                line_feeds(bytes.subrange(start as int, end as int))
            } else {
                0
            },
            _ => 0,
        })
    }
}

/// The rows that events stand for hold no empty span and no line feed:
/// line feeds of the source show only as the ends of rows, and each line
/// feed that the events show ends one row, also inside a highlight.
pub proof fn lemma_rows_hold_no_line_feed(bytes: Seq<u8>, events: Seq<HighlightEvent>)
    ensures
        painter_clean(painted(bytes, events)),
        painted(bytes, events).rows.len() == sourced_line_feeds(bytes, events),
        styled_rows(bytes, events) matches Some(rows) ==> rows.len() == 1 + sourced_line_feeds(
            bytes,
            events,
        ),
    decreases events.len(),
{
    if events.len() > 0 {
        let before = painted(bytes, events.drop_last());
        lemma_rows_hold_no_line_feed(bytes, events.drop_last());
        match events.last() {
            HighlightEvent::Source { start, end } => {
                lemma_line_feeds_end_rows(
                    before,
                    bytes.subrange(start as int, end as int),
                    stack_style(before.stack),
                );
            },
            _ => {},
        }
    }
}

/// The part of `body` from byte `a` up to byte `b`.
fn slice_str<'a>(body: &'a str, a: usize, b: usize) -> (piece: &'a str)
    requires
        source_ok(body.spec_bytes(), a, b),
    ensures
        piece.spec_bytes() == body.spec_bytes().subrange(a as int, b as int),
{
    proof {
        encode_utf8_valid_utf8(body@);
        lemma_boundary_in_prefix(body.spec_bytes(), a as int, b as int);
    }
    let (head, _) = body.split_at(b);
    let (_, piece) = head.split_at(a);
    assert(piece.spec_bytes() =~= body.spec_bytes().subrange(a as int, b as int));
    piece
}

/// Paints the bytes of `body` from `start` up to `end` in one style.
fn paint_piece(
    body: &str,
    start: usize,
    end: usize,
    style: Style,
    rows: &mut Vec<Vec<StyledSpan>>,
    row: &mut Vec<StyledSpan>,
    Ghost(p): Ghost<Painter>,
)
    requires
        source_ok(body.spec_bytes(), start, end),
        p.rows == rows_view(old(rows)@),
        p.row == row_view(old(row)@),
    ensures
        paint_slice(p, body.spec_bytes().subrange(start as int, end as int), style) == (Painter {
            rows: rows_view(final(rows)@),
            row: row_view(final(row)@),
            ..p
        }),
{
    let bytes = body.as_bytes();
    let ghost all = body.spec_bytes();
    let ghost target = paint_slice(p, all.subrange(start as int, end as int), style);
    let mut pos: usize = start;
    proof {
        encode_utf8_valid_utf8(body@);
    }
    loop
        invariant_except_break
            target == paint_slice(
                Painter { rows: rows_view(rows@), row: row_view(row@), ..p },
                all.subrange(pos as int, end as int),
                style,
            ),
        invariant
            start <= pos <= end <= all.len(),
            all == body.spec_bytes(),
            bytes@ == all,
            valid_utf8(all),
            is_char_boundary(all, pos as int),
            is_char_boundary(all, end as int),
        ensures
            target == (Painter { rows: rows_view(rows@), row: row_view(row@), ..p }),
        decreases end - pos,
    {
        let ghost piece = all.subrange(pos as int, end as int);
        let ghost before = Painter { rows: rows_view(rows@), row: row_view(row@), ..p };
        let mut j: usize = pos;
        while j < end && bytes[j] != 0x0A
            invariant
                pos <= j <= end <= all.len(),
                bytes@ == all,
                forall|k: int| pos <= k < j ==> all[k] != 0x0A,
            decreases end - j,
        {
            j += 1;
        }
        proof {
            lemma_first_line_feed_is(piece, j - pos);
            assert(piece.take(j - pos) =~= all.subrange(pos as int, j as int));
            if j < end {
                lemma_boundary_around_ascii(all, j as int);
                assert(piece.skip(j - pos + 1) =~= all.subrange(j + 1, end as int));
            }
        }
        if j > pos {
            let text = slice_str(body, pos, j).to_owned();
            let ghost prior = row@;
            row.push(StyledSpan { text, style });
            assert(row_view(row@) =~= row_view(prior).push(
                SpanModel { bytes: all.subrange(pos as int, j as int), style },
            ));
        }
        if j < end {
            let mut full: Vec<StyledSpan> = Vec::new();
            core::mem::swap(row, &mut full);
            let ghost prior = rows@;
            rows.push(full);
            assert(rows_view(rows@) =~= rows_view(prior).push(row_view(full@)));
            assert(row_view(row@) =~= Seq::empty());
            pos = j + 1;
        } else {
            break;
        }
    }
}

/// The styles of the recognized names, in their order.
fn name_styles() -> (styles: Vec<Style>)
    ensures
        styles@.len() == recognized_names().len(),
        forall|i: int|
            0 <= i < styles@.len() ==> #[trigger] styles@[i] == name_style(recognized_names()[i]),
{
    let names = highlight_names();
    let mut styles: Vec<Style> = Vec::new();
    let mut i: usize = 0;
    while i < names.len()
        invariant
            i <= names.len(),
            names_view(names@) == recognized_names(),
            styles@.len() == i,
            forall|k: int|
                0 <= k < i ==> #[trigger] styles@[k] == name_style(recognized_names()[k]),
        decreases names.len() - i,
    {
        assert(names_view(names@)[i as int] == names@[i as int]@);
        styles.push(style_for_highlight_name(names[i]));
        i += 1;
    }
    styles
}

/// Turns the events of a highlighted text into rows of styled spans. A
/// highlight that starts is open until the matching end; source bytes take
/// the style of the innermost open highlight. Every line feed in the source
/// ends a row, also inside a highlight, and is itself in no span; no span is
/// empty. The row in progress at the end is the last row. Nothing comes back
/// where a source range does not lie inside the text on character
/// boundaries.
pub fn paint(body: &str, events: &Vec<HighlightEvent>) -> (r: Option<Vec<Vec<StyledSpan>>>)
    ensures
        opt_rows_view(r) == styled_rows(body.spec_bytes(), events@),
{
    let styles = name_styles();
    let mut rows: Vec<Vec<StyledSpan>> = Vec::new();
    let mut row: Vec<StyledSpan> = Vec::new();
    let mut stack: Vec<usize> = Vec::new();
    let mut k: usize = 0;
    let ghost all = body.spec_bytes();
    assert(events@.take(0) =~= Seq::empty());
    assert(rows_view(rows@) =~= Seq::empty());
    assert(row_view(row@) =~= Seq::empty());
    while k < events.len()
        invariant
            k <= events.len(),
            all == body.spec_bytes(),
            styles@.len() == recognized_names().len(),
            forall|i: int|
                0 <= i < styles@.len() ==> #[trigger] styles@[i] == name_style(
                    recognized_names()[i],
                ),
            painted(all, events@.take(k as int)) == (Painter {
                rows: rows_view(rows@),
                row: row_view(row@),
                stack: stack@,
                ok: true,
            }),
        decreases events.len() - k,
    {
        let ghost before = painted(all, events@.take(k as int));
        proof {
            assert(events@.take(k + 1).drop_last() =~= events@.take(k as int));
            assert(painted(all, events@.take(k + 1)) == paint_step(all, before, events@[k as int]));
        }
        match events[k] {
            HighlightEvent::Start(id) => {
                stack.push(id);
            },
            HighlightEvent::End => {
                if stack.len() > 0 {
                    stack.pop();
                    assert(stack@ =~= before.stack.drop_last());
                }
            },
            HighlightEvent::Source { start, end } => {
                if !(start <= end && end <= body.as_bytes().len() && body.is_char_boundary(start)
                    && body.is_char_boundary(end)) {
                    proof {
                        lemma_failure_stays(all, events@, k + 1);
                    }
                    return None;
                }
                let style = if stack.len() > 0 && stack[stack.len() - 1] < styles.len() {
                    styles[stack[stack.len() - 1]]
                } else {
                    Style { color: Color::Default, italic: false }
                };
                paint_piece(body, start, end, style, &mut rows, &mut row, Ghost(before));
            },
        }
        k += 1;
    }
    assert(events@.take(k as int) =~= events@);
    let ghost prior = rows@;
    rows.push(row);
    assert(rows_view(rows@) =~= rows_view(prior).push(row_view(row@)));
    Some(rows)
}

/// Highlights a body by its content type: rows of styled spans for JSON and
/// HTML, one row for each line of the body. Nothing comes back for other
/// content types and where the highlighter fails; the body is then shown
/// without styles.
pub fn highlight_body(body: &str, content_type: Option<&str>) -> (r: Option<Vec<Vec<StyledSpan>>>)
    ensures
        opt_rows_view(r) == highlighted(
            body@,
            opt_str_view(content_type),
            match syntax_of(content_kind(opt_str_view(content_type))) {
                Some(syntax) => highlight_trace(syntax, recognized_names(), body@),
                None => None,
            },
        ),
{
    let syntax = match classify(content_type) {
        ContentKind::Json => Syntax::Json,
        ContentKind::Html => Syntax::Html,
        ContentKind::Other => {
            return None;
        },
    };
    let names = highlight_names();
    match highlight_events(syntax, &names, body) {
        Some(events) => paint(body, &events),
        None => None,
    }
}

} // verus!
