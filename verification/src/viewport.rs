//! Measuring the displayed text and clamping the scroll offsets to it.

use vstd::prelude::*;
use crate::format::{display_content, displayed, opt_str_view};
use crate::text::{chars_of, lines, next_line};

verus! {

/// The response body panel.
#[derive(Debug, Copy, Clone)]
pub struct ResponseBody;

/// Length of the longest row; zero for no rows.
pub open spec fn widest(rows: Seq<Seq<char>>) -> nat
    decreases rows.len(),
{
    if rows.len() == 0 {
        0
    } else {
        let w = widest(rows.drop_last());
        if rows.last().len() > w {
            rows.last().len()
        } else {
            w
        }
    }
}

/// Number of lines of a text, counted as one where the text has none.
pub open spec fn line_count_of(text: Seq<char>) -> nat {
    if lines(text).len() == 0 {
        1
    } else {
        lines(text).len()
    }
}

/// Number of characters of the longest line of a text, counted as one where
/// the text has no line.
pub open spec fn line_width_of(text: Seq<char>) -> nat {
    if lines(text).len() == 0 {
        1
    } else {
        widest(lines(text))
    }
}

/// The largest scroll offset that still shows content: what the content
/// extends beyond the viewport, or zero where it fits.
pub open spec fn max_scroll(extent: int, viewport: int) -> int {
    if extent > viewport {
        extent - viewport
    } else {
        0
    }
}

/// The requested offset, held to the largest offset that shows content.
pub open spec fn clamped(requested: int, extent: int, viewport: int) -> int {
    if requested <= max_scroll(extent, viewport) {
        requested
    } else {
        max_scroll(extent, viewport)
    }
}

/// Where the cursor stands after one more character, in a field that wraps
/// at `width` columns: a line feed and a full row both start a new row.
pub open spec fn cursor_step(at: (nat, nat), c: char, width: nat) -> (nat, nat) {
    if c == '\n' || at.1 + 1 >= width {
        ((at.0 + 1) as nat, 0)
    } else {
        (at.0, (at.1 + 1) as nat)
    }
}

/// Row and column of the cursor behind the text `s`.
pub open spec fn cursor_after(s: Seq<char>, width: nat) -> (nat, nat) {
    s.fold_left((0nat, 0nat), |at: (nat, nat), c: char| cursor_step(at, c, width))
}

/// The rows and the widest row of a text, both zero where it has no line.
fn measure(text: &str) -> (r: (usize, usize))
    ensures
        r.0 == lines(text@).len(),
        r.1 == widest(lines(text@)),
{
    let v = chars_of(text);
    let mut count: usize = 0;
    let mut width: usize = 0;
    let mut pos: usize = 0;
    let ghost mut done: Seq<Seq<char>> = Seq::empty();
    assert(v@.skip(0) =~= v@);
    while pos < v.len()
        invariant
            pos <= v.len(),
            count <= pos,
            lines(v@) == done + lines(v@.skip(pos as int)),
            count == done.len(),
            width == widest(done),
        decreases v.len() - pos,
    {
        let (end, next) = next_line(&v, pos);
        proof {
            let line = v@.subrange(pos as int, end as int);
            assert(done.push(line).drop_last() =~= done);
            assert(done + (seq![line] + lines(v@.skip(next as int))) =~= done.push(line) + lines(
                v@.skip(next as int),
            ));
            done = done.push(line);
        }
        if end - pos > width {
            width = end - pos;
        }
        count += 1;
        pos = next;
    }
    assert(lines(v@.skip(pos as int)) =~= Seq::empty());
    assert(done + Seq::<Seq<char>>::empty() =~= done);
    (count, width)
}

impl ResponseBody {
    /// Number of lines of the text that the panel shows, at least one.
    pub fn line_count(
        &self,
        body: Option<&str>,
        formatted_body: Option<&str>,
        content_type: Option<&str>,
    ) -> (n: usize)
        ensures
            n == line_count_of(
                displayed(
                    opt_str_view(body),
                    opt_str_view(formatted_body),
                    opt_str_view(content_type),
                ),
            ),
    {
        let content = display_content(body, formatted_body, content_type);
        let (count, _) = measure(content.as_str());
        if count == 0 {
            1
        } else {
            count
        }
    }

    /// Length of the longest line of the text that the panel shows, in
    /// characters; the cached value where one is given.
    pub fn max_line_width(
        &self,
        body: Option<&str>,
        formatted_body: Option<&str>,
        content_type: Option<&str>,
        max_line_width_cache: Option<usize>,
    ) -> (w: usize)
        ensures
            w == match max_line_width_cache {
                Some(cached) => cached as nat,
                None => line_width_of(
                    displayed(
                        opt_str_view(body),
                        opt_str_view(formatted_body),
                        opt_str_view(content_type),
                    ),
                ),
            },
    {
        match max_line_width_cache {
            Some(cached) => cached,
            None => {
                let content = display_content(body, formatted_body, content_type);
                let (count, width) = measure(content.as_str());
                if count == 0 {
                    1
                } else {
                    width
                }
            },
        }
    }
}

/// Holds one scroll offset to the content: the result is the requested
/// offset, or the largest offset that still shows content where the request
/// goes beyond it.
pub fn clamp_axis(requested: u16, extent: usize, viewport: u16) -> (r: u16)
    ensures
        r == clamped(requested as int, extent as int, viewport as int),
        0 <= r <= max_scroll(extent as int, viewport as int),
        r <= requested,
{
    if extent > viewport as usize {
        let room = extent - viewport as usize;
        if requested as usize <= room {
            requested
        } else {
            room as u16
        }
    } else {
        0
    }
}

/// Clamps the vertical and the horizontal scroll offset, each on its own:
/// `min(requested, max(0, content extent - viewport extent))`.
pub fn clamp_scroll(
    line_count: usize,
    max_line_width: usize,
    viewport_height: u16,
    viewport_width: u16,
    scroll_y: u16,
    scroll_x: u16,
) -> (r: (u16, u16))
    ensures
        r.0 == clamped(scroll_y as int, line_count as int, viewport_height as int),
        r.1 == clamped(scroll_x as int, max_line_width as int, viewport_width as int),
        0 <= r.0 <= max_scroll(line_count as int, viewport_height as int),
        0 <= r.1 <= max_scroll(max_line_width as int, viewport_width as int),
{
    (
        clamp_axis(scroll_y, line_count, viewport_height),
        clamp_axis(scroll_x, max_line_width, viewport_width),
    )
}

/// Row and column of the cursor in a field that wraps at `width` columns,
/// for a cursor that stands behind `cursor` characters of `value`. A field
/// without width has its cursor at the origin.
pub fn cursor_position(value: &str, cursor: usize, width: u16) -> (r: (usize, usize))
    ensures
        width == 0 ==> r == (0usize, 0usize),
        width > 0 ==> r.1 < width,
        width > 0 ==> (r.0 as nat, r.1 as nat) == cursor_after(
            value@.take(
                if cursor <= value@.len() {
                    cursor as int
                } else {
                    value@.len() as int
                },
            ),
            width as nat,
        ),
{
    if width == 0 {
        return (0, 0);
    }
    let v = chars_of(value);
    let stop = if cursor <= v.len() {
        cursor
    } else {
        v.len()
    };
    let mut line: usize = 0;
    let mut col: usize = 0;
    let mut i: usize = 0;
    assert(v@.take(0) =~= Seq::empty());
    while i < stop
        invariant
            i <= stop <= v.len(),
            width > 0,
            line <= i,
            col < width,
            (line as nat, col as nat) == cursor_after(v@.take(i as int), width as nat),
        decreases stop - i,
    {
        proof {
            assert(v@.take(i + 1).drop_last() =~= v@.take(i as int));
        }
        if v[i] == '\n' || col + 1 >= width as usize {
            line += 1;
            col = 0;
        } else {
            col += 1;
        }
        i += 1;
    }
    (line, col)
}

} // verus!
