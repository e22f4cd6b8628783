//! What each panel shows: titles, texts and cursor cells, worked out from
//! the state for the drawing code.

use vstd::prelude::*;
use tui_input::Input;
use crate::format::opt_str_view;
use crate::input::{input_cursor, input_text};
use crate::panel::{ActivePanel, Mode};
use crate::response::{decimal, push_decimal, push_str};
use crate::text::string_of;
use crate::viewport::{cursor_after, cursor_position};

verus! {

/// The method panel.
#[derive(Debug, Copy, Clone)]
pub struct Method;

/// The URL bar.
#[derive(Debug, Copy, Clone)]
pub struct UrlBar;

/// The query parameters panel.
#[derive(Debug, Copy, Clone)]
pub struct QueryParams;

/// The request headers panel.
#[derive(Debug, Copy, Clone)]
pub struct RequestHeaders;

/// The request body panel.
#[derive(Debug, Copy, Clone)]
pub struct RequestBody;

/// The response headers panel.
#[derive(Debug, Copy, Clone)]
pub struct ResponseHeaders;

/// The status bar.
#[derive(Debug, Copy, Clone)]
pub struct StatusBar;

/// How fast a response came, as the colour of its time.
#[derive(Debug, Copy, Clone, PartialEq, Eq, Structural)]
pub enum Pace {
    /// Up to 300 ms: green.
    Fast,
    /// Up to one second: amber.
    Fair,
    /// Beyond one second: red.
    Slow,
}

/// The number of display columns that the text before the cursor of a field
/// takes, as `tui_input` measures it.
pub uninterp spec fn columns_before(text: Seq<char>, cursor: nat) -> nat;

/// The mark in front of a panel's title: filled where the panel has the
/// focus.
pub open spec fn mark(active: bool) -> Seq<char> {
    if active {
        "● "@
    } else {
        "○ "@
    }
}

/// The name of a panel in the status bar.
pub open spec fn focus_label(panel: ActivePanel) -> Seq<char> {
    match panel {
        ActivePanel::Url => "URL"@,
        ActivePanel::ReqQuery => "Query"@,
        ActivePanel::ReqHeaders => "ReqHeaders"@,
        ActivePanel::ReqBody => "ReqBody"@,
        ActivePanel::ResHeaders => "ResHeaders"@,
        ActivePanel::ResBody => "ResBody"@,
    }
}

/// The keys that the status bar names for a mode.
pub open spec fn hint(mode: Mode) -> Seq<char> {
    match mode {
        Mode::Normal =>
            "i: Edit • Enter: Send • b/B: Body • Tab/Shift+Tab: Focus • h/l: ResBody X-Scroll"@,
        Mode::Edit => "Esc: Normal • Enter: Send (URL) • Ctrl+Enter: Send"@,
    }
}

/// What the status bar says of the request: the error where there is one,
/// else whether a request is on its way.
pub open spec fn progress(is_loading: bool, error: Option<Seq<char>>) -> Seq<char> {
    match error {
        Some(message) => "ERROR: "@ + message,
        None => if is_loading {
            "Loading..."@
        } else {
            "Ready"@
        },
    }
}

/// The line of the status bar.
pub open spec fn status_bar_text(
    mode: Mode,
    panel: ActivePanel,
    is_loading: bool,
    error: Option<Seq<char>>,
) -> Seq<char> {
    mode.spec_label() + " • Focus: "@ + focus_label(panel) + " • "@ + hint(mode) + " • "@
        + progress(is_loading, error)
}

/// The text of the response headers panel: the status, then the headers on
/// the lines below it.
pub open spec fn response_summary(status: Option<Seq<char>>, headers: Option<Seq<char>>) -> Seq<
    char,
> {
    let first = match status {
        Some(s) => "Status: "@ + s,
        None => Seq::empty(),
    };
    match headers {
        Some(h) => if first.len() > 0 {
            first + seq!['\n'] + h
        } else {
            h
        },
        None => first,
    }
}

/// The title of the response headers panel: the mark, the name, and the
/// response time where one was measured.
pub open spec fn response_title(active: bool, response_time: u128) -> Seq<char> {
    mark(active) + "Response headers"@ + (if response_time > 0 {
        " | "@ + decimal(response_time as nat) + "ms"@
    } else {
        Seq::empty()
    })
}

/// The pace of a response time.
pub open spec fn pace_of(response_time: u128) -> Pace {
    if response_time <= 300 {
        Pace::Fast
    } else if response_time <= 1000 {
        Pace::Fair
    } else {
        Pace::Slow
    }
}

/// The smaller of two numbers.
pub open spec fn least(a: int, b: int) -> int {
    if a <= b {
        a
    } else {
        b
    }
}

/// The screen cell of the cursor of a wrapped text field that is drawn with
/// a border at column `x`, row `y`: the cursor's row and column in the
/// text, held inside the border. A field of two rows or fewer shows none.
pub open spec fn field_cursor_cell(
    x: u16,
    y: u16,
    width: u16,
    height: u16,
    value: Seq<char>,
    cursor: usize,
) -> Option<(int, int)> {
    if height > 2 {
        let inner = width - 2;
        let at = if inner <= 0 {
            (0nat, 0nat)
        } else {
            cursor_after(value.take(least(cursor as int, value.len() as int)), inner as nat)
        };
        Some(
            (
                least(x + least(at.1 as int, if inner <= 0 {
                    0
                } else {
                    inner
                }) + 1, u16::MAX as int),
                least(y + least(at.0 as int, height - 2) + 1, u16::MAX as int),
            ),
        )
    } else {
        None
    }
}

/// `Input::visual_cursor`: the display columns of the text before the
/// cursor.
pub assume_specification[ Input::visual_cursor ](input: &Input) -> (columns: usize)
    ensures
        columns == columns_before(input_text(*input), input_cursor(*input)),
;

/// The title of a panel: the mark, then the name.
pub fn panel_title(active: bool, name: &str) -> (title: String)
    ensures
        title@ == mark(active) + name@,
{
    let mut out: Vec<char> = Vec::new();
    if active {
        push_str(&mut out, "● ");
    } else {
        push_str(&mut out, "○ ");
    }
    push_str(&mut out, name);
    assert(out@ =~= mark(active) + name@);
    string_of(&out)
}

/// The text that a field shows: its value, or the placeholder while the
/// value is empty.
pub fn field_content<'a>(value: &'a str, placeholder: &'a str) -> (shown: &'a str)
    ensures
        shown@ == (if value@.len() == 0 {
            placeholder@
        } else {
            value@
        }),
{
    if value.is_empty() {
        placeholder
    } else {
        value
    }
}

/// The screen cell of the cursor of a wrapped text field.
pub fn field_cursor(x: u16, y: u16, width: u16, height: u16, value: &str, cursor: usize) -> (cell:
    Option<(u16, u16)>)
    ensures
        match cell {
            Some(c) => field_cursor_cell(x, y, width, height, value@, cursor) == Some(
                (c.0 as int, c.1 as int),
            ),
            None => field_cursor_cell(x, y, width, height, value@, cursor) is None,
        },
{
    let inner = width.saturating_sub(2);
    let (line, col) = cursor_position(value, cursor, inner);
    if height > 2 {
        let rows = (height - 2) as usize;
        let line = if line <= rows {
            line
        } else {
            rows
        };
        let col = if col <= inner as usize {
            col
        } else {
            inner as usize
        };
        Some(
            (
                x.saturating_add(col as u16).saturating_add(1),
                y.saturating_add(line as u16).saturating_add(1),
            ),
        )
    } else {
        None
    }
}

impl Method {
    /// The title of the panel.
    pub fn title(&self, active: bool) -> (title: String)
        ensures
            title@ == mark(active) + "Method"@,
    {
        panel_title(active, "Method")
    }
}

impl UrlBar {
    /// The title of the panel.
    pub fn title(&self, active: bool) -> (title: String)
        ensures
            title@ == mark(active) + "URL"@,
    {
        panel_title(active, "URL")
    }

    /// The screen cell of the cursor of the URL field, which has one row:
    /// the display column of the cursor, held inside the border.
    pub fn cursor_cell(&self, x: u16, y: u16, width: u16, input: &Input) -> (cell: (u16, u16))
        ensures
            cell.0 == least(
                x + least(
                    columns_before(input_text(*input), input_cursor(*input)) as int,
                    if width >= 2 {
                        width - 2
                    } else {
                        0
                    },
                ) + 1,
                u16::MAX as int,
            ),
            cell.1 == least(y + 1, u16::MAX as int),
    {
        let inner = width.saturating_sub(2);
        let columns = input.visual_cursor();
        let col = if columns <= inner as usize {
            columns as u16
        } else {
            inner
        };
        (x.saturating_add(col).saturating_add(1), y.saturating_add(1))
    }
}

impl QueryParams {
    /// The title of the panel.
    pub fn title(&self, active: bool) -> (title: String)
        ensures
            title@ == mark(active) + "Query Params"@,
    {
        panel_title(active, "Query Params")
    }

    /// The text that the panel shows.
    pub fn content<'a>(&self, value: &'a str) -> (shown: &'a str)
        ensures
            shown@ == (if value@.len() == 0 {
                "key: val"@
            } else {
                value@
            }),
    {
        field_content(value, "key: val")
    }
}

impl RequestHeaders {
    /// The title of the panel.
    pub fn title(&self, active: bool) -> (title: String)
        ensures
            title@ == mark(active) + "Request Headers"@,
    {
        panel_title(active, "Request Headers")
    }

    /// The text that the panel shows.
    pub fn content<'a>(&self, value: &'a str) -> (shown: &'a str)
        ensures
            shown@ == (if value@.len() == 0 {
                "key: val"@
            } else {
                value@
            }),
    {
        field_content(value, "key: val")
    }
}

impl RequestBody {
    /// The title of the panel.
    pub fn title(&self, active: bool) -> (title: String)
        ensures
            title@ == mark(active) + "Request Body"@,
    {
        panel_title(active, "Request Body")
    }

    /// The text that the panel shows.
    pub fn content<'a>(&self, value: &'a str) -> (shown: &'a str)
        ensures
            shown@ == (if value@.len() == 0 {
                "key: val"@
            } else {
                value@
            }),
    {
        field_content(value, "key: val")
    }
}

impl ResponseHeaders {
    /// The title of the panel, with the response time where one was
    /// measured.
    pub fn title(&self, active: bool, response_time: u128) -> (title: String)
        ensures
            title@ == response_title(active, response_time),
    {
        let mut out: Vec<char> = Vec::new();
        if active {
            push_str(&mut out, "● ");
        } else {
            push_str(&mut out, "○ ");
        }
        push_str(&mut out, "Response headers");
        if response_time > 0 {
            push_str(&mut out, " | ");
            push_decimal(&mut out, response_time);
            push_str(&mut out, "ms");
        }
        assert(out@ =~= response_title(active, response_time));
        string_of(&out)
    }

    /// The text of the panel: the status line, then the headers.
    pub fn content(&self, status: Option<&str>, headers: Option<&str>) -> (text: String)
        ensures
            text@ == response_summary(opt_str_view(status), opt_str_view(headers)),
    {
        let mut out: Vec<char> = Vec::new();
        if let Some(s) = status {
            push_str(&mut out, "Status: ");
            push_str(&mut out, s);
        }
        if let Some(h) = headers {
            if out.len() > 0 {
                out.push('\n');
            }
            push_str(&mut out, h);
        }
        assert(out@ =~= response_summary(opt_str_view(status), opt_str_view(headers)));
        string_of(&out)
    }
}

/// The pace of a response time: fast up to 300 ms, fair up to one second,
/// slow beyond.
pub fn response_time_color(response_time: u128) -> (pace: Pace)
    ensures
        pace == pace_of(response_time),
{
    if response_time <= 300 {
        Pace::Fast
    } else if response_time <= 1000 {
        Pace::Fair
    } else {
        Pace::Slow
    }
}

impl StatusBar {
    /// The line of the status bar: mode, focus, the keys of the mode, and
    /// the state of the request.
    pub fn text(
        &self,
        mode: Mode,
        active_panel: ActivePanel,
        is_loading: bool,
        error: Option<&str>,
    ) -> (line: String)
        ensures
            line@ == status_bar_text(mode, active_panel, is_loading, opt_str_view(error)),
    {
        let mut out: Vec<char> = Vec::new();
        push_str(&mut out, mode.label());
        push_str(&mut out, " • Focus: ");
        push_str(
            &mut out,
            match active_panel {
                ActivePanel::Url => "URL",
                ActivePanel::ReqQuery => "Query",
                ActivePanel::ReqHeaders => "ReqHeaders",
                ActivePanel::ReqBody => "ReqBody",
                ActivePanel::ResHeaders => "ResHeaders",
                ActivePanel::ResBody => "ResBody",
            },
        );
        push_str(&mut out, " • ");
        push_str(
            &mut out,
            match mode {
                Mode::Normal =>
                    "i: Edit • Enter: Send • b/B: Body • Tab/Shift+Tab: Focus • h/l: ResBody X-Scroll",
                Mode::Edit => "Esc: Normal • Enter: Send (URL) • Ctrl+Enter: Send",
            },
        );
        push_str(&mut out, " • ");
        match error {
            Some(message) => {
                push_str(&mut out, "ERROR: ");
                push_str(&mut out, message);
            },
            None => {
                if is_loading {
                    push_str(&mut out, "Loading...");
                } else {
                    push_str(&mut out, "Ready");
                }
            },
        }
        assert(out@ =~= status_bar_text(mode, active_panel, is_loading, opt_str_view(error)));
        string_of(&out)
    }
}

} // verus!
