//! The application state outside the text fields: focus, mode, the last
//! response and error, and the values derived from the response for display.

use vstd::prelude::*;
use crate::format::{displayed, format_for_display, formatted_body, opt_str_view};
use crate::panel::{ActivePanel, BodyMode, Mode};
use crate::text::opt_view;
use crate::viewport::{clamp_axis, clamped, line_count_of, line_width_of, max_scroll, ResponseBody};

verus! {

/// Number of rows or columns that one scroll key moves the response body.
pub const SCROLL_STEP: u16 = 10;

/// The state of the application outside its text fields.
#[derive(Debug)]
pub struct AppState {
    pub should_exit: bool,
    pub mode: Mode,
    pub active_panel: ActivePanel,
    pub body_mode: BodyMode,
    pub is_loading: bool,
    pub error: Option<String>,
    pub response_body: Option<String>,
    pub response_status: Option<String>,
    pub response_headers: Option<String>,
    pub response_content_type: Option<String>,
    pub response_formatted_body: Option<String>,
    pub response_scroll: u16,
    pub response_scroll_x: u16,
    pub response_viewport_height: u16,
    pub response_viewport_width: u16,
    pub response_line_count: usize,
    pub response_max_line_width: usize,
    pub response_max_line_width_cache: Option<usize>,
    pub response_time: u128,
}

/// The state as the contracts see it.
pub struct StateModel {
    pub should_exit: bool,
    pub mode: Mode,
    pub active_panel: ActivePanel,
    pub body_mode: BodyMode,
    pub is_loading: bool,
    pub error: Option<Seq<char>>,
    pub response_body: Option<Seq<char>>,
    pub response_status: Option<Seq<char>>,
    pub response_headers: Option<Seq<char>>,
    pub response_content_type: Option<Seq<char>>,
    pub response_formatted_body: Option<Seq<char>>,
    pub response_scroll: u16,
    pub response_scroll_x: u16,
    pub response_viewport_height: u16,
    pub response_viewport_width: u16,
    pub response_line_count: nat,
    pub response_max_line_width: nat,
    pub response_max_line_width_cache: Option<nat>,
    pub response_time: u128,
}

impl View for AppState {
    type V = StateModel;

    open spec fn view(&self) -> StateModel {
        StateModel {
            should_exit: self.should_exit,
            mode: self.mode,
            active_panel: self.active_panel,
            body_mode: self.body_mode,
            is_loading: self.is_loading,
            error: opt_view(self.error),
            response_body: opt_view(self.response_body),
            response_status: opt_view(self.response_status),
            response_headers: opt_view(self.response_headers),
            response_content_type: opt_view(self.response_content_type),
            response_formatted_body: opt_view(self.response_formatted_body),
            response_scroll: self.response_scroll,
            response_scroll_x: self.response_scroll_x,
            response_viewport_height: self.response_viewport_height,
            response_viewport_width: self.response_viewport_width,
            response_line_count: self.response_line_count as nat,
            response_max_line_width: self.response_max_line_width as nat,
            response_max_line_width_cache: match self.response_max_line_width_cache {
                Some(w) => Some(w as nat),
                None => None,
            },
            response_time: self.response_time,
        }
    }
}

/// The state at start: normal mode, the URL in focus, JSON bodies, nothing
/// received and nothing derived.
pub open spec fn blank_state() -> StateModel {
    StateModel {
        should_exit: false,
        mode: Mode::Normal,
        active_panel: ActivePanel::Url,
        body_mode: BodyMode::Json,
        is_loading: false,
        error: None,
        response_body: None,
        response_status: None,
        response_headers: None,
        response_content_type: None,
        response_formatted_body: None,
        response_scroll: 0,
        response_scroll_x: 0,
        response_viewport_height: 0,
        response_viewport_width: 0,
        response_line_count: 0,
        response_max_line_width: 0,
        response_max_line_width_cache: None,
        response_time: 0,
    }
}

/// The text that the response panel shows in a state.
pub open spec fn shown(s: StateModel) -> Seq<char> {
    displayed(s.response_body, s.response_formatted_body, s.response_content_type)
}

/// The state with its derived values computed anew from the body and the
/// content type: the display form, and the line count and the widest line
/// of the text shown.
pub open spec fn refreshed(s: StateModel) -> StateModel {
    let formatted = match s.response_body {
        Some(body) => formatted_body(body, s.response_content_type),
        None => None,
    };
    let text = displayed(s.response_body, formatted, s.response_content_type);
    StateModel {
        response_formatted_body: formatted,
        response_line_count: line_count_of(text),
        response_max_line_width: line_width_of(text),
        response_max_line_width_cache: Some(line_width_of(text)),
        ..s
    }
}

/// Whether the derived values are those of the body and the content type.
pub open spec fn derived_ok(s: StateModel) -> bool {
    &&& s.response_formatted_body == refreshed(s).response_formatted_body
    &&& s.response_line_count == refreshed(s).response_line_count
    &&& s.response_max_line_width == refreshed(s).response_max_line_width
    &&& s.response_max_line_width_cache == refreshed(s).response_max_line_width_cache
}

/// Whether both scroll offsets lie between zero and the largest offset that
/// still shows content.
pub open spec fn scroll_ok(s: StateModel) -> bool {
    &&& 0 <= s.response_scroll <= max_scroll(
        s.response_line_count as int,
        s.response_viewport_height as int,
    )
    &&& 0 <= s.response_scroll_x <= max_scroll(
        s.response_max_line_width as int,
        s.response_viewport_width as int,
    )
}

/// An offset moved by `delta`, held inside the range of its type.
pub open spec fn moved(offset: u16, delta: int) -> int {
    if offset + delta < 0 {
        0
    } else if offset + delta > u16::MAX {
        u16::MAX as int
    } else {
        offset + delta
    }
}

/// The state with the scroll offsets moved and then clamped to the content.
pub open spec fn scrolled(s: StateModel, dy: int, dx: int) -> StateModel {
    StateModel {
        response_scroll: clamped(
            moved(s.response_scroll, dy),
            s.response_line_count as int,
            s.response_viewport_height as int,
        ) as u16,
        response_scroll_x: clamped(
            moved(s.response_scroll_x, dx),
            s.response_max_line_width as int,
            s.response_viewport_width as int,
        ) as u16,
        ..s
    }
}

/// The state with a new viewport and the scroll offsets clamped to it.
pub open spec fn resized(s: StateModel, height: u16, width: u16) -> StateModel {
    scrolled(
        StateModel { response_viewport_height: height, response_viewport_width: width, ..s },
        0,
        0,
    )
}

/// The text of an optional string, borrowed.
pub fn opt_str(o: &Option<String>) -> (r: Option<&str>)
    ensures
        opt_str_view(r) == opt_view(*o),
{
    match o {
        Some(s) => Some(s.as_str()),
        None => None,
    }
}

/// Scrolling and resizing leave the offsets inside their range.
pub proof fn lemma_scrolled_ok(s: StateModel, dy: int, dx: int)
    ensures
        scroll_ok(scrolled(s, dy, dx)),
        derived_ok(s) ==> derived_ok(scrolled(s, dy, dx)),
{
}

/// Refreshing twice is refreshing once: what is derived depends on the body
/// and the content type alone.
pub proof fn lemma_refreshed_ok(s: StateModel)
    ensures
        derived_ok(refreshed(s)),
{
}

impl Default for AppState {
    fn default() -> (state: AppState)
        ensures
            state@ == blank_state(),
    {
        AppState {
            should_exit: false,
            mode: Mode::Normal,
            active_panel: ActivePanel::Url,
            body_mode: BodyMode::Json,
            is_loading: false,
            error: None,
            response_body: None,
            response_status: None,
            response_headers: None,
            response_content_type: None,
            response_formatted_body: None,
            response_scroll: 0,
            response_scroll_x: 0,
            response_viewport_height: 0,
            response_viewport_width: 0,
            response_line_count: 0,
            response_max_line_width: 0,
            response_max_line_width_cache: None,
            response_time: 0,
        }
    }
}

impl AppState {
    /// Computes the derived values anew: the display form of the body, and
    /// the line count and widest line of the text shown.
    pub fn refresh_response_body_cache(&mut self)
        ensures
            final(self)@ == refreshed(old(self)@),
            derived_ok(final(self)@),
    {
        let formatted = format_for_display(
            opt_str(&self.response_body),
            opt_str(&self.response_content_type),
        );
        let line_count = ResponseBody.line_count(
            opt_str(&self.response_body),
            opt_str(&formatted),
            opt_str(&self.response_content_type),
        );
        let width = ResponseBody.max_line_width(
            opt_str(&self.response_body),
            opt_str(&formatted),
            opt_str(&self.response_content_type),
            None,
        );
        self.response_formatted_body = formatted;
        self.response_line_count = line_count;
        self.response_max_line_width = width;
        self.response_max_line_width_cache = Some(width);
    }

    /// Clamps both scroll offsets to the content and the viewport.
    pub fn clamp_offsets(&mut self)
        ensures
            final(self)@ == scrolled(old(self)@, 0, 0),
            scroll_ok(final(self)@),
    {
        self.response_scroll = clamp_axis(
            self.response_scroll,
            self.response_line_count,
            self.response_viewport_height,
        );
        self.response_scroll_x = clamp_axis(
            self.response_scroll_x,
            self.response_max_line_width,
            self.response_viewport_width,
        );
    }

    /// Scrolls the response body one step down or up. The offset saturates
    /// at the ends of its range and is clamped to the content.
    pub fn scroll_rows(&mut self, down: bool)
        ensures
            final(self)@ == scrolled(
                old(self)@,
                if down {
                    SCROLL_STEP as int
                } else {
                    -(SCROLL_STEP as int)
                },
                0,
            ),
            scroll_ok(final(self)@),
    {
        if down {
            self.response_scroll = self.response_scroll.saturating_add(SCROLL_STEP);
        } else {
            self.response_scroll = self.response_scroll.saturating_sub(SCROLL_STEP);
        }
        self.clamp_offsets();
    }

    /// Scrolls the response body one step right or left. The offset
    /// saturates at the ends of its range and is clamped to the content.
    pub fn scroll_columns(&mut self, right: bool)
        ensures
            final(self)@ == scrolled(
                old(self)@,
                0,
                if right {
                    SCROLL_STEP as int
                } else {
                    -(SCROLL_STEP as int)
                },
            ),
            scroll_ok(final(self)@),
    {
        if right {
            self.response_scroll_x = self.response_scroll_x.saturating_add(SCROLL_STEP);
        } else {
            self.response_scroll_x = self.response_scroll_x.saturating_sub(SCROLL_STEP);
        }
        self.clamp_offsets();
    }

    /// Takes the size of the response body's viewport for this draw and
    /// clamps the scroll offsets to it.
    pub fn set_viewport(&mut self, height: u16, width: u16)
        ensures
            final(self)@ == resized(old(self)@, height, width),
            scroll_ok(final(self)@),
    {
        self.response_viewport_height = height;
        self.response_viewport_width = width;
        self.clamp_offsets();
    }
}

} // verus!
