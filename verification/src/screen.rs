//! What one draw shows: the state is held to the viewport of this draw,
//! and every text of the screen is worked out from it.

use vstd::prelude::*;
use crate::app::{app_ok, mode_ok, App, AppModel};
use crate::format::{content_kind, display_content};
use crate::highlight::{
    highlight_body, highlight_trace, highlighted, opt_rows_view, recognized_names, syntax_of,
    SpanModel, StyledSpan,
};
use crate::panel::{ActivePanel, Mode};
use crate::sections::{
    mark, response_summary, response_title, status_bar_text, Method, QueryParams, RequestBody,
    RequestHeaders, ResponseHeaders, StatusBar, UrlBar, panel_title,
};
use crate::state::{derived_ok, opt_str, resized, scroll_ok, shown, StateModel};
use crate::viewport::clamped;

verus! {

/// The texts of one draw.
#[derive(Debug, Clone)]
pub struct Screen {
    pub method_title: String,
    pub method_label: String,
    pub url_title: String,
    pub url_text: String,
    pub query_title: String,
    pub query_text: String,
    pub headers_title: String,
    pub headers_text: String,
    pub body_title: String,
    pub body_text: String,
    pub response_headers_title: String,
    pub response_headers_text: String,
    pub response_body_title: String,
    pub response_body_text: String,
    /// The response body in styled rows, where it can be highlighted.
    pub response_body_rows: Option<Vec<Vec<StyledSpan>>>,
    /// The scroll offsets to draw the response body with.
    pub scroll_y: u16,
    pub scroll_x: u16,
    pub status_line: String,
    /// Whether the field in focus shows its cursor.
    pub editing: bool,
}

/// The texts of one draw as the contracts see them.
pub struct ScreenModel {
    pub method_title: Seq<char>,
    pub method_label: Seq<char>,
    pub url_title: Seq<char>,
    pub url_text: Seq<char>,
    pub query_title: Seq<char>,
    pub query_text: Seq<char>,
    pub headers_title: Seq<char>,
    pub headers_text: Seq<char>,
    pub body_title: Seq<char>,
    pub body_text: Seq<char>,
    pub response_headers_title: Seq<char>,
    pub response_headers_text: Seq<char>,
    pub response_body_title: Seq<char>,
    pub response_body_text: Seq<char>,
    pub response_body_rows: Option<Seq<Seq<SpanModel>>>,
    pub scroll_y: u16,
    pub scroll_x: u16,
    pub status_line: Seq<char>,
    pub editing: bool,
}

impl View for Screen {
    type V = ScreenModel;

    open spec fn view(&self) -> ScreenModel {
        ScreenModel {
            method_title: self.method_title@,
            method_label: self.method_label@,
            url_title: self.url_title@,
            url_text: self.url_text@,
            query_title: self.query_title@,
            query_text: self.query_text@,
            headers_title: self.headers_title@,
            headers_text: self.headers_text@,
            body_title: self.body_title@,
            body_text: self.body_text@,
            response_headers_title: self.response_headers_title@,
            response_headers_text: self.response_headers_text@,
            response_body_title: self.response_body_title@,
            response_body_text: self.response_body_text@,
            response_body_rows: opt_rows_view(self.response_body_rows),
            scroll_y: self.scroll_y,
            scroll_x: self.scroll_x,
            status_line: self.status_line@,
            editing: self.editing,
        }
    }
}

/// What a request field shows: its text, or a hint while it is empty.
pub open spec fn field_shown(text: Seq<char>) -> Seq<char> {
    if text.len() == 0 {
        "key: val"@
    } else {
        text
    }
}

/// The styled rows of the response body: those of the text shown, while
/// there is a body and its content type has a syntax; else none.
pub open spec fn rows_shown(s: StateModel) -> Option<Seq<Seq<SpanModel>>> {
    if s.response_body is Some {
        highlighted(
            shown(s),
            s.response_content_type,
            match syntax_of(content_kind(s.response_content_type)) {
                Some(syntax) => highlight_trace(syntax, recognized_names(), shown(s)),
                None => None,
            },
        )
    } else {
        None
    }
}

/// The screen that shows the application.
pub open spec fn screen_of(m: AppModel) -> ScreenModel {
    let focus = m.state.active_panel;
    ScreenModel {
        method_title: mark(false) + "Method"@,
        method_label: m.method.spec_label(),
        url_title: mark(focus == ActivePanel::Url) + "URL"@,
        url_text: m.url.text,
        query_title: mark(focus == ActivePanel::ReqQuery) + "Query Params"@,
        query_text: field_shown(m.query.text),
        headers_title: mark(focus == ActivePanel::ReqHeaders) + "Request Headers"@,
        headers_text: field_shown(m.headers.text),
        body_title: mark(focus == ActivePanel::ReqBody) + "Request Body"@,
        body_text: field_shown(m.body.text),
        response_headers_title: response_title(
            focus == ActivePanel::ResHeaders,
            m.state.response_time,
        ),
        response_headers_text: response_summary(
            m.state.response_status,
            m.state.response_headers,
        ),
        response_body_title: mark(focus == ActivePanel::ResBody) + "Response"@,
        response_body_text: shown(m.state),
        response_body_rows: rows_shown(m.state),
        scroll_y: m.state.response_scroll,
        scroll_x: m.state.response_scroll_x,
        status_line: status_bar_text(
            m.state.mode,
            focus,
            m.state.is_loading,
            m.state.error,
        ),
        editing: m.state.mode == Mode::Edit && focus.is_editable(),
    }
}

/// Whether the panel is the one given.
fn is_panel(panel: ActivePanel, other: ActivePanel) -> (r: bool)
    ensures
        r == (panel == other),
{
    match (panel, other) {
        (ActivePanel::Url, ActivePanel::Url) => true,
        (ActivePanel::ReqQuery, ActivePanel::ReqQuery) => true,
        (ActivePanel::ReqHeaders, ActivePanel::ReqHeaders) => true,
        (ActivePanel::ReqBody, ActivePanel::ReqBody) => true,
        (ActivePanel::ResHeaders, ActivePanel::ResHeaders) => true,
        (ActivePanel::ResBody, ActivePanel::ResBody) => true,
        _ => false,
    }
}

impl App {
    /// Works out one draw. The viewport of the response body is taken from
    /// this draw and the scroll offsets are held to it: the offsets that
    /// the screen is drawn with, which are those left in the state, are
    /// `min(offset, max(0, extent - viewport))` on each axis. Nothing else
    /// changes: not the fields, not the method, not the response. The
    /// result holds every text of the screen.
    pub fn render(&mut self, height: u16, width: u16) -> (screen: Screen)
        ensures
            final(self)@ == (AppModel {
                state: resized(old(self)@.state, height, width),
                ..old(self)@
            }),
            final(self)@.state == (StateModel {
                response_viewport_height: height,
                response_viewport_width: width,
                response_scroll: screen.scroll_y,
                response_scroll_x: screen.scroll_x,
                ..old(self)@.state
            }),
            screen.scroll_y == clamped(
                old(self)@.state.response_scroll as int,
                old(self)@.state.response_line_count as int,
                height as int,
            ),
            screen.scroll_x == clamped(
                old(self)@.state.response_scroll_x as int,
                old(self)@.state.response_max_line_width as int,
                width as int,
            ),
            screen@ == screen_of(final(self)@),
            scroll_ok(final(self)@.state),
            mode_ok(old(self)@) && derived_ok(old(self)@.state) ==> app_ok(final(self)@),
    {
        self.set_viewport(height, width);
        let focus = self.app_state.active_panel;
        let editing = match self.app_state.mode {
            Mode::Edit => focus.is_editable(),
            Mode::Normal => false,
        };
        let content = display_content(
            opt_str(&self.app_state.response_body),
            opt_str(&self.app_state.response_formatted_body),
            opt_str(&self.app_state.response_content_type),
        );
        let rows = if self.app_state.response_body.is_some() {
            highlight_body(content.as_str(), opt_str(&self.app_state.response_content_type))
        } else {
            None
        };
        Screen {
            method_title: Method.title(false),
            method_label: self.method_label().to_owned(),
            url_title: UrlBar.title(is_panel(focus, ActivePanel::Url)),
            url_text: self.url_input.value().to_owned(),
            query_title: QueryParams.title(is_panel(focus, ActivePanel::ReqQuery)),
            query_text: QueryParams.content(self.req_query_input.value()).to_owned(),
            headers_title: RequestHeaders.title(is_panel(focus, ActivePanel::ReqHeaders)),
            headers_text: RequestHeaders.content(self.req_headers_input.value()).to_owned(),
            body_title: RequestBody.title(is_panel(focus, ActivePanel::ReqBody)),
            body_text: RequestBody.content(self.req_body_input.value()).to_owned(),
            response_headers_title: ResponseHeaders.title(
                is_panel(focus, ActivePanel::ResHeaders),
                self.app_state.response_time,
            ),
            response_headers_text: ResponseHeaders.content(
                opt_str(&self.app_state.response_status),
                opt_str(&self.app_state.response_headers),
            ),
            response_body_title: panel_title(is_panel(focus, ActivePanel::ResBody), "Response"),
            response_body_text: content,
            response_body_rows: rows,
            scroll_y: self.app_state.response_scroll,
            scroll_x: self.app_state.response_scroll_x,
            status_line: StatusBar.text(
                self.app_state.mode,
                focus,
                self.app_state.is_loading,
                opt_str(&self.app_state.error),
            ),
            editing,
        }
    }
}

} // verus!
