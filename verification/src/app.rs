//! The application: its state, its four text fields and its method, and
//! the transitions that keys and completed requests cause.

use vstd::prelude::*;
use tui_input::Input;
use crate::input::{
    edited, field_of, input_handle, input_new, input_type, EditOp, Field,
};
use crate::keys::{command_for, decide, Command, KeyPress};
use crate::panel::{ActivePanel, BodyMode, Mode};
use crate::request::{build_request, request_for, HttpMethod, PendingRequest, RequestModel};
use crate::response::{
    content_type_of, find_content_type, headers_text, join_headers, status_line, RecordModel,
    ResponseRecord,
};
use crate::state::{
    blank_state, derived_ok, refreshed, resized, scroll_ok, scrolled, AppState, StateModel,
    SCROLL_STEP,
};
use crate::viewport::clamped;

verus! {

/// The application. Only the thread that draws and reads keys changes it;
/// a request in flight works on a `PendingRequest` of its own.
pub struct App {
    pub app_state: AppState,
    pub url_input: Input,
    pub req_query_input: Input,
    pub req_headers_input: Input,
    pub req_body_input: Input,
    pub method: HttpMethod,
}

/// The application as the contracts see it.
pub struct AppModel {
    pub state: StateModel,
    pub url: Field,
    pub query: Field,
    pub headers: Field,
    pub body: Field,
    pub method: HttpMethod,
}

impl View for App {
    type V = AppModel;

    open spec fn view(&self) -> AppModel {
        AppModel {
            state: self.app_state@,
            url: field_of(self.url_input),
            query: field_of(self.req_query_input),
            headers: field_of(self.req_headers_input),
            body: field_of(self.req_body_input),
            method: self.method,
        }
    }
}

/// An empty field with the cursor at its start.
pub open spec fn empty_field() -> Field {
    Field { text: Seq::empty(), cursor: 0 }
}

/// The application at start.
pub open spec fn blank_app() -> AppModel {
    AppModel {
        state: refreshed(blank_state()),
        url: empty_field(),
        query: empty_field(),
        headers: empty_field(),
        body: empty_field(),
        method: HttpMethod::Get,
    }
}

/// The state once a request is on its way: loading, with the last error,
/// the last response and the scroll offsets cleared and the derived values
/// computed anew.
pub open spec fn cleared(s: StateModel) -> StateModel {
    refreshed(
        StateModel {
            is_loading: true,
            error: None,
            response_body: None,
            response_status: None,
            response_headers: None,
            response_content_type: None,
            response_formatted_body: None,
            response_max_line_width_cache: None,
            response_scroll: 0,
            response_scroll_x: 0,
            ..s
        },
    )
}

/// The state once a response has arrived: no longer loading, with the
/// status line, the headers, the content type, the body and the elapsed
/// time of the response, the scroll offsets at the origin and the derived
/// values computed anew.
pub open spec fn with_response(s: StateModel, r: RecordModel) -> StateModel {
    refreshed(
        StateModel {
            is_loading: false,
            response_status: Some(status_line(r.status, r.status_text)),
            response_body: Some(r.body),
            response_content_type: content_type_of(r.headers),
            response_headers: headers_text(r.headers),
            response_scroll: 0,
            response_scroll_x: 0,
            response_time: r.elapsed_ms,
            ..s
        },
    )
}

/// The state once a request has failed: no longer loading, with the message
/// as the current error.
pub open spec fn with_error(s: StateModel, message: Seq<char>) -> StateModel {
    StateModel { is_loading: false, error: Some(message), ..s }
}

/// The request that the form stands for at this moment.
pub open spec fn snapshot(m: AppModel) -> RequestModel {
    request_for(m.method, m.url.text, m.query.text, m.headers.text, m.state.body_mode, m.body.text)
}

/// The field of the panel in focus; the response panels have none.
pub open spec fn focused(m: AppModel) -> Option<Field> {
    match m.state.active_panel {
        ActivePanel::Url => Some(m.url),
        ActivePanel::ReqQuery => Some(m.query),
        ActivePanel::ReqHeaders => Some(m.headers),
        ActivePanel::ReqBody => Some(m.body),
        ActivePanel::ResHeaders => None,
        ActivePanel::ResBody => None,
    }
}

/// The application with the focused field edited; unchanged where the panel
/// in focus has no field.
pub open spec fn with_edit(m: AppModel, op: EditOp) -> AppModel {
    match m.state.active_panel {
        ActivePanel::Url => AppModel { url: edited(m.url, op), ..m },
        ActivePanel::ReqQuery => AppModel { query: edited(m.query, op), ..m },
        ActivePanel::ReqHeaders => AppModel { headers: edited(m.headers, op), ..m },
        ActivePanel::ReqBody => AppModel { body: edited(m.body, op), ..m },
        ActivePanel::ResHeaders => m,
        ActivePanel::ResBody => m,
    }
}

/// The application after a command.
pub open spec fn after_command(m: AppModel, command: Command) -> AppModel {
    match command {
        Command::Nothing => m,
        Command::DismissError => AppModel { state: StateModel { error: None, ..m.state }, ..m },
        Command::FocusNext => AppModel {
            state: StateModel { active_panel: m.state.active_panel.next(), ..m.state },
            ..m
        },
        Command::FocusPrev => AppModel {
            state: StateModel { active_panel: m.state.active_panel.prev(), ..m.state },
            ..m
        },
        Command::EnterEdit => AppModel { state: StateModel { mode: Mode::Edit, ..m.state }, ..m },
        Command::LeaveEdit => AppModel { state: StateModel { mode: Mode::Normal, ..m.state }, ..m },
        Command::Send => AppModel { state: cleared(m.state), ..m },
        Command::NextMethod => AppModel { method: m.method.next(), ..m },
        Command::PrevMethod => AppModel { method: m.method.prev(), ..m },
        Command::ToggleBodyMode => AppModel {
            state: StateModel { body_mode: m.state.body_mode.toggled(), ..m.state },
            ..m
        },
        Command::ScrollDown => AppModel { state: scrolled(m.state, SCROLL_STEP as int, 0), ..m },
        Command::ScrollUp => AppModel { state: scrolled(m.state, -(SCROLL_STEP as int), 0), ..m },
        Command::ScrollRight => AppModel { state: scrolled(m.state, 0, SCROLL_STEP as int), ..m },
        Command::ScrollLeft => AppModel {
            state: scrolled(m.state, 0, -(SCROLL_STEP as int)),
            ..m
        },
        Command::Quit => AppModel { state: StateModel { should_exit: true, ..m.state }, ..m },
        Command::Edit(op) => with_edit(m, op),
    }
}

/// The command that a key stands for in the application as it is.
pub open spec fn key_command(m: AppModel, key: KeyPress) -> Command {
    command_for(m.state.mode, m.state.active_panel, m.state.error is Some, key)
}

/// The application after a key press: any displayed error is gone, and the
/// key's command is carried out.
pub open spec fn after_key(m: AppModel, key: KeyPress) -> AppModel {
    after_command(
        AppModel { state: StateModel { error: None, ..m.state }, ..m },
        key_command(m, key),
    )
}

/// Whether edit mode is on only while a panel with a field has the focus.
pub open spec fn mode_ok(m: AppModel) -> bool {
    m.state.mode == Mode::Edit ==> m.state.active_panel.is_editable()
}

/// Whether the application is well formed: edit mode only on a panel with
/// a field, the derived values in step with the response, and the scroll
/// offsets inside the content.
pub open spec fn app_ok(m: AppModel) -> bool {
    mode_ok(m) && derived_ok(m.state) && scroll_ok(m.state)
}

impl App {
    /// The application at start: empty fields, the method GET, normal mode
    /// with the URL in focus, and the placeholder measured for display.
    pub fn new() -> (app: App)
        ensures
            app@ == blank_app(),
            app_ok(app@),
    {
        let mut app_state = AppState::default();
        app_state.refresh_response_body_cache();
        App {
            app_state,
            url_input: input_new(),
            req_query_input: input_new(),
            req_headers_input: input_new(),
            req_body_input: input_new(),
            method: HttpMethod::Get,
        }
    }

    /// The application with `url` typed into the URL field at the cursor.
    pub fn with_default_url(self, url: &str) -> (app: App)
        ensures
            app@ == (AppModel {
                url: Field {
                    text: self@.url.text.subrange(0, self@.url.cursor as int) + url@
                        + self@.url.text.subrange(
                        self@.url.cursor as int,
                        self@.url.text.len() as int,
                    ),
                    cursor: self@.url.cursor + url@.len(),
                },
                ..self@
            }),
            app_ok(self@) ==> app_ok(app@),
    {
        let mut app = self;
        input_type(&mut app.url_input, url);
        app
    }

    /// The name of the current method.
    pub fn method_label(&self) -> (label: &'static str)
        ensures
            label@ == self.method.spec_label(),
    {
        self.method.label()
    }

    /// Moves to the next method of the cycle.
    pub fn next_method(&mut self)
        ensures
            final(self)@ == (AppModel { method: old(self).method.next(), ..old(self)@ }),
    {
        self.method = self.method.next();
    }

    /// Moves to the previous method of the cycle.
    pub fn prev_method(&mut self)
        ensures
            final(self)@ == (AppModel { method: old(self).method.prev(), ..old(self)@ }),
    {
        self.method = self.method.prev();
    }

    /// The content type that goes with the current body mode.
    pub fn body_content_type(&self) -> (r: &'static str)
        ensures
            r@ == self.app_state.body_mode.spec_content_type(),
    {
        self.app_state.body_mode.content_type()
    }

    /// Switches to the other body mode.
    pub fn next_body_mode(&mut self)
        ensures
            final(self)@ == after_command(old(self)@, Command::ToggleBodyMode),
    {
        self.app_state.body_mode = self.app_state.body_mode.toggled();
    }

    /// Switches to the other body mode.
    pub fn prev_body_mode(&mut self)
        ensures
            final(self)@ == after_command(old(self)@, Command::ToggleBodyMode),
    {
        self.app_state.body_mode = self.app_state.body_mode.toggled();
    }

    /// Starts a send. The state shows that a request is on its way, with
    /// the last error, the last response and everything derived from it
    /// cleared. The result is the request as the form stands at this moment;
    /// later edits of the form do not reach it.
    pub fn send_request(&mut self) -> (request: PendingRequest)
        ensures
            final(self)@ == after_command(old(self)@, Command::Send),
            request@ == snapshot(old(self)@),
            final(self)@.state.is_loading,
            derived_ok(final(self)@.state),
            scroll_ok(final(self)@.state),
            mode_ok(old(self)@) ==> app_ok(final(self)@),
    {
        self.app_state.is_loading = true;
        self.app_state.error = None;
        self.app_state.response_body = None;
        self.app_state.response_status = None;
        self.app_state.response_headers = None;
        self.app_state.response_content_type = None;
        self.app_state.response_formatted_body = None;
        self.app_state.response_max_line_width_cache = None;
        self.app_state.response_scroll = 0;
        self.app_state.response_scroll_x = 0;
        self.app_state.refresh_response_body_cache();
        build_request(
            self.method,
            self.url_input.value(),
            self.req_query_input.value(),
            self.req_headers_input.value(),
            self.app_state.body_mode,
            self.req_body_input.value(),
        )
    }

    /// Carries out the edit on the field of the panel in focus.
    fn edit_focused(&mut self, op: EditOp)
        ensures
            final(self)@ == with_edit(old(self)@, op),
    {
        match self.app_state.active_panel {
            ActivePanel::Url => input_handle(&mut self.url_input, op),
            ActivePanel::ReqQuery => input_handle(&mut self.req_query_input, op),
            ActivePanel::ReqHeaders => input_handle(&mut self.req_headers_input, op),
            ActivePanel::ReqBody => input_handle(&mut self.req_body_input, op),
            ActivePanel::ResHeaders => {},
            ActivePanel::ResBody => {},
        }
    }

    /// Carries out a command. A send hands out the request to dispatch.
    pub fn apply(&mut self, command: Command) -> (request: Option<PendingRequest>)
        ensures
            final(self)@ == after_command(old(self)@, command),
            request is Some <==> command == Command::Send,
            request matches Some(r) ==> r@ == snapshot(old(self)@),
    {
        match command {
            Command::Nothing => {},
            Command::DismissError => {
                self.app_state.error = None;
            },
            Command::FocusNext => {
                self.app_state.active_panel = self.app_state.active_panel.next();
            },
            Command::FocusPrev => {
                self.app_state.active_panel = self.app_state.active_panel.prev();
            },
            Command::EnterEdit => {
                self.app_state.mode = Mode::Edit;
            },
            Command::LeaveEdit => {
                self.app_state.mode = Mode::Normal;
            },
            Command::Send => {
                return Some(self.send_request());
            },
            Command::NextMethod => {
                self.next_method();
            },
            Command::PrevMethod => {
                self.prev_method();
            },
            Command::ToggleBodyMode => {
                self.next_body_mode();
            },
            Command::ScrollDown => {
                self.app_state.scroll_rows(true);
            },
            Command::ScrollUp => {
                self.app_state.scroll_rows(false);
            },
            Command::ScrollRight => {
                self.app_state.scroll_columns(true);
            },
            Command::ScrollLeft => {
                self.app_state.scroll_columns(false);
            },
            Command::Quit => {
                self.app_state.should_exit = true;
            },
            Command::Edit(op) => {
                self.edit_focused(op);
            },
        }
        None
    }

    /// Handles a key press. A displayed error is dismissed by any key; in
    /// normal mode that is all the key does. Otherwise the key's command is
    /// carried out. The result is the request to dispatch where the key
    /// sends, and nothing for every other key.
    pub fn handle_key_events(&mut self, key: KeyPress) -> (request: Option<PendingRequest>)
        ensures
            final(self)@ == after_key(old(self)@, key),
            final(self)@.state.error is None,
            request is Some <==> key_command(old(self)@, key) == Command::Send,
            request matches Some(r) ==> r@ == snapshot(old(self)@),
            app_ok(old(self)@) ==> app_ok(final(self)@),
    {
        proof {
            lemma_key_keeps_display(old(self)@, key);
            if mode_ok(old(self)@) {
                lemma_key_keeps_mode(old(self)@, key);
            }
        }
        let command = decide(
            self.app_state.mode,
            self.app_state.active_panel,
            self.app_state.error.is_some(),
            key,
        );
        self.app_state.error = None;
        self.apply(command)
    }

    /// Takes the size that this draw allots to the response body and holds
    /// the scroll offsets to it. The offsets left in the state, which the
    /// draw uses, are `min(offset, max(0, extent - viewport))` on each axis;
    /// the fields, the method and everything else in the state stay as they
    /// are.
    pub fn set_viewport(&mut self, height: u16, width: u16)
        ensures
            final(self)@ == (AppModel {
                state: resized(old(self)@.state, height, width),
                ..old(self)@
            }),
            final(self)@.state == (StateModel {
                response_viewport_height: height,
                response_viewport_width: width,
                response_scroll: final(self)@.state.response_scroll,
                response_scroll_x: final(self)@.state.response_scroll_x,
                ..old(self)@.state
            }),
            final(self)@.state.response_scroll == clamped(
                old(self)@.state.response_scroll as int,
                old(self)@.state.response_line_count as int,
                height as int,
            ),
            final(self)@.state.response_scroll_x == clamped(
                old(self)@.state.response_scroll_x as int,
                old(self)@.state.response_max_line_width as int,
                width as int,
            ),
            scroll_ok(final(self)@.state),
            mode_ok(old(self)@) && derived_ok(old(self)@.state) ==> app_ok(final(self)@),
    {
        self.app_state.set_viewport(height, width);
    }

    /// Takes a completed response into the state. It replaces whatever
    /// response was there, also where it belongs to an earlier send than the
    /// one that the state last saw.
    pub fn apply_response(&mut self, record: ResponseRecord)
        ensures
            final(self)@ == (AppModel {
                state: with_response(old(self)@.state, record@),
                ..old(self)@
            }),
            !final(self)@.state.is_loading,
            derived_ok(final(self)@.state),
            scroll_ok(final(self)@.state),
            mode_ok(old(self)@) ==> app_ok(final(self)@),
    {
        self.app_state.is_loading = false;
        self.app_state.response_status = Some(record.status_line());
        self.app_state.response_content_type = find_content_type(&record.headers);
        self.app_state.response_headers = join_headers(&record.headers);
        self.app_state.response_body = Some(record.body);
        self.app_state.response_scroll = 0;
        self.app_state.response_scroll_x = 0;
        self.app_state.response_time = record.elapsed_ms;
        self.app_state.refresh_response_body_cache();
    }

    /// Takes the message of a failed request into the state. It replaces
    /// the error that was there.
    pub fn apply_error(&mut self, message: String)
        ensures
            final(self)@ == (AppModel {
                state: with_error(old(self)@.state, message@),
                ..old(self)@
            }),
            app_ok(old(self)@) ==> app_ok(final(self)@),
    {
        self.app_state.is_loading = false;
        self.app_state.error = Some(message);
    }

    /// Takes what the result channels held at this tick: at most one
    /// response and at most one error message, the response first.
    pub fn poll_network(&mut self, response: Option<ResponseRecord>, error: Option<String>)
        ensures
            final(self)@ == ({
                let first = match response {
                    Some(record) => AppModel {
                        state: with_response(old(self)@.state, record@),
                        ..old(self)@
                    },
                    None => old(self)@,
                };
                match error {
                    Some(message) => AppModel { state: with_error(first.state, message@), ..first },
                    None => first,
                }
            }),
            app_ok(old(self)@) ==> app_ok(final(self)@),
    {
        if let Some(record) = response {
            self.apply_response(record);
        }
        if let Some(message) = error {
            self.apply_error(message);
        }
    }
}

/// A command leaves the derived values in step with the response.
pub proof fn lemma_command_keeps_derived(m: AppModel, command: Command)
    requires
        derived_ok(m.state),
    ensures
        derived_ok(after_command(m, command).state),
{
    match command {
        Command::Send => {},
        Command::Edit(op) => {},
        Command::ScrollDown => {},
        Command::ScrollUp => {},
        Command::ScrollRight => {},
        Command::ScrollLeft => {},
        _ => {},
    }
}

/// A command leaves the scroll offsets inside the content.
pub proof fn lemma_command_keeps_scroll(m: AppModel, command: Command)
    requires
        scroll_ok(m.state),
    ensures
        scroll_ok(after_command(m, command).state),
{
    match command {
        Command::Send => {},
        Command::Edit(op) => {},
        Command::ScrollDown => {},
        Command::ScrollUp => {},
        Command::ScrollRight => {},
        Command::ScrollLeft => {},
        _ => {},
    }
}

/// A key press keeps edit mode on panels with a field: the focus does not
/// move in edit mode, and edit mode starts only on a panel with a field.
pub proof fn lemma_key_keeps_mode(m: AppModel, key: KeyPress)
    requires
        mode_ok(m),
    ensures
        mode_ok(after_key(m, key)),
{
    let command = key_command(m, key);
    match m.state.mode {
        Mode::Normal => {
            assert(command is Edit ==> false);
            assert(command == Command::EnterEdit ==> m.state.active_panel.is_editable());
        },
        Mode::Edit => {
            assert(command != Command::FocusNext && command != Command::FocusPrev);
        },
    }
}

/// A key press keeps the derived values in step with the response and the
/// scroll offsets inside the content, and leaves no error displayed.
pub proof fn lemma_key_keeps_display(m: AppModel, key: KeyPress)
    ensures
        derived_ok(m.state) ==> derived_ok(after_key(m, key).state),
        scroll_ok(m.state) ==> scroll_ok(after_key(m, key).state),
        after_key(m, key).state.error is None,
{
    let start = AppModel { state: StateModel { error: None, ..m.state }, ..m };
    let command = key_command(m, key);
    if derived_ok(m.state) {
        assert(derived_ok(start.state));
        lemma_command_keeps_derived(start, command);
    }
    if scroll_ok(m.state) {
        assert(scroll_ok(start.state));
        lemma_command_keeps_scroll(start, command);
    }
    match command {
        Command::Edit(op) => {},
        _ => {},
    }
}

/// Only the quit key ends the application, and only in normal mode with no
/// error displayed.
pub proof fn lemma_only_quit_exits(m: AppModel, key: KeyPress)
    requires
        !m.state.should_exit,
        after_key(m, key).state.should_exit,
    ensures
        key_command(m, key) == Command::Quit,
        m.state.mode == Mode::Normal,
        m.state.error is None,
{
}

} // verus!
