use parsel::app::App;
use parsel::input::EditOp;
use parsel::keys::{decide, Command, KeyCode, KeyPress};
use parsel::panel::{ActivePanel, BodyMode, Mode};
use parsel::request::{BodyPayload, HttpMethod, RequestHeader};
use parsel::response::ResponseRecord;
use parsel::state::{AppState, SCROLL_STEP};

fn key(code: KeyCode) -> KeyPress {
    KeyPress { code, ctrl: false }
}

fn ch(c: char) -> KeyPress {
    key(KeyCode::Char(c))
}

fn type_text(app: &mut App, text: &str) {
    for c in text.chars() {
        assert!(app.handle_key_events(ch(c)).is_none());
    }
}

fn record(status: u16, reason: &str, headers: &[(&str, &str)], body: &str, ms: u128) -> ResponseRecord {
    ResponseRecord::new(
        status,
        reason.to_string(),
        headers.iter().map(|(k, v)| (k.to_string(), v.to_string())).collect(),
        body.to_string(),
        ms,
    )
}

#[test]
fn app_starts_blank() {
    let app = App::new();
    assert_eq!(app.app_state.mode, Mode::Normal);
    assert_eq!(app.app_state.active_panel, ActivePanel::Url);
    assert_eq!(app.app_state.body_mode, BodyMode::Json);
    assert!(!app.app_state.should_exit);
    assert!(!app.app_state.is_loading);
    assert!(app.app_state.error.is_none());
    assert!(app.app_state.response_body.is_none());
    assert_eq!(app.app_state.response_line_count, 3);
    assert_eq!(app.app_state.response_max_line_width, 27);
    assert_eq!(app.app_state.response_max_line_width_cache, Some(27));
    assert_eq!(app.url_input.value(), "");
    assert_eq!(app.method_label(), "GET");
    assert_eq!(app.body_content_type(), "application/json");
}

#[test]
fn blank_state_has_nothing_derived() {
    let state = AppState::default();
    assert_eq!(state.response_line_count, 0);
    assert_eq!(state.response_max_line_width, 0);
    assert_eq!(state.response_max_line_width_cache, None);
    assert_eq!(state.response_time, 0);
}

#[test]
fn typing_a_url_and_sending_it() {
    let mut app = App::new();
    app.apply_response(record(500, "Internal Server Error", &[("a", "b")], "old", 9));
    app.apply_error("old error".to_string());
    assert!(app.handle_key_events(ch('x')).is_none());
    assert!(app.app_state.error.is_none());
    assert_eq!(app.app_state.mode, Mode::Normal);

    assert!(app.handle_key_events(ch('i')).is_none());
    assert_eq!(app.app_state.mode, Mode::Edit);
    type_text(&mut app, "https://example.com");
    assert_eq!(app.url_input.value(), "https://example.com");
    assert_eq!(app.url_input.cursor(), 19);

    let request = app.handle_key_events(key(KeyCode::Enter)).unwrap();
    assert_eq!(request.url, "https://example.com");
    assert_eq!(request.method, HttpMethod::Get);
    assert!(request.query.is_empty());
    assert!(request.headers.is_empty());
    assert!(request.body.is_none());
    assert!(app.app_state.is_loading);
    assert!(app.app_state.error.is_none());
    assert!(app.app_state.response_body.is_none());
    assert!(app.app_state.response_status.is_none());
    assert!(app.app_state.response_headers.is_none());
    assert!(app.app_state.response_content_type.is_none());
    assert!(app.app_state.response_formatted_body.is_none());
    assert_eq!(app.app_state.response_scroll, 0);
    assert_eq!(app.app_state.response_scroll_x, 0);
    assert_eq!(app.app_state.response_line_count, 3);
    assert_eq!(app.app_state.response_max_line_width, 27);
    assert_eq!(app.app_state.mode, Mode::Edit);

    app.poll_network(
        Some(record(200, "OK", &[("Content-Type", "application/json")], "{\"a\":1}", 42)),
        None,
    );
    assert!(!app.app_state.is_loading);
    assert_eq!(app.app_state.response_status.as_deref(), Some("200 OK"));
    assert_eq!(app.app_state.response_body.as_deref(), Some("{\"a\":1}"));
    assert_eq!(app.app_state.response_content_type.as_deref(), Some("application/json"));
    assert_eq!(app.app_state.response_headers.as_deref(), Some("Content-Type: application/json"));
    assert_eq!(app.app_state.response_formatted_body.as_deref(), Some("{\n  \"a\": 1\n}"));
    assert_eq!(app.app_state.response_line_count, 3);
    assert_eq!(app.app_state.response_max_line_width, 8);
    assert_eq!(app.app_state.response_max_line_width_cache, Some(8));
    assert_eq!(app.app_state.response_time, 42);
    assert!(app.app_state.error.is_none());
}

#[test]
fn form_body_is_sent_with_its_content_type() {
    let mut app = App::new();
    app.handle_key_events(ch('b'));
    assert_eq!(app.app_state.body_mode, BodyMode::Form);
    for _ in 0..3 {
        app.handle_key_events(key(KeyCode::Tab));
    }
    assert_eq!(app.app_state.active_panel, ActivePanel::ReqBody);
    app.handle_key_events(ch('i'));
    type_text(&mut app, "x: 1");
    app.handle_key_events(key(KeyCode::Esc));
    let request = app.handle_key_events(key(KeyCode::Enter)).unwrap();
    assert!(matches!(&request.body, Some(BodyPayload::Form(text)) if text == "x=1"));
    assert_eq!(request.headers.len(), 1);
    assert!(matches!(
        &request.headers[0],
        RequestHeader::ContentType(value) if value == "application/x-www-form-urlencoded"
    ));
}

#[test]
fn error_takes_the_first_key_in_normal_mode() {
    let mut app = App::new();
    app.apply_error("failed".to_string());
    assert!(!app.app_state.is_loading);
    assert_eq!(app.app_state.error.as_deref(), Some("failed"));
    assert!(app.handle_key_events(key(KeyCode::Enter)).is_none());
    assert!(app.app_state.error.is_none());
    assert!(!app.app_state.is_loading);
    app.apply_error("failed".to_string());
    app.handle_key_events(ch('q'));
    assert!(!app.app_state.should_exit);
    app.handle_key_events(ch('q'));
    assert!(app.app_state.should_exit);
}

#[test]
fn error_goes_with_any_key_in_edit_mode() {
    let mut app = App::new();
    app.handle_key_events(ch('i'));
    app.apply_error("failed".to_string());
    app.handle_key_events(ch('a'));
    assert!(app.app_state.error.is_none());
    assert_eq!(app.url_input.value(), "a");
}

#[test]
fn new_error_replaces_the_old() {
    let mut app = App::new();
    app.poll_network(None, Some("one".to_string()));
    app.poll_network(None, Some("two".to_string()));
    assert_eq!(app.app_state.error.as_deref(), Some("two"));
    app.poll_network(Some(record(204, "No Content", &[], "", 1)), Some("three".to_string()));
    assert_eq!(app.app_state.error.as_deref(), Some("three"));
    assert_eq!(app.app_state.response_status.as_deref(), Some("204 No Content"));
    assert_eq!(app.app_state.response_headers, None);
    assert_eq!(app.app_state.response_content_type, None);
    assert!(!app.app_state.is_loading);
}

#[test]
fn later_response_overwrites_the_earlier() {
    let mut app = App::new();
    let first = app.send_request();
    let second = app.send_request();
    assert_eq!(first.url, second.url);
    app.apply_response(record(200, "OK", &[], "second", 5));
    app.apply_response(record(200, "OK", &[], "first", 50));
    assert_eq!(app.app_state.response_body.as_deref(), Some("first"));
    assert_eq!(app.app_state.response_time, 50);
}

#[test]
fn snapshot_does_not_follow_later_edits() {
    let mut app = App::new().with_default_url("https://a.example");
    let request = app.send_request();
    app.handle_key_events(ch('i'));
    type_text(&mut app, "/more");
    assert_eq!(request.url, "https://a.example");
    assert_eq!(app.url_input.value(), "https://a.example/more");
}

#[test]
fn focus_moves_along_the_ring_in_normal_mode() {
    let mut app = App::new();
    let order = [
        ActivePanel::ReqQuery,
        ActivePanel::ReqHeaders,
        ActivePanel::ReqBody,
        ActivePanel::ResHeaders,
        ActivePanel::ResBody,
        ActivePanel::Url,
    ];
    for panel in order {
        app.handle_key_events(key(KeyCode::Tab));
        assert_eq!(app.app_state.active_panel, panel);
    }
    app.handle_key_events(key(KeyCode::BackTab));
    assert_eq!(app.app_state.active_panel, ActivePanel::ResBody);
}

#[test]
fn response_panels_cannot_be_edited() {
    let mut app = App::new();
    app.handle_key_events(key(KeyCode::BackTab));
    assert_eq!(app.app_state.active_panel, ActivePanel::ResBody);
    app.handle_key_events(ch('i'));
    assert_eq!(app.app_state.mode, Mode::Normal);
    app.handle_key_events(key(KeyCode::BackTab));
    app.handle_key_events(ch('i'));
    assert_eq!(app.app_state.mode, Mode::Normal);
    app.handle_key_events(key(KeyCode::BackTab));
    app.handle_key_events(ch('i'));
    assert_eq!(app.app_state.mode, Mode::Edit);
}

#[test]
fn method_and_body_mode_keys() {
    let mut app = App::new();
    app.handle_key_events(ch('m'));
    assert_eq!(app.method, HttpMethod::Post);
    assert_eq!(app.method_label(), "POST");
    app.handle_key_events(ch('M'));
    app.handle_key_events(ch('M'));
    assert_eq!(app.method, HttpMethod::Trace);
    app.handle_key_events(ch('B'));
    assert_eq!(app.app_state.body_mode, BodyMode::Form);
    assert_eq!(app.body_content_type(), "application/x-www-form-urlencoded");
    app.handle_key_events(ch('b'));
    assert_eq!(app.app_state.body_mode, BodyMode::Json);
    app.next_method();
    app.prev_method();
    app.next_body_mode();
    app.prev_body_mode();
    assert_eq!(app.method, HttpMethod::Trace);
    assert_eq!(app.app_state.body_mode, BodyMode::Json);
}

#[test]
fn enter_sends_from_any_panel_in_normal_mode() {
    let mut app = App::new().with_default_url("u");
    for _ in 0..6 {
        let request = app.handle_key_events(key(KeyCode::Enter));
        assert_eq!(request.unwrap().url, "u");
        app.handle_key_events(key(KeyCode::Tab));
    }
}

#[test]
fn enter_in_multi_line_fields_starts_a_line() {
    let mut app = App::new();
    app.handle_key_events(key(KeyCode::Tab));
    app.handle_key_events(ch('i'));
    type_text(&mut app, "a: 1");
    assert!(app.handle_key_events(key(KeyCode::Enter)).is_none());
    type_text(&mut app, "b: 2");
    assert_eq!(app.req_query_input.value(), "a: 1\nb: 2");
    assert!(!app.app_state.is_loading);
    let request = app.handle_key_events(KeyPress { code: KeyCode::Enter, ctrl: true }).unwrap();
    assert_eq!(
        request.query,
        vec![("a".to_string(), "1".to_string()), ("b".to_string(), "2".to_string())]
    );
    assert!(app.app_state.is_loading);
    assert_eq!(app.app_state.mode, Mode::Edit);
}

#[test]
fn edit_keys_work_at_the_cursor() {
    let mut app = App::new();
    app.handle_key_events(ch('i'));
    type_text(&mut app, "abcd");
    app.handle_key_events(key(KeyCode::Left));
    app.handle_key_events(key(KeyCode::Backspace));
    assert_eq!(app.url_input.value(), "abd");
    assert_eq!(app.url_input.cursor(), 2);
    app.handle_key_events(key(KeyCode::Home));
    app.handle_key_events(key(KeyCode::Delete));
    assert_eq!(app.url_input.value(), "bd");
    assert_eq!(app.url_input.cursor(), 0);
    app.handle_key_events(key(KeyCode::Backspace));
    app.handle_key_events(key(KeyCode::Left));
    assert_eq!(app.url_input.value(), "bd");
    app.handle_key_events(key(KeyCode::Right));
    type_text(&mut app, "X");
    assert_eq!(app.url_input.value(), "bXd");
    app.handle_key_events(key(KeyCode::End));
    assert_eq!(app.url_input.cursor(), 3);
    app.handle_key_events(key(KeyCode::Delete));
    app.handle_key_events(key(KeyCode::Right));
    assert_eq!(app.url_input.value(), "bXd");
    assert_eq!(app.url_input.cursor(), 3);
    app.handle_key_events(KeyPress { code: KeyCode::Char('c'), ctrl: true });
    app.handle_key_events(key(KeyCode::Tab));
    app.handle_key_events(key(KeyCode::Other));
    assert_eq!(app.url_input.value(), "bXd");
    assert_eq!(app.app_state.active_panel, ActivePanel::Url);
    app.handle_key_events(key(KeyCode::Esc));
    assert_eq!(app.app_state.mode, Mode::Normal);
    assert_eq!(app.url_input.value(), "bXd");
}

#[test]
fn commands_in_normal_mode_leave_the_fields_alone() {
    let mut app = App::new().with_default_url("u");
    for c in ['a', 'z', 'j', 'k', 'h', 'l', ' ', '1'] {
        assert!(app.handle_key_events(ch(c)).is_none());
    }
    for code in [KeyCode::Esc, KeyCode::Backspace, KeyCode::Delete, KeyCode::Left, KeyCode::Other] {
        assert!(app.handle_key_events(key(code)).is_none());
    }
    assert_eq!(app.url_input.value(), "u");
    assert_eq!(app.app_state.active_panel, ActivePanel::Url);
    assert_eq!(app.app_state.mode, Mode::Normal);
    assert_eq!(app.app_state.response_scroll, 0);
    assert!(!app.app_state.should_exit);
}

#[test]
fn scrolling_is_for_the_response_body_and_saturates() {
    let mut app = App::new();
    let body: String = (0..100).map(|i| format!("line {} {}\n", i, "x".repeat(60))).collect();
    app.apply_response(record(200, "OK", &[], &body, 1));
    app.app_state.set_viewport(20, 30);
    assert_eq!(app.app_state.response_line_count, 100);
    app.handle_key_events(ch('j'));
    assert_eq!(app.app_state.response_scroll, 0);
    app.handle_key_events(key(KeyCode::BackTab));
    app.handle_key_events(ch('k'));
    assert_eq!(app.app_state.response_scroll, 0);
    app.handle_key_events(ch('j'));
    assert_eq!(app.app_state.response_scroll, SCROLL_STEP);
    for _ in 0..20 {
        app.handle_key_events(ch('j'));
    }
    assert_eq!(app.app_state.response_scroll, 80);
    app.handle_key_events(ch('k'));
    assert_eq!(app.app_state.response_scroll, 70);
    for _ in 0..9 {
        app.handle_key_events(ch('l'));
    }
    assert_eq!(app.app_state.response_scroll_x, 38);
    app.handle_key_events(ch('h'));
    assert_eq!(app.app_state.response_scroll_x, 28);
    for _ in 0..5 {
        app.handle_key_events(ch('h'));
    }
    assert_eq!(app.app_state.response_scroll_x, 0);
    let url_before = app.url_input.value().to_string();
    app.set_viewport(95, 200);
    assert_eq!(app.url_input.value(), url_before);
    assert_eq!(app.app_state.response_line_count, 100);
    assert_eq!(app.app_state.response_viewport_height, 95);
    assert_eq!(app.app_state.response_scroll, 5);
    assert_eq!(app.app_state.response_scroll_x, 0);
}

#[test]
fn every_key_has_a_command() {
    assert_eq!(decide(Mode::Normal, ActivePanel::Url, false, key(KeyCode::Other)), Command::Nothing);
    assert_eq!(decide(Mode::Normal, ActivePanel::Url, true, ch('q')), Command::DismissError);
    assert_eq!(decide(Mode::Normal, ActivePanel::ResBody, false, ch('j')), Command::ScrollDown);
    assert_eq!(decide(Mode::Normal, ActivePanel::ResHeaders, false, ch('j')), Command::Nothing);
    assert_eq!(decide(Mode::Normal, ActivePanel::ResBody, false, ch('i')), Command::Nothing);
    assert_eq!(decide(Mode::Edit, ActivePanel::Url, false, key(KeyCode::Enter)), Command::Send);
    assert_eq!(
        decide(Mode::Edit, ActivePanel::ReqBody, false, key(KeyCode::Enter)),
        Command::Edit(EditOp::Insert('\n'))
    );
    assert_eq!(
        decide(Mode::Edit, ActivePanel::ResBody, false, KeyPress { code: KeyCode::Enter, ctrl: true }),
        Command::Send
    );
    assert_eq!(decide(Mode::Edit, ActivePanel::ResBody, false, ch('a')), Command::Nothing);
    assert_eq!(decide(Mode::Edit, ActivePanel::ResBody, false, key(KeyCode::Esc)), Command::LeaveEdit);
    assert_eq!(decide(Mode::Edit, ActivePanel::Url, true, ch('q')), Command::Edit(EditOp::Insert('q')));
}

#[test]
fn default_url_is_typed_into_the_field() {
    let app = App::new().with_default_url("https://example.com/é");
    assert_eq!(app.url_input.value(), "https://example.com/é");
    assert_eq!(app.url_input.cursor(), 21);
}
