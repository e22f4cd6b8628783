use parsel::app::App;
use parsel::highlight::{Color, Style};
use parsel::keys::{KeyCode, KeyPress};
use parsel::response::ResponseRecord;

fn key(code: KeyCode) -> KeyPress {
    KeyPress { code, ctrl: false }
}

#[test]
fn blank_screen_shows_hints_and_placeholder() {
    let mut app = App::new();
    let screen = app.render(10, 40);
    assert_eq!(screen.method_title, "○ Method");
    assert_eq!(screen.method_label, "GET");
    assert_eq!(screen.url_title, "● URL");
    assert_eq!(screen.url_text, "");
    assert_eq!(screen.query_title, "○ Query Params");
    assert_eq!(screen.query_text, "key: val");
    assert_eq!(screen.headers_text, "key: val");
    assert_eq!(screen.body_text, "key: val");
    assert_eq!(screen.response_headers_title, "○ Response headers");
    assert_eq!(screen.response_headers_text, "");
    assert_eq!(screen.response_body_title, "○ Response");
    assert_eq!(screen.response_body_text, "No response yet\n\nPress Enter to send request");
    assert!(screen.response_body_rows.is_none());
    assert_eq!((screen.scroll_y, screen.scroll_x), (0, 0));
    assert!(screen.status_line.starts_with("NORMAL • Focus: URL • "));
    assert!(screen.status_line.ends_with(" • Ready"));
    assert!(!screen.editing);
}

#[test]
fn drawing_clamps_the_scroll_and_changes_nothing_else() {
    let mut app = App::new().with_default_url("https://example.com");
    let body: String = (0..50).map(|i| format!("{{\"line\": {}}}\n", i)).collect();
    app.apply_response(ResponseRecord::new(
        200,
        "OK".to_string(),
        vec![("Content-Type".to_string(), "text/plain".to_string())],
        body.clone(),
        7,
    ));
    app.app_state.response_scroll = 45;
    app.app_state.response_scroll_x = 9;
    let screen = app.render(20, 100);
    assert_eq!((screen.scroll_y, screen.scroll_x), (30, 0));
    assert_eq!(app.app_state.response_scroll, 30);
    assert_eq!(app.app_state.response_scroll_x, 0);
    assert_eq!(app.app_state.response_viewport_height, 20);
    assert_eq!(app.app_state.response_viewport_width, 100);
    assert_eq!(app.app_state.response_body.as_deref(), Some(body.as_str()));
    assert_eq!(app.app_state.response_line_count, 50);
    assert_eq!(app.url_input.value(), "https://example.com");
    assert_eq!(screen.url_text, "https://example.com");
    assert_eq!(screen.response_body_text, body);
    assert!(screen.response_body_rows.is_none());
    assert_eq!(screen.response_headers_title, "○ Response headers | 7ms");
    assert_eq!(screen.response_headers_text, "Status: 200 OK\nContent-Type: text/plain");
    let again = app.render(20, 100);
    assert_eq!((again.scroll_y, again.scroll_x), (30, 0));
    let taller = app.render(60, 100);
    assert_eq!((taller.scroll_y, taller.scroll_x), (0, 0));
}

#[test]
fn screen_shows_the_highlighted_display_form() {
    let mut app = App::new();
    app.apply_response(ResponseRecord::new(
        200,
        "OK".to_string(),
        vec![("content-type".to_string(), "application/json".to_string())],
        "{\"n\":1}".to_string(),
        1,
    ));
    app.handle_key_events(key(KeyCode::BackTab));
    let screen = app.render(5, 5);
    assert_eq!(screen.response_body_title, "● Response");
    assert_eq!(screen.response_body_text, "{\n  \"n\": 1\n}");
    let rows = screen.response_body_rows.unwrap();
    assert_eq!(rows.len(), 3);
    let number = rows[1].iter().find(|span| span.text == "1").unwrap();
    assert_eq!(number.style, Style { color: Color::Yellow, italic: false });
}

#[test]
fn screen_tells_when_a_field_is_edited() {
    let mut app = App::new();
    app.handle_key_events(key(KeyCode::Tab));
    app.handle_key_events(key(KeyCode::Char('i')));
    app.handle_key_events(key(KeyCode::Char('a')));
    let screen = app.render(5, 5);
    assert!(screen.editing);
    assert_eq!(screen.query_title, "● Query Params");
    assert_eq!(screen.query_text, "a");
    assert_eq!(screen.url_title, "○ URL");
    assert!(screen.status_line.starts_with("EDIT • Focus: Query • "));
}
