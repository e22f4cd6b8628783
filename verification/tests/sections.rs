use parsel::panel::{ActivePanel, Mode};
use parsel::sections::{
    field_cursor, response_time_color, Method, Pace, QueryParams, RequestBody, RequestHeaders,
    ResponseHeaders, StatusBar, UrlBar,
};
use tui_input::Input;

#[test]
fn titles_mark_the_panel_in_focus() {
    assert_eq!(Method.title(true), "● Method");
    assert_eq!(Method.title(false), "○ Method");
    assert_eq!(UrlBar.title(true), "● URL");
    assert_eq!(QueryParams.title(false), "○ Query Params");
    assert_eq!(RequestHeaders.title(true), "● Request Headers");
    assert_eq!(RequestBody.title(false), "○ Request Body");
}

#[test]
fn empty_fields_show_a_placeholder() {
    assert_eq!(QueryParams.content(""), "key: val");
    assert_eq!(QueryParams.content("a: 1"), "a: 1");
    assert_eq!(RequestHeaders.content(""), "key: val");
    assert_eq!(RequestBody.content("x: y"), "x: y");
}

#[test]
fn response_title_shows_the_time() {
    assert_eq!(ResponseHeaders.title(true, 0), "● Response headers");
    assert_eq!(ResponseHeaders.title(false, 123), "○ Response headers | 123ms");
}

#[test]
fn response_panel_shows_status_then_headers() {
    assert_eq!(ResponseHeaders.content(Some("200 OK"), Some("a: 1\nb: 2")), "Status: 200 OK\na: 1\nb: 2");
    assert_eq!(ResponseHeaders.content(Some("200 OK"), None), "Status: 200 OK");
    assert_eq!(ResponseHeaders.content(None, Some("a: 1")), "a: 1");
    assert_eq!(ResponseHeaders.content(None, None), "");
}

#[test]
fn response_time_has_three_paces() {
    assert_eq!(response_time_color(0), Pace::Fast);
    assert_eq!(response_time_color(300), Pace::Fast);
    assert_eq!(response_time_color(301), Pace::Fair);
    assert_eq!(response_time_color(1000), Pace::Fair);
    assert_eq!(response_time_color(1001), Pace::Slow);
}

#[test]
fn status_bar_names_mode_focus_and_progress() {
    assert_eq!(
        StatusBar.text(Mode::Normal, ActivePanel::Url, false, None),
        "NORMAL • Focus: URL • i: Edit • Enter: Send • b/B: Body • Tab/Shift+Tab: Focus • h/l: ResBody X-Scroll • Ready"
    );
    assert_eq!(
        StatusBar.text(Mode::Edit, ActivePanel::ReqBody, true, None),
        "EDIT • Focus: ReqBody • Esc: Normal • Enter: Send (URL) • Ctrl+Enter: Send • Loading..."
    );
    assert_eq!(
        StatusBar.text(Mode::Edit, ActivePanel::ResHeaders, true, Some("boom")),
        "EDIT • Focus: ResHeaders • Esc: Normal • Enter: Send (URL) • Ctrl+Enter: Send • ERROR: boom"
    );
}

#[test]
fn field_cursor_stays_inside_the_border() {
    assert_eq!(field_cursor(10, 5, 12, 4, "hello", 3), Some((14, 6)));
    assert_eq!(field_cursor(10, 5, 12, 4, "a\nb\nc\nd\ne", 9), Some((12, 8)));
    assert_eq!(field_cursor(10, 5, 12, 2, "hello", 3), None);
    assert_eq!(field_cursor(0, 0, 1, 3, "hello", 3), Some((1, 1)));
    assert_eq!(field_cursor(65535, 65535, 10, 10, "hello", 3), Some((65535, 65535)));
}

#[test]
fn url_cursor_follows_the_display_width() {
    let mut input = Input::default();
    for c in "ab世".chars() {
        input.handle(tui_input::InputRequest::InsertChar(c));
    }
    assert_eq!(UrlBar.cursor_cell(2, 3, 40, &input), (7, 4));
    assert_eq!(UrlBar.cursor_cell(2, 3, 4, &input), (5, 4));
    assert_eq!(UrlBar.cursor_cell(2, 3, 0, &input), (3, 4));
}
