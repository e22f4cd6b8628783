use parsel::viewport::{clamp_axis, clamp_scroll, cursor_position, ResponseBody};

#[test]
fn scroll_is_clamped_on_each_axis() {
    assert_eq!(clamp_scroll(100, 80, 20, 40, 50, 10), (50, 10));
    assert_eq!(clamp_scroll(100, 80, 20, 40, 90, 60), (80, 40));
    assert_eq!(clamp_scroll(100, 80, 20, 40, 80, 40), (80, 40));
    assert_eq!(clamp_scroll(10, 5, 20, 40, 7, 3), (0, 0));
    assert_eq!(clamp_scroll(0, 0, 0, 0, 9, 9), (0, 0));
    assert_eq!(clamp_scroll(5, 5, 0, 0, 9, 2), (5, 2));
}

#[test]
fn clamped_scroll_lies_in_its_range() {
    for line_count in [0usize, 1, 5, 30, 70000, usize::MAX] {
        for viewport in [0u16, 1, 10, 65535] {
            for requested in [0u16, 1, 9, 29, 65535] {
                let clamped = clamp_axis(requested, line_count, viewport);
                let max = line_count.saturating_sub(viewport as usize);
                assert!(clamped as usize <= max);
                assert!(clamped <= requested);
                assert_eq!(clamped as usize, (requested as usize).min(max));
            }
        }
    }
}

#[test]
fn lines_are_counted_as_the_panel_shows_them() {
    let panel = ResponseBody;
    assert_eq!(panel.line_count(Some("a\nb\nc"), None, None), 3);
    assert_eq!(panel.line_count(Some("a\nb\n"), None, None), 2);
    assert_eq!(panel.line_count(Some("a\r\nb"), None, None), 2);
    assert_eq!(panel.line_count(Some("\n\n"), None, None), 2);
    assert_eq!(panel.line_count(Some(""), None, None), 1);
    assert_eq!(panel.line_count(None, None, None), 3);
    assert_eq!(panel.line_count(Some("x"), Some("1\n2\n3\n4"), None), 4);
    assert_eq!(panel.line_count(Some("[1,2]"), None, Some("application/json")), 4);
}

#[test]
fn widest_line_is_measured_in_characters() {
    let panel = ResponseBody;
    assert_eq!(panel.max_line_width(Some("ab\nabcd\nabc"), None, None, None), 4);
    assert_eq!(panel.max_line_width(Some("héé\nab"), None, None, None), 3);
    assert_eq!(panel.max_line_width(Some("abc\r\nab\r"), None, None, None), 3);
    assert_eq!(panel.max_line_width(Some(""), None, None, None), 1);
    assert_eq!(panel.max_line_width(Some("\n"), None, None, None), 0);
    assert_eq!(panel.max_line_width(None, None, None, None), 27);
    assert_eq!(panel.max_line_width(Some("abc"), None, None, Some(99)), 99);
}

#[test]
fn cursor_wraps_at_the_width() {
    assert_eq!(cursor_position("hello", 0, 10), (0, 0));
    assert_eq!(cursor_position("hello", 3, 10), (0, 3));
    assert_eq!(cursor_position("hello", 5, 5), (1, 0));
    assert_eq!(cursor_position("hello world", 11, 5), (2, 1));
    assert_eq!(cursor_position("ab\ncd", 4, 10), (1, 1));
    assert_eq!(cursor_position("ab\ncd", 3, 10), (1, 0));
    assert_eq!(cursor_position("ab", 99, 10), (0, 2));
    assert_eq!(cursor_position("hello", 3, 0), (0, 0));
    assert_eq!(cursor_position("", 0, 4), (0, 0));
}
