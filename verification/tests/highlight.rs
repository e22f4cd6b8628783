use parsel::highlight::{
    highlight_body, highlight_names, paint, style_for_highlight_name, Color, HighlightEvent, Style,
    StyledSpan,
};

fn texts(rows: &[Vec<StyledSpan>]) -> Vec<Vec<&str>> {
    rows.iter().map(|row| row.iter().map(|span| span.text.as_str()).collect()).collect()
}

fn joined(rows: &[Vec<StyledSpan>]) -> String {
    rows.iter()
        .map(|row| row.iter().map(|span| span.text.as_str()).collect::<String>())
        .collect::<Vec<_>>()
        .join("\n")
}

fn color_of<'a>(rows: &'a [Vec<StyledSpan>], text: &str) -> Option<Style> {
    rows.iter().flatten().find(|span| span.text == text).map(|span| span.style)
}

#[test]
fn names_map_to_styles() {
    let green = Style { color: Color::Green, italic: false };
    assert_eq!(style_for_highlight_name("string"), green);
    assert_eq!(style_for_highlight_name("string.special"), green);
    assert_eq!(style_for_highlight_name("number"), Style { color: Color::Yellow, italic: false });
    for name in ["boolean", "constant", "constant.builtin", "null"] {
        assert_eq!(style_for_highlight_name(name), Style { color: Color::Cyan, italic: false });
    }
    for name in ["property", "property.builtin", "attribute"] {
        assert_eq!(style_for_highlight_name(name), Style { color: Color::Blue, italic: false });
    }
    for name in ["tag", "tag.builtin", "keyword"] {
        assert_eq!(style_for_highlight_name(name), Style { color: Color::Magenta, italic: false });
    }
    assert_eq!(style_for_highlight_name("comment"), Style { color: Color::DarkGray, italic: true });
    for name in ["punctuation", "punctuation.bracket", "punctuation.delimiter", "punctuation.special"] {
        assert_eq!(style_for_highlight_name(name), Style { color: Color::DarkGray, italic: false });
    }
    for name in ["type", "type.builtin", "constructor"] {
        assert_eq!(style_for_highlight_name(name), Style { color: Color::LightBlue, italic: false });
    }
    for name in ["variable", "function", "", "strings"] {
        assert_eq!(style_for_highlight_name(name), Style { color: Color::Default, italic: false });
    }
}

#[test]
fn twenty_seven_names_are_recognized() {
    let names = highlight_names();
    assert_eq!(names.len(), 27);
    assert_eq!(names[0], "attribute");
    assert_eq!(names[10], "number");
    assert_eq!(names[18], "string");
    assert_eq!(names[26], "null");
}

#[test]
fn events_become_rows_of_spans() {
    let body = "ab\ncd";
    let events = vec![
        HighlightEvent::Start(18),
        HighlightEvent::Source { start: 0, end: 1 },
        HighlightEvent::End,
        HighlightEvent::Source { start: 1, end: 4 },
        HighlightEvent::Start(10),
        HighlightEvent::Start(999),
        HighlightEvent::Source { start: 4, end: 5 },
        HighlightEvent::End,
        HighlightEvent::Source { start: 5, end: 5 },
        HighlightEvent::End,
    ];
    let rows = paint(body, &events).unwrap();
    assert_eq!(texts(&rows), vec![vec!["a", "b"], vec!["c", "d"]]);
    assert_eq!(rows[0][0].style, Style { color: Color::Green, italic: false });
    assert_eq!(rows[0][1].style, Style { color: Color::Default, italic: false });
    assert_eq!(rows[1][0].style, Style { color: Color::Default, italic: false });
    assert_eq!(rows[1][1].style, Style { color: Color::Default, italic: false });
}

#[test]
fn a_line_feed_inside_a_highlight_starts_a_row() {
    let body = "x\n\ny\n";
    let events = vec![
        HighlightEvent::Start(1),
        HighlightEvent::Source { start: 0, end: 5 },
        HighlightEvent::End,
    ];
    let rows = paint(body, &events).unwrap();
    assert_eq!(texts(&rows), vec![vec!["x"], vec![], vec!["y"], vec![]]);
    assert_eq!(rows[2][0].style, Style { color: Color::DarkGray, italic: true });
}

#[test]
fn no_events_give_one_empty_row() {
    let rows = paint("abc", &Vec::new()).unwrap();
    assert_eq!(texts(&rows), vec![Vec::<&str>::new()]);
}

#[test]
fn ends_without_a_start_are_ignored() {
    let events = vec![
        HighlightEvent::End,
        HighlightEvent::Start(10),
        HighlightEvent::End,
        HighlightEvent::End,
        HighlightEvent::Source { start: 0, end: 1 },
    ];
    let rows = paint("7", &events).unwrap();
    assert_eq!(rows[0][0].style, Style { color: Color::Default, italic: false });
}

#[test]
fn ranges_that_do_not_fit_give_nothing() {
    assert!(paint("abc", &vec![HighlightEvent::Source { start: 0, end: 4 }]).is_none());
    assert!(paint("abc", &vec![HighlightEvent::Source { start: 2, end: 1 }]).is_none());
    assert!(paint("é", &vec![HighlightEvent::Source { start: 0, end: 1 }]).is_none());
    assert!(paint("é", &vec![HighlightEvent::Source { start: 1, end: 2 }]).is_none());
    assert!(paint(
        "abc",
        &vec![
            HighlightEvent::Source { start: 0, end: 9 },
            HighlightEvent::Source { start: 0, end: 1 },
        ]
    )
    .is_none());
    let rows = paint("é\nü", &vec![HighlightEvent::Source { start: 0, end: 5 }]).unwrap();
    assert_eq!(texts(&rows), vec![vec!["é"], vec!["ü"]]);
}

#[test]
fn json_is_highlighted_line_by_line() {
    let body = "{\n  \"name\": \"parsel\",\n  \"count\": 42,\n  \"ok\": true\n}";
    let rows = highlight_body(body, Some("application/json; charset=utf-8")).unwrap();
    assert_eq!(rows.len(), 5);
    assert_eq!(joined(&rows), body);
    assert_eq!(color_of(&rows, "42"), Some(Style { color: Color::Yellow, italic: false }));
    assert_eq!(color_of(&rows, "\"parsel\""), Some(Style { color: Color::Green, italic: false }));
    assert_eq!(color_of(&rows, "true"), Some(Style { color: Color::Cyan, italic: false }));
}

#[test]
fn html_is_highlighted_line_by_line() {
    let body = "<div class=\"a\">\n  <!-- note -->\n  text\n</div>";
    let rows = highlight_body(body, Some("text/html")).unwrap();
    assert_eq!(rows.len(), 4);
    assert_eq!(joined(&rows), body);
    assert_eq!(color_of(&rows, "div"), Some(Style { color: Color::Magenta, italic: false }));
    assert_eq!(color_of(&rows, "class"), Some(Style { color: Color::Blue, italic: false }));
    assert_eq!(color_of(&rows, "<!-- note -->"), Some(Style { color: Color::DarkGray, italic: true }));
}

#[test]
fn other_content_is_not_highlighted() {
    assert!(highlight_body("{}", Some("text/plain")).is_none());
    assert!(highlight_body("{}", None).is_none());
}
