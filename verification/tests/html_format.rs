use parsel::html::format_html;

#[test]
fn format_html_ignores_gt_inside_double_quotes() {
    let input = r#"<div data-text="a > b"><span>ok</span></div>"#;
    let expected = [
        r#"<div data-text="a > b">"#,
        "  <span>",
        "    ok",
        "  </span>",
        "</div>",
    ]
    .join("\n");

    assert_eq!(format_html(input).as_deref(), Some(expected.as_str()));
}

#[test]
fn format_html_ignores_gt_inside_single_quotes() {
    let input = "<a title='x > y'>link</a>";
    let expected = ["<a title='x > y'>", "  link", "</a>"].join("\n");

    assert_eq!(format_html(input).as_deref(), Some(expected.as_str()));
}
