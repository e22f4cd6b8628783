use parsel::html::format_html;
use parsel::keyvalue::{parse_key_value_lines, split_header_line, vec_to_query_params};
use parsel::viewport::{cursor_position, ResponseBody};

const ALPHABET: [char; 8] = ['a', ':', ' ', '\n', '\r', '\t', 'é', 'b'];

fn texts() -> Vec<String> {
    let mut out = vec![String::new()];
    let mut state: u64 = 12345;
    for _ in 0..3000 {
        state = state.wrapping_mul(6364136223846793005).wrapping_add(1442695040888963407);
        let len = (state >> 60) as usize + 1;
        let mut text = String::new();
        let mut bits = state >> 8;
        for _ in 0..len {
            text.push(ALPHABET[(bits % 8) as usize]);
            bits /= 8;
        }
        out.push(text);
    }
    out
}

fn pairs_by_std(input: &str) -> Vec<(String, String)> {
    input
        .lines()
        .map(str::trim)
        .filter(|line| !line.is_empty())
        .filter_map(|line| {
            let (key, value) = line.split_once(':')?;
            let key = key.trim();
            if key.is_empty() {
                return None;
            }
            Some((key.to_string(), value.trim().to_string()))
        })
        .collect()
}

#[test]
fn pairs_agree_with_line_by_line_parsing() {
    for text in texts() {
        assert_eq!(parse_key_value_lines(&text), pairs_by_std(&text), "{:?}", text);
    }
}

fn pair_by_std(line: &str) -> Option<(String, String)> {
    let line = line.trim();
    let (key, value) = line.split_once(':')?;
    let key = key.trim();
    if key.is_empty() {
        return None;
    }
    Some((key.to_string(), value.trim().to_string()))
}

#[test]
fn single_lines_agree_with_the_parser_of_blocks() {
    for text in texts() {
        let expected = pair_by_std(&text);
        assert_eq!(split_header_line(&text), expected, "{:?}", text);
        assert_eq!(
            vec_to_query_params(vec![text.clone(), "k: v".to_string(), text.clone()]),
            expected
                .clone()
                .into_iter()
                .chain(Some(("k".to_string(), "v".to_string())))
                .chain(expected)
                .collect::<Vec<_>>(),
            "{:?}",
            text
        );
    }
}

#[test]
fn measures_agree_with_the_lines_of_the_text() {
    for text in texts() {
        let count = text.lines().count();
        let expected_count = if count == 0 { 1 } else { count };
        let expected_width = text.lines().map(|line| line.chars().count()).max().unwrap_or(1);
        assert_eq!(ResponseBody.line_count(Some(&text), None, None), expected_count, "{:?}", text);
        assert_eq!(
            ResponseBody.max_line_width(Some(&text), None, None, None),
            expected_width,
            "{:?}",
            text
        );
    }
}

fn cursor_by_steps(value: &str, cursor: usize, width: u16) -> (usize, usize) {
    if width == 0 {
        return (0, 0);
    }
    let width = width as usize;
    let mut line = 0usize;
    let mut col = 0usize;
    for (idx, ch) in value.chars().enumerate() {
        if idx >= cursor {
            break;
        }
        if ch == '\n' {
            line += 1;
            col = 0;
            continue;
        }
        col += 1;
        if col >= width {
            line += 1;
            col = 0;
        }
    }
    (line, col)
}

#[test]
fn cursor_agrees_with_stepping_through_the_text() {
    for (i, text) in texts().into_iter().enumerate().take(600) {
        for width in [0u16, 1, 2, 3, 7] {
            for cursor in [0usize, 1, 2, 5, i % 17, 100] {
                assert_eq!(
                    cursor_position(&text, cursor, width),
                    cursor_by_steps(&text, cursor, width),
                    "{:?} {} {}",
                    text,
                    cursor,
                    width
                );
            }
        }
    }
}

const MARKUP: [char; 12] = ['<', '>', '/', '"', '\'', ' ', '\n', 'a', 'b', '!', '?', 'r'];

#[test]
fn formatted_markup_is_stable_under_formatting() {
    let mut state: u64 = 987654321;
    let mut formatted = 0;
    for _ in 0..20000 {
        state = state.wrapping_mul(6364136223846793005).wrapping_add(1442695040888963407);
        let len = (state >> 59) as usize + 1;
        let mut text = String::new();
        let mut bits = state >> 3;
        for _ in 0..len {
            text.push(MARKUP[(bits % 12) as usize]);
            bits /= 12;
            if bits == 0 {
                state = state.wrapping_mul(6364136223846793005).wrapping_add(1442695040888963407);
                bits = state >> 3;
            }
        }
        if let Some(once) = format_html(&text) {
            formatted += 1;
            assert_eq!(format_html(&once).as_deref(), Some(once.as_str()), "{:?}", text);
        }
    }
    assert!(formatted > 10000);
}

fn next(state: &mut u64) -> u64 {
    *state = state.wrapping_mul(6364136223846793005).wrapping_add(1442695040888963407);
    *state >> 11
}

fn random_text(state: &mut u64) -> String {
    let len = (next(state) % 6) as usize;
    let mut text = String::new();
    for _ in 0..len {
        let pick = next(state) % 8;
        let c = match pick {
            0 => char::from_u32((next(state) % 0x20) as u32).unwrap(),
            1 => '"',
            2 => '\\',
            3 => '\u{2028}',
            4 => char::from_u32(0x1F600 + (next(state) % 16) as u32).unwrap(),
            5 => '\u{7f}',
            _ => char::from_u32(0x20 + (next(state) % 0x5f) as u32).unwrap(),
        };
        text.push(c);
    }
    text
}

fn random_number(state: &mut u64) -> String {
    match next(state) % 5 {
        0 => format!("{}", next(state) as i64 - (1 << 52)),
        1 => format!("{}", u64::MAX - next(state) % 1000),
        2 => {
            let f = f64::from_bits(next(state) << 11 | next(state) % 2048);
            if f.is_finite() { format!("{:e}", f) } else { "0.5".to_string() }
        }
        3 => format!("-{}.{}e{}", next(state) % 10, next(state), (next(state) % 600) as i64 - 300),
        _ => format!("{}{}", next(state), next(state)),
    }
}

fn random_json(state: &mut u64, depth: u32) -> String {
    match if depth == 0 { next(state) % 4 } else { next(state) % 6 } {
        0 => random_number(state),
        1 => serde_json::to_string(&serde_json::Value::String(random_text(state))).unwrap(),
        2 => ["null", "true", "false"][(next(state) % 3) as usize].to_string(),
        3 => random_number(state),
        4 => {
            let n = next(state) % 4;
            let items: Vec<String> = (0..n).map(|_| random_json(state, depth - 1)).collect();
            format!("[{}]", items.join(" , "))
        }
        _ => {
            let n = next(state) % 4;
            let items: Vec<String> = (0..n)
                .map(|_| {
                    let key =
                        serde_json::to_string(&serde_json::Value::String(random_text(state))).unwrap();
                    format!("{}:{}", key, random_json(state, depth - 1))
                })
                .collect();
            format!("{{{}}}", items.join(","))
        }
    }
}

#[test]
fn formatted_json_reads_back_as_it_was_written() {
    let mut state: u64 = 24680;
    let mut formatted = 0;
    for _ in 0..30000 {
        let body = random_json(&mut state, 4);
        let parsed: Result<serde_json::Value, _> = serde_json::from_str(&body);
        let once = parsel::format::format_json(&body);
        assert_eq!(once.is_some(), parsed.is_ok(), "{}", body);
        if let Some(once) = once {
            formatted += 1;
            let again: serde_json::Value = serde_json::from_str(&once).unwrap();
            assert_eq!(again, parsed.unwrap(), "{}", body);
            assert_eq!(parsel::format::format_json(&once).as_deref(), Some(once.as_str()), "{}", body);
        }
    }
    assert!(formatted > 20000);
}
