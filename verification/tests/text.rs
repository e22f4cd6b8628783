use parsel::text::{chars_of, eq_ignore_case, is_whitespace, same_text, string_of, to_lower};

#[test]
fn whitespace_is_the_white_space_property() {
    for code in 0u32..=0x10FFFF {
        if let Some(c) = char::from_u32(code) {
            assert_eq!(is_whitespace(c), c.is_whitespace(), "U+{:04X}", code);
        }
    }
}

#[test]
fn lower_case_changes_ascii_letters_only() {
    for code in 0u32..=0x10FFFF {
        if let Some(c) = char::from_u32(code) {
            assert_eq!(to_lower(c), c.to_ascii_lowercase(), "U+{:04X}", code);
        }
    }
}

#[test]
fn strings_and_characters_convert_both_ways() {
    for text in ["", "a", "héllo wörld", "日本語\n\t", "😀 ok"] {
        let chars = chars_of(text);
        assert_eq!(chars, text.chars().collect::<Vec<char>>());
        assert_eq!(string_of(&chars), text);
        assert!(same_text(&chars, text));
    }
    assert!(!same_text(&chars_of("abc"), "abd"));
    assert!(!same_text(&chars_of("abc"), "ab"));
}

#[test]
fn case_is_ignored_for_ascii_letters_only() {
    let samples = ["", "Content-Type", "content-type", "CONTENT-TYPE", "content_type", "É", "é", "br", "BR", "b"];
    for a in samples {
        for b in samples {
            assert_eq!(eq_ignore_case(a, b), a.eq_ignore_ascii_case(b), "{:?} {:?}", a, b);
        }
    }
}
