use chainsaw::text::{
    base_name, number_text, parse_number, replaced, same_text, split_lines, strip_function,
    strip_prefix, text_contains, trimmed, trimmed_end,
};

#[test]
fn text_beyond_ascii_is_kept() {
    assert_eq!(trimmed(" a\u{e9}\u{1f600}b "), "a\u{e9}\u{1f600}b");
    assert_eq!(replaced("\u{e9}t\u{e9}", "\u{e9}", "e"), "ete");
}

#[test]
fn trim_drops_white_space_at_both_ends() {
    assert_eq!(trimmed("  D3cold\n"), "D3cold");
    assert_eq!(trimmed("\t1 \r\n"), "1");
    assert_eq!(trimmed("a b"), "a b");
    assert_eq!(trimmed(" \n "), "");
    assert_eq!(trimmed(""), "");
}

#[test]
fn trim_knows_the_unicode_white_space() {
    assert_eq!(trimmed("\u{a0}\u{2003}x\u{3000}\u{85}"), "x");
    assert_eq!(trimmed("\u{200b}x"), "\u{200b}x");
    for c in ['\u{9}', '\u{d}', '\u{20}', '\u{1680}', '\u{2000}', '\u{200a}', '\u{2028}', '\u{2029}', '\u{202f}', '\u{205f}'] {
        assert!(c.is_whitespace());
        assert_eq!(trimmed(&format!("{}x{}", c, c)), "x");
    }
}

#[test]
fn trim_agrees_with_std_on_every_character() {
    for n in 0u32..0x3100 {
        if let Some(c) = char::from_u32(n) {
            let s = format!("{}x", c);
            assert_eq!(trimmed(&s), s.trim(), "U+{:04X}", n);
        }
    }
}

#[test]
fn trim_end_keeps_the_start() {
    assert_eq!(trimmed_end("  0x10de\n"), "  0x10de");
    assert_eq!(trimmed_end("0x030000"), "0x030000");
    assert_eq!(trimmed_end("\n"), "");
}

#[test]
fn same_text_compares_characters() {
    assert!(same_text("D3cold", "D3cold"));
    assert!(!same_text("D3cold", "D3hot"));
    assert!(!same_text("D3cold", "D3col"));
    assert!(same_text("", ""));
}

#[test]
fn contains_finds_a_pattern_anywhere() {
    assert!(text_contains("\t1b80  GP104 [GeForce GTX 1080]", "1b80"));
    assert!(text_contains("abc", "abc"));
    assert!(text_contains("abc", "c"));
    assert!(text_contains("abc", ""));
    assert!(text_contains("", ""));
    assert!(!text_contains("abc", "abcd"));
    assert!(!text_contains("abc", "ac"));
    assert!(!text_contains("", "a"));
}

#[test]
fn replace_takes_occurrences_from_the_left() {
    assert_eq!(replaced("1b80  GP104 1b80", "1b80", ""), "  GP104 ");
    assert_eq!(replaced("0x1b80", "0x", ""), "1b80");
    assert_eq!(replaced("aaa", "aa", "b"), "ba");
    assert_eq!(replaced("abc", "x", "y"), "abc");
    assert_eq!(replaced("", "x", "y"), "");
}

#[test]
fn strip_prefix_takes_the_start_off() {
    assert_eq!(strip_prefix("../renderD128", "../"), Some("renderD128".to_string()));
    assert_eq!(strip_prefix("../", "../"), Some("".to_string()));
    assert_eq!(strip_prefix("abc", ""), Some("abc".to_string()));
    assert_eq!(strip_prefix("a../", "../"), None);
    assert_eq!(strip_prefix("..", "../"), None);
    assert_eq!(strip_prefix("", "../"), None);
}

#[test]
fn replace_of_the_empty_pattern() {
    assert_eq!(replaced("abc", "", "-"), "-a-b-c-");
    assert_eq!(replaced("", "", "-"), "-");
    assert_eq!(replaced("abc", "", ""), "abc");
    assert_eq!("abc".replace("", "-"), "-a-b-c-");
}

#[test]
fn parse_number_reads_digits() {
    assert_eq!(parse_number("0"), Some(0));
    assert_eq!(parse_number("12"), Some(12));
    assert_eq!(parse_number("007"), Some(7));
    assert_eq!(parse_number("+3"), Some(3));
    assert_eq!(parse_number(&usize::MAX.to_string()), Some(usize::MAX));
}

#[test]
fn parse_number_refuses_what_is_no_number() {
    assert_eq!(parse_number(""), None);
    assert_eq!(parse_number("+"), None);
    assert_eq!(parse_number("-1"), None);
    assert_eq!(parse_number("++1"), None);
    assert_eq!(parse_number("1a"), None);
    assert_eq!(parse_number(" 1"), None);
    assert_eq!(parse_number("1-1"), None);
    assert_eq!(parse_number("\u{661}"), None);
}

#[test]
fn parse_number_refuses_what_does_not_fit() {
    let too_large = format!("{}0", usize::MAX);
    assert_eq!(parse_number(&too_large), None);
    let one_more = (usize::MAX as u128 + 1).to_string();
    assert_eq!(parse_number(&one_more), None);
}

#[test]
fn parse_number_agrees_with_std() {
    for s in ["", "+", "-", "0", "+0", "-0", "42", "+42", "4 2", "18446744073709551615", "18446744073709551616", "x"] {
        assert_eq!(parse_number(s), s.parse::<usize>().ok(), "{:?}", s);
    }
}

#[test]
fn number_text_writes_base_ten() {
    assert_eq!(number_text(0), "0");
    assert_eq!(number_text(7), "7");
    assert_eq!(number_text(10), "10");
    assert_eq!(number_text(1203), "1203");
    assert_eq!(number_text(usize::MAX), usize::MAX.to_string());
}

#[test]
fn number_text_is_read_back() {
    for n in [0usize, 1, 9, 10, 99, 100, 12345, usize::MAX] {
        assert_eq!(parse_number(&number_text(n)), Some(n));
    }
}

#[test]
fn strip_function_drops_the_function_suffix() {
    assert_eq!(strip_function("0000:01:00.0"), "0000:01:00");
    assert_eq!(strip_function("0000:03:00.7"), "0000:03:00");
    assert_eq!(strip_function("0000:03:00.12"), "0000:03:00");
    assert_eq!(strip_function("0000:03:00."), "0000:03:00");
}

#[test]
fn strip_function_keeps_an_address_without_suffix() {
    assert_eq!(strip_function("0000:01:00"), "0000:01:00");
    assert_eq!(strip_function("0000:01:0a.x"), "0000:01:0a.x");
    assert_eq!(strip_function(""), "");
    assert_eq!(strip_function("12"), "12");
    assert_eq!(strip_function(".5"), "");
}

#[test]
fn split_lines_ends_each_line_at_a_line_feed() {
    assert_eq!(split_lines("a\nb\n"), vec!["a", "b"]);
    assert_eq!(split_lines("a\nb"), vec!["a", "b"]);
    assert_eq!(split_lines("a\r\nb\r\n"), vec!["a", "b"]);
    assert_eq!(split_lines("a\n\nb"), vec!["a", "", "b"]);
    assert_eq!(split_lines("\n"), vec![""]);
    assert_eq!(split_lines(""), Vec::<String>::new());
}

#[test]
fn split_lines_agrees_with_std() {
    for s in ["", "\n", "\r\n", "a", "a\r", "a\r\n", "a\rb\n", "\n\n", "x\ny\r\n\r\nz", "\r"] {
        let expected: Vec<String> = s.lines().map(|l| l.to_string()).collect();
        assert_eq!(split_lines(s), expected, "{:?}", s);
    }
}

#[test]
fn base_name_is_the_last_component() {
    assert_eq!(base_name("../../../../bus/pci/drivers/nvidia"), Some("nvidia".to_string()));
    assert_eq!(base_name("amdgpu"), Some("amdgpu".to_string()));
    assert_eq!(base_name("/usr/bin/"), Some("bin".to_string()));
    assert_eq!(base_name("a/./"), Some("a".to_string()));
    assert_eq!(base_name("a//b//"), Some("b".to_string()));
    assert_eq!(base_name("..."), Some("...".to_string()));
}

#[test]
fn base_name_of_a_path_without_one() {
    assert_eq!(base_name(""), None);
    assert_eq!(base_name("/"), None);
    assert_eq!(base_name("."), None);
    assert_eq!(base_name(".."), None);
    assert_eq!(base_name("a/.."), None);
    assert_eq!(base_name("a/../."), None);
    assert_eq!(base_name("./"), None);
}

#[test]
fn base_name_agrees_with_std() {
    for p in ["", "/", ".", "..", "a", "a/", "a/b", "a/.", "a/..", "/a/b/", "./a", "a/./b/.", "//", "a//", "../x", ".a", "a/...", "./.", "/.", "/.."] {
        let expected = std::path::Path::new(p).file_name().map(|n| n.to_string_lossy().into_owned());
        assert_eq!(base_name(p), expected, "{:?}", p);
    }
}

#[test]
fn replace_agrees_with_std() {
    let texts = ["", "a", "aaaa", "abab", "ababa", "../../x", "0x0x", "x0", "1b80  GP104 1b80"];
    let patterns = ["", "a", "aa", "aba", "../", "0x", "1b80", "zz"];
    let replacements = ["", "b", "/dev/dri/", "aa"];
    for text in texts {
        for pattern in patterns {
            for to in replacements {
                assert_eq!(
                    replaced(text, pattern, to),
                    text.replace(pattern, to),
                    "{:?} {:?} {:?}",
                    text,
                    pattern,
                    to
                );
            }
        }
    }
}

#[test]
fn contains_agrees_with_std() {
    let texts = ["", "a", "aaaa", "abab", "ababa", "\t1b80  GP104", "10de  NVIDIA"];
    let patterns = ["", "a", "aa", "aba", "bab", "1b80", "10de", "zz", "ababab"];
    for text in texts {
        for pattern in patterns {
            assert_eq!(text_contains(text, pattern), text.contains(pattern), "{:?} {:?}", text, pattern);
        }
    }
}

#[test]
fn trim_end_agrees_with_std() {
    for text in ["", " ", "a ", " a", " a \n\t", "\u{a0}a\u{a0}", "a\u{2003}\u{3000}", "a\u{200b}"] {
        assert_eq!(trimmed_end(text), text.trim_end(), "{:?}", text);
        assert_eq!(trimmed(text), text.trim(), "{:?}", text);
    }
}
