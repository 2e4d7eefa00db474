use awsmfa::text::{
    chars_of, is_whitespace, join_strs, line_key, split_lines, split_pair, str_eq, trim,
};

const SAMPLES: [&str; 14] = [
    "",
    " ",
    "a",
    "  a  ",
    "\t\r\n a b \u{3000}\u{2003}",
    "\u{85}x\u{a0}",
    "\u{1680}\u{2028}\u{2029}\u{202f}\u{205f}",
    "no-space",
    " inner  space kept ",
    "\u{200b}zero width is no space\u{200b}",
    "ünïcödé ",
    "\n\n",
    "a\nb\r\nc\r",
    "\r\n\r\nx\n",
];

#[test]
fn whitespace_is_what_the_standard_library_calls_whitespace() {
    for code in 0..=0x10FFFFu32 {
        if let Some(c) = char::from_u32(code) {
            assert_eq!(is_whitespace(c), c.is_whitespace(), "U+{:04X}", code);
        }
    }
}

#[test]
fn trim_agrees_with_the_standard_library() {
    for s in SAMPLES {
        assert_eq!(trim(s), s.trim(), "{:?}", s);
    }
    assert_eq!(trim("  key \t"), "key");
    assert_eq!(trim(" \u{3000} "), "");
}

#[test]
fn lines_agree_with_the_standard_library() {
    for s in SAMPLES {
        let expected: Vec<String> = s.lines().map(|l| l.to_string()).collect();
        assert_eq!(split_lines(s), expected, "{:?}", s);
    }
    assert_eq!(split_lines("a\nb\r\nc\r"), vec!["a", "b", "c\r"]);
    assert_eq!(split_lines("a\n\nb\n"), vec!["a", "", "b"]);
    assert_eq!(split_lines("\r\r\n"), vec!["\r"]);
    assert!(split_lines("").is_empty());
}

#[test]
fn split_pair_agrees_with_the_standard_library() {
    for s in ["", "=", "a=b", "a = b = c", "no pair", "=x", "x=", " ü = ï "] {
        assert_eq!(split_pair(s), s.split_once('='), "{:?}", s);
    }
    assert_eq!(split_pair("key = a=b"), Some(("key ", " a=b")));
    assert_eq!(line_key(" key = value"), Some("key"));
    assert_eq!(line_key("= value"), Some(""));
    assert_eq!(line_key("no pair"), None);
}

#[test]
fn join_puts_the_separator_between_neighbours() {
    let parts = |v: &[&str]| v.iter().map(|s| s.to_string()).collect::<Vec<String>>();
    assert_eq!(join_strs(&parts(&[]), ", "), "");
    assert_eq!(join_strs(&parts(&["a"]), ", "), "a");
    assert_eq!(join_strs(&parts(&["a", "b", "c"]), ", "), "a, b, c");
    assert_eq!(join_strs(&parts(&["", ""]), "\n"), "\n");
    for v in [&["x", "", "y"][..], &["", "a"][..], &["ü"][..]] {
        assert_eq!(join_strs(&parts(v), "\n\n"), v.join("\n\n"));
    }
}

#[test]
fn characters_and_positions() {
    assert_eq!(chars_of("aü="), vec!['a', 'ü', '=']);
    assert!(chars_of("").is_empty());
    assert!(str_eq("abc", "abc"));
    assert!(!str_eq("abc", "abd"));
    assert!(!str_eq("abc", "ab"));
    assert!(str_eq("", ""));
}
