use ai_shell::text::{
    first_line, is_white_space, join, same_text, strip_prefix, strip_suffix, trim, trim_end,
    trim_trailing,
};

const SAMPLES: [&str; 16] = [
    "", " ", "a", " a ", "\u{2003}a b\u{3000}\n", "\n", "a\n", "a\r\nb", "a\r", "\r\n", "\ra\nb\n",
    "x\u{85}", "\u{200b} y", "a/b//", "//", "é\u{1F600}\r\r\nz",
];

#[test]
fn white_space_is_that_of_unicode() {
    for u in 0..0x110000u32 {
        if let Some(c) = char::from_u32(u) {
            assert_eq!(is_white_space(c), c.is_whitespace(), "{u:x}");
        }
    }
}

#[test]
fn trimming_agrees_with_the_standard_library() {
    for s in SAMPLES {
        assert_eq!(trim(s), s.trim());
        assert_eq!(trim_end(s), s.trim_end());
        assert_eq!(trim_trailing(s, '/'), s.trim_end_matches('/'));
        assert_eq!(trim(trim(s)), trim(s));
    }
}

#[test]
fn padding_does_not_matter() {
    assert_eq!(trim("\t\u{a0} \n x y \r\n"), trim("x y"));
}

#[test]
fn first_lines_agree_with_the_standard_library() {
    for s in SAMPLES {
        assert_eq!(first_line(s), s.lines().next(), "{s:?}");
    }
    assert_eq!(first_line("a\r"), Some("a\r"));
    assert_eq!(first_line("a\r\n"), Some("a"));
}

#[test]
fn prefixes_and_suffixes_agree_with_the_standard_library() {
    for s in SAMPLES {
        for p in ["", "a", " a", "\n", "é", "//", "z"] {
            assert_eq!(strip_prefix(s, p), s.strip_prefix(p));
            assert_eq!(strip_suffix(s, p), s.strip_suffix(p));
            assert_eq!(same_text(s, p), s == p);
        }
    }
}

#[test]
fn words_are_joined() {
    let words = |list: &[&str]| list.iter().map(|s| s.to_string()).collect::<Vec<String>>();
    assert_eq!(join(&words(&[]), " "), "");
    assert_eq!(join(&words(&["a"]), " "), "a");
    assert_eq!(join(&words(&["a", "", "b"]), " "), "a  b");
}
