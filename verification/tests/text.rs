use vibe_core::text::{
    char_is_whitespace, is_blank_str, non_blank_lines, replace_amp_entity,
    str_ends_with_ignore_ascii_case, trim_whitespace,
};

#[test]
fn trim_matches_std() {
    for s in ["", "   ", " a ", "\t\u{3000}ab c\u{2029}\n", "abc", "\u{85}x\u{a0}", "  x\ny  "] {
        assert_eq!(trim_whitespace(s), s.trim());
        assert_eq!(is_blank_str(s), s.trim().is_empty());
    }
}

#[test]
fn whitespace_matches_std() {
    for u in 0u32..0x3100 {
        if let Some(c) = char::from_u32(u) {
            assert_eq!(char_is_whitespace(c), c.is_whitespace(), "{:x}", u);
        }
    }
}

#[test]
fn non_blank_lines_matches_std() {
    for s in ["", "a", "a\nb", "a\r\nb\r\n", "\n\n  \n x \n", "q\r", "one\r\ntwo\rthree\n\n"] {
        let expected: Vec<&str> = s.lines().filter(|l| !l.trim().is_empty()).collect();
        assert_eq!(non_blank_lines(s), expected);
    }
}

#[test]
fn replace_amp_matches_std() {
    for s in ["", "a&amp;b", "&amp;amp;", "&am&amp;", "x&amp", "https://i.redd.it/p.jpg?w=1&amp;s=2"] {
        assert_eq!(replace_amp_entity(s), s.replace("&amp;", "&"));
    }
}

#[test]
fn ends_with_ignoring_case() {
    assert!(str_ends_with_ignore_ascii_case("https://i.imgur.com/A.JPG", ".jpg"));
    assert!(str_ends_with_ignore_ascii_case("x.JpEg", ".jpeg"));
    assert!(!str_ends_with_ignore_ascii_case("x.gif", ".png"));
    assert!(!str_ends_with_ignore_ascii_case("jpg", ".jpg"));
}
