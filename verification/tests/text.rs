use transcoder_core::text::{
    byte_len, contains, decimal_text, find, has_char, is_whitespace, next_line, part, same, signed_decimal_text,
    starts_with, trim, trim_end_of, word,
};

#[test]
fn searching_counts_characters() {
    assert_eq!(find("中文<tag>", "<tag>"), Some(2));
    assert_eq!(find("aaa", "aa"), Some(0));
    assert_eq!(find("abc", "c"), Some(2));
    assert_eq!(find("abc", ""), Some(0));
    assert_eq!(find("", ""), Some(0));
    assert_eq!(find("abc", "abcd"), None);
    assert_eq!(find("abc", "x"), None);
    assert!(contains("a working directory", "working directory"));
    assert!(!contains("working", "working directory"));
    assert!(starts_with("sk-1", "sk-"));
    assert!(!starts_with("s", "sk-"));
    assert!(same("a", "a") && !same("a", "b"));
    assert!(has_char("abc", 'b') && !has_char("abc", 'd'));
    assert_eq!(part("中文字", 1, 3), "文字");
    assert_eq!(byte_len("中a"), 4);
}

#[test]
fn trimming_agrees_with_the_standard_library() {
    for s in ["", " ", "a", "  a b \t\n", "\u{3000}x\u{a0}", "\u{85}\u{2009}\u{200b}", "\u{feff}x\u{1680}"] {
        assert_eq!(trim(s), s.trim());
        assert_eq!(word(s), s.split_whitespace().next().unwrap_or(""));
        assert_eq!(trim_end_of(s, "ab"), s.trim_end_matches(['a', 'b']));
    }
    assert_eq!(trim_end_of("/x/y'.\",", "'\".,"), "/x/y");
    for n in 0..0x11_0000u32 {
        if let Some(c) = char::from_u32(n) {
            assert_eq!(is_whitespace(c), c.is_whitespace());
        }
    }
}

#[test]
fn lines_agree_with_the_standard_library() {
    for s in ["a", "a\n", "a\nb", "a\r\nb\r\n", "\n\n", "a\r", "a\r\r\n", "\r\n", "x\n\ny"] {
        let mut lines: Vec<String> = Vec::new();
        let mut rest = s.to_string();
        while !rest.is_empty() {
            let (line, after) = next_line(&rest);
            lines.push(line);
            rest = after;
        }
        assert_eq!(lines, s.lines().map(|l| l.to_string()).collect::<Vec<String>>());
    }
}

#[test]
fn numerals() {
    for n in [0, 1, 9, 10, 11, 99, 100, 4_294_967_295u32] {
        assert_eq!(decimal_text(n), n.to_string());
    }
    for n in [0, 5, -1, -10, i32::MAX, i32::MIN] {
        assert_eq!(signed_decimal_text(n), n.to_string());
    }
}
