use todos::text::{is_blank_text, is_whitespace, trim};

#[test]
fn trim_removes_both_ends() {
    assert_eq!(trim("  Buy milk  "), "Buy milk");
    assert_eq!(trim("x"), "x");
    assert_eq!(trim(" x"), "x");
    assert_eq!(trim("x "), "x");
    assert_eq!(trim("\t\r\n x y \n"), "x y");
}

#[test]
fn trim_of_blank_is_empty() {
    assert_eq!(trim(""), "");
    assert_eq!(trim(" "), "");
    assert_eq!(trim("  \t\n"), "");
}

#[test]
fn trim_handles_wide_characters() {
    assert_eq!(trim("\u{3000}日本語 テスト\u{3000}"), "日本語 テスト");
    assert_eq!(trim(" é "), "é");
    assert_eq!(trim("\u{2003}🙂\u{00A0}"), "🙂");
}

#[test]
fn trim_agrees_with_the_standard_library() {
    let samples = [
        "",
        " ",
        "a",
        "  a  ",
        "\u{0085}a\u{1680}",
        "\u{2000}\u{200A}b c\u{2028}\u{2029}",
        "\u{202F}\u{205F}\u{3000}",
        "\u{200B}zero width is no space\u{200B}",
        "\u{001C}x\u{001F}",
        "\u{FEFF}bom",
        "tab\there",
        "\u{000B}\u{000C}vt ff\u{000B}",
    ];
    for s in samples {
        assert_eq!(trim(s), s.trim());
        assert_eq!(is_blank_text(s), s.trim().is_empty());
    }
}

#[test]
fn whitespace_agrees_with_the_standard_library() {
    let mut n: u32 = 0;
    while n <= 0x10FFFF {
        if let Some(c) = char::from_u32(n) {
            assert_eq!(is_whitespace(c), c.is_whitespace());
        }
        n += 1;
    }
}

#[test]
fn whitespace_edges() {
    assert!(is_whitespace(' '));
    assert!(is_whitespace('\t'));
    assert!(is_whitespace('\n'));
    assert!(is_whitespace('\u{000D}'));
    assert!(!is_whitespace('\u{0008}'));
    assert!(!is_whitespace('\u{000E}'));
    assert!(is_whitespace('\u{2000}'));
    assert!(is_whitespace('\u{200A}'));
    assert!(!is_whitespace('\u{200B}'));
    assert!(!is_whitespace('\u{1FFF}'));
    assert!(!is_whitespace('a'));
    assert!(!is_whitespace('0'));
}

#[test]
fn blank_texts() {
    assert!(is_blank_text(""));
    assert!(is_blank_text("   "));
    assert!(is_blank_text("\u{00A0}"));
    assert!(!is_blank_text(" . "));
    assert!(!is_blank_text("a"));
}

#[test]
fn trim_twice_is_trim_once() {
    for s in ["  a b  ", "", "   ", "x", "\n\nline\n"] {
        let once = trim(s);
        assert_eq!(trim(&once), once);
    }
}
