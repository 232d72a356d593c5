use voicebox_asr::text::{text_eq, trim_text};

#[test]
fn trim_removes_unicode_white_space() {
    assert_eq!(trim_text("  a b \n"), "a b");
    assert_eq!(trim_text("\u{3000}x\u{85}"), "x");
    assert_eq!(trim_text("\u{a0}\u{2009}"), "");
    assert_eq!(trim_text(""), "");
    assert_eq!(trim_text("中文"), "中文");
}

#[test]
fn trim_matches_std_trim() {
    for s in [" \t zh-CN \r\n", "\u{200b}x", "x\u{feff}", "\u{1680}y\u{205f}", "a \u{2028}"] {
        assert_eq!(trim_text(s), s.trim());
    }
}

#[test]
fn text_equality_compares_characters() {
    assert!(text_eq("zh", "zh"));
    assert!(!text_eq("zh", "zh "));
    assert!(!text_eq("zh", "ZH"));
    assert!(text_eq("", ""));
}

#[test]
fn trimming_twice_is_trimming_once() {
    for s in ["  x y  ", "\u{3000}\u{3000}", "abc", "\n中文 \t"] {
        let once = trim_text(s);
        assert_eq!(trim_text(once), once);
        assert!(once.is_empty() || (!once.starts_with(char::is_whitespace) && !once.ends_with(char::is_whitespace)));
    }
}
