use dtrwm::text::{
    begins_with, chars_of, control, has_char, has_text, is_lowered, not_after, read_number, same,
    split, split_words, trim_end, trim_start, white_space, Separator,
};

#[test]
fn white_space_and_control_are_those_of_unicode() {
    for code in 0u32..=0x10ffff {
        if let Some(c) = char::from_u32(code) {
            assert_eq!(white_space(c), c.is_whitespace(), "{code:x}");
            assert_eq!(control(c), c.is_control(), "{code:x}");
        }
    }
}

#[test]
fn only_the_kelvin_sign_has_a_small_form_in_ascii() {
    for code in 0x80u32..=0x10ffff {
        if let Some(c) = char::from_u32(code) {
            let low: String = c.to_lowercase().collect();
            assert_eq!(low.is_ascii(), c == '\u{212a}', "{code:x}");
        }
    }
}

#[test]
fn small_letters() {
    assert!(is_lowered("SuPer", "super"));
    assert!(is_lowered("MOD4", "mod4"));
    assert!(!is_lowered("supe", "super"));
    assert!(!is_lowered("Sup@r", "super"));
}

#[test]
fn parts_between_separators() {
    assert_eq!(split("a+b++c", Separator::Char('+')), vec!["a", "b", "", "c"]);
    assert_eq!(split("", Separator::Char('+')), vec![""]);
    assert_eq!(split("+", Separator::Char('+')), vec!["", ""]);
}

#[test]
fn parts_join_to_the_whole() {
    for s in ["", "+", "a", "a+b", "++a+", "héllo+wörld+"] {
        assert_eq!(split(s, Separator::Char('+')).join("+"), s);
        assert_eq!(
            split(s, Separator::Char('+')),
            s.split('+').map(|p| p.to_string()).collect::<Vec<String>>()
        );
    }
}

#[test]
fn words_between_white_space() {
    assert_eq!(split_words("  kitty\t-e \u{3000} vim\n"), vec!["kitty", "-e", "vim"]);
    assert_eq!(split_words(" \t\n"), Vec::<String>::new());
}

#[test]
fn numbers() {
    assert_eq!(read_number("0"), Some(0));
    assert_eq!(read_number("+12"), Some(12));
    assert_eq!(read_number("007"), Some(7));
    assert_eq!(read_number("4294967295"), Some(u32::MAX));
    assert_eq!(read_number("4294967296"), None);
    assert_eq!(read_number("99999999999999999999999999"), None);
    for s in ["", "+", "-1", "1 ", " 1", "1a", "++1", "٣"] {
        assert_eq!(read_number(s), None, "{s}");
        assert!(s.parse::<u32>().is_err());
    }
}

#[test]
fn order_is_that_of_std() {
    let list = ["", "a", "ab", "b", "B", "é", "\u{ffff}", "\u{10000}", "a\u{10000}", "aé"];
    for a in list {
        for b in list {
            assert_eq!(not_after(a, b), a <= b, "{a} {b}");
            assert_eq!(same(a, b), a == b);
            assert_eq!(begins_with(a, b), a.starts_with(b));
            assert_eq!(has_text(a, b), a.contains(b));
        }
    }
}

#[test]
fn characters() {
    assert_eq!(chars_of("aé𝄞"), vec!['a', 'é', '𝄞']);
    assert!(has_char("aé𝄞", '𝄞'));
    assert!(!has_char("aé𝄞", 'b'));
}

#[test]
fn ends_are_trimmed() {
    assert_eq!(trim_end("a\0b\0\0", '\0'), "a\0b");
    assert_eq!(trim_end("\0\0", '\0'), "");
    assert_eq!(trim_start("##a#", '#'), "a#");
    assert_eq!(trim_start("##", '#'), "");
}
