use nanohtml2text::text::{
    char_is_whitespace, ends_with, find, find_first, find_ignore_ascii_case, lower_eq,
    starts_with, to_chars, to_text, CharClass,
};

fn chars(s: &str) -> Vec<char> {
    s.chars().collect()
}

#[test]
fn whitespace_is_the_unicode_property() {
    for code in 0..=0x10ffffu32 {
        if let Some(c) = char::from_u32(code) {
            assert_eq!(char_is_whitespace(c), c.is_whitespace(), "U+{:04X}", code);
        }
    }
}

#[test]
fn whitespace_examples() {
    assert!(char_is_whitespace(' '));
    assert!(char_is_whitespace('\t'));
    assert!(char_is_whitespace('\n'));
    assert!(char_is_whitespace('\r'));
    assert!(char_is_whitespace('\u{a0}'));
    assert!(char_is_whitespace('\u{3000}'));
    assert!(!char_is_whitespace('a'));
    assert!(!char_is_whitespace('\u{200b}'));
    assert!(!char_is_whitespace('\u{8}'));
    assert!(!char_is_whitespace('\u{e}'));
}

#[test]
fn lower_eq_folds_ascii_capitals_only() {
    for code in 0..=0x10ffffu32 {
        if let Some(c) = char::from_u32(code) {
            assert!(lower_eq(c, c.to_ascii_lowercase()), "U+{:04X}", code);
        }
    }
    assert!(lower_eq('A', 'a'));
    assert!(lower_eq('a', 'a'));
    assert!(!lower_eq('a', 'A'));
    assert!(!lower_eq('\u{212a}', 'k'));
    assert!(!lower_eq('@', '`'));
    assert!(!lower_eq('[', '{'));
}

#[test]
fn char_classes() {
    assert!(CharClass::Is('<').holds('<'));
    assert!(!CharClass::Is('<').holds('>'));
    assert!(CharClass::Whitespace.holds('\u{2003}'));
    assert!(!CharClass::Whitespace.holds(';'));
    assert!(CharClass::NotWhitespace.holds(';'));
    assert!(!CharClass::NotWhitespace.holds('\n'));
    assert!(CharClass::EntityEnd.holds(';'));
    assert!(CharClass::EntityEnd.holds('&'));
    assert!(CharClass::EntityEnd.holds(' '));
    assert!(CharClass::EntityEnd.holds('\u{a0}'));
    assert!(!CharClass::EntityEnd.holds('#'));
    assert!(!CharClass::EntityEnd.holds('a'));
}

#[test]
fn find_first_gives_the_first_of_several() {
    let s = chars("ab<cd<e");
    assert_eq!(find_first(&s, CharClass::Is('<')), 2);
    assert_eq!(find_first(&s, CharClass::Is('a')), 0);
    assert_eq!(find_first(&s, CharClass::Is('e')), 6);
}

#[test]
fn find_first_gives_the_length_where_there_is_none() {
    assert_eq!(find_first(&chars("abc"), CharClass::Is('<')), 3);
    assert_eq!(find_first(&chars(""), CharClass::Is('<')), 0);
    assert_eq!(find_first(&chars("abc"), CharClass::Whitespace), 3);
    assert_eq!(find_first(&chars(" \t\n"), CharClass::NotWhitespace), 3);
}

#[test]
fn find_first_by_class() {
    assert_eq!(find_first(&chars("ab cd"), CharClass::Whitespace), 2);
    assert_eq!(find_first(&chars("  \u{a0}x "), CharClass::NotWhitespace), 3);
    assert_eq!(find_first(&chars("amp;rest"), CharClass::EntityEnd), 3);
    assert_eq!(find_first(&chars("amp rest;"), CharClass::EntityEnd), 3);
    assert_eq!(find_first(&chars("amp&lt;"), CharClass::EntityEnd), 3);
}

#[test]
fn find_gives_the_first_occurrence() {
    assert_eq!(find(&chars("a href href"), &chars("href")), Some(2));
    assert_eq!(find(&chars("href"), &chars("href")), Some(0));
    assert_eq!(find(&chars("xxhre"), &chars("href")), None);
    assert_eq!(find(&chars("hre"), &chars("href")), None);
    assert_eq!(find(&chars(""), &chars("href")), None);
    assert_eq!(find(&chars("HREF"), &chars("href")), None);
    assert_eq!(find(&chars("a-->b-->"), &chars("-->")), Some(1));
    assert_eq!(find(&chars("aab"), &chars("ab")), Some(1));
}

#[test]
fn find_ignore_ascii_case_folds_the_text() {
    assert_eq!(find_ignore_ascii_case(&chars("x</A>"), &chars("</a")), Some(1));
    assert_eq!(find_ignore_ascii_case(&chars("x</a>"), &chars("</a")), Some(1));
    assert_eq!(find_ignore_ascii_case(&chars("</ScRiPt>"), &chars("</script")), Some(0));
    assert_eq!(find_ignore_ascii_case(&chars("</b>"), &chars("</a")), None);
    assert_eq!(find_ignore_ascii_case(&chars("x</a>"), &chars("</A")), None);
    assert_eq!(find_ignore_ascii_case(&chars("\u{212a}"), &chars("k")), None);
}

#[test]
fn starts_with_and_ends_with() {
    assert!(starts_with(&chars("javascript:void(0)"), &chars("javascript:")));
    assert!(starts_with(&chars("javascript:"), &chars("javascript:")));
    assert!(!starts_with(&chars("javascript"), &chars("javascript:")));
    assert!(!starts_with(&chars("Javascript:x"), &chars("javascript:")));
    assert!(!starts_with(&chars(" javascript:x"), &chars("javascript:")));
    assert!(starts_with(&chars("abc"), &chars("")));
    assert!(ends_with(&chars("a\r\n\r\n"), &chars("\r\n\r\n")));
    assert!(ends_with(&chars("\r\n\r\n"), &chars("\r\n\r\n")));
    assert!(!ends_with(&chars("a\r\n"), &chars("\r\n\r\n")));
    assert!(!ends_with(&chars("\r\n\r\na"), &chars("\r\n\r\n")));
    assert!(!ends_with(&chars("\n\r\n"), &chars("\r\n\r\n")));
    assert!(ends_with(&chars("abc"), &chars("")));
}

#[test]
fn chars_and_text_round_trip() {
    let v = to_chars("a\u{e9}\u{204d}\u{10ffff}");
    assert_eq!(v, vec!['a', '\u{e9}', '\u{204d}', '\u{10ffff}']);
    assert_eq!(to_text(&v), "a\u{e9}\u{204d}\u{10ffff}");
    assert_eq!(to_chars(""), Vec::<char>::new());
    assert_eq!(to_text(&[]), "");
}

#[test]
fn to_text_keeps_every_character_in_order() {
    assert_eq!(to_text(&['x', 'y', 'x']), "xyx");
}
