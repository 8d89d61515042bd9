use nanohtml2text::whitespace::collapse_whitespace;

fn chars(s: &str) -> Vec<char> {
    s.chars().collect()
}

fn collapse(s: &str) -> String {
    collapse_whitespace(&chars(s)).into_iter().collect()
}

fn by_split_and_join(s: &str) -> String {
    s.split_whitespace().collect::<Vec<_>>().join(" ")
}

const SAMPLES: [&str; 14] = [
    "",
    " ",
    "a",
    " a",
    "a ",
    "  a  b  ",
    "a\nb\nc",
    "should \nignore \r\nnew lines",
    "\t\r\n x \u{a0}\u{2003} y\u{3000}",
    "no-white-space",
    "a  <p>  b",
    "\u{200b} zero width is no white space \u{200b}",
    " \u{85} ",
    "tab\tseparated\tvalues",
];

#[test]
fn collapse_examples() {
    assert_eq!(collapse(""), "");
    assert_eq!(collapse("   "), "");
    assert_eq!(collapse("a"), "a");
    assert_eq!(collapse("  a  b  "), "a b");
    assert_eq!(collapse("a\nb\nc"), "a b c");
    assert_eq!(collapse("a \u{a0}\t b"), "a b");
    assert_eq!(collapse("text <p> more"), "text <p> more");
    assert_eq!(collapse("text  <p>  more"), "text <p> more");
}

#[test]
fn collapse_is_split_and_join() {
    for s in SAMPLES {
        assert_eq!(collapse(s), by_split_and_join(s), "{:?}", s);
    }
}

#[test]
fn collapse_is_idempotent() {
    for s in SAMPLES {
        let once = collapse(s);
        assert_eq!(collapse(&once), once, "{:?}", s);
    }
}

#[test]
fn collapse_leaves_text_without_white_space() {
    assert_eq!(collapse("&amp;"), "&amp;");
    assert_eq!(collapse("<a><b>"), "<a><b>");
}
