use nanohtml2text::html2text;

#[test]
fn plaintext() {
    assert_eq!(html2text("blah"), "blah");
}

#[test]
fn tag() {
    assert_eq!(html2text("<div></div>"), "");
}

#[test]
fn tag_contents() {
    assert_eq!(html2text("<div>simple text</div>"), "simple text");
}

#[test]
fn link() {
    assert_eq!(html2text("click <a href=\"test\">here</a>"), "click test");
}

#[test]
fn links_ignore_attributes() {
    assert_eq!(html2text("click <a class=\"x\" href=\"test\">here</a>"), "click test");
}

#[test]
fn link_entities_in_url() {
    assert_eq!(html2text("click <a href=\"ents/&apos;x&apos;\">here</a>"), "click ents/'x'");
}

#[test]
fn link_javascript() {
    assert_eq!(html2text("click <a href=\"javascript:void(0)\">here</a>"), "click ");
}

#[test]
fn link_ignore_content_tags() {
    assert_eq!(html2text("click <a href=\"test\"><span>here</span> or here</a>"), "click test");
}

#[test]
fn link_absolute_url() {
    assert_eq!(html2text("click <a href=\"http://bit.ly/2n4wXRs\">news</a>"), "click http://bit.ly/2n4wXRs");
}

#[test]
fn link_ignore_attributes_2() {
    assert_eq!(html2text("<a rel=\"mw:WikiLink\" href=\"/wiki/yet#English\" title=\"yet\">yet</a>, <a rel=\"mw:WikiLink\" href=\"/wiki/not_yet#English\" title=\"not yet\">not yet</a>"), "/wiki/yet#English, /wiki/not_yet#English");
}

#[test]
fn ignore_inline() {
    assert_eq!(html2text("strong <strong>text</strong>"), "strong text");
}

#[test]
fn ignore_inline_attributes() {
    assert_eq!(html2text("some <div id=\"a\" class=\"b\">div</div>"), "some div");
}

#[test]
fn collapse_spaces() {
    assert_eq!(html2text("should    ignore more spaces"), "should ignore more spaces");
}

#[test]
fn collapse_linebreaks() {
    assert_eq!(html2text("a\nb\nc"), "a b c");
}

#[test]
fn collapse_mixed() {
    assert_eq!(html2text("should \nignore \r\nnew lines"), "should ignore new lines");
}

#[test]
fn br_tag() {
    assert_eq!(html2text("two<br>line<br/>breaks"), "two\r\nline\r\nbreaks");
}

#[test]
fn h1() {
    assert_eq!(html2text("<h1>First</h1>main text"), "First\r\n\r\nmain text");
}

#[test]
fn h2_inline() {
    assert_eq!(html2text("First<h2>Second</h2>next section"), "First\r\n\r\nSecond\r\n\r\nnext section");
}

#[test]
fn h2() {
    assert_eq!(html2text("<h2>Second</h2>next section"), "Second\r\n\r\nnext section");
}

#[test]
fn h3_inline() {
    assert_eq!(html2text("Second<h3>Third</h3>next section"), "Second\r\n\r\nThird\r\n\r\nnext section");
}

#[test]
fn h3() {
    assert_eq!(html2text("<h3>Third</h3>next section"), "Third\r\n\r\nnext section");
}

#[test]
fn h4_inline() {
    assert_eq!(html2text("Third<h4>Fourth</h4>next section"), "Third\r\n\r\nFourth\r\n\r\nnext section");
}

#[test]
fn h4() {
    assert_eq!(html2text("<h4>Fourth</h4>next section"), "Fourth\r\n\r\nnext section");
}

#[test]
fn h5_inline() {
    assert_eq!(html2text("Fourth<h5>Fifth</h5>next section"), "Fourth\r\n\r\nFifth\r\n\r\nnext section");
}

#[test]
fn h5() {
    assert_eq!(html2text("<h5>Fifth</h5>next section"), "Fifth\r\n\r\nnext section");
}

#[test]
fn h6_inline() {
    assert_eq!(html2text("Fifth<h6>Sixth</h6>next section"), "Fifth\r\n\r\nSixth\r\n\r\nnext section");
}

#[test]
fn h6() {
    assert_eq!(html2text("<h6>Sixth</h6>next section"), "Sixth\r\n\r\nnext section");
}

#[test]
fn no_h7() {
    assert_eq!(html2text("<h7>Not Header</h7>next section"), "Not Headernext section");
}

#[test]
fn entity_nbsp() {
    assert_eq!(html2text("two&nbsp;&nbsp;spaces"), "two\u{a0}\u{a0}spaces");
}

#[test]
fn entity_copy() {
    assert_eq!(html2text("&copy; 2017 K3A"), "\u{a9} 2017 K3A");
}

#[test]
fn entity_tag() {
    assert_eq!(html2text("&lt;printtag&gt;"), "<printtag>");
}

#[test]
fn entity_currencies() {
    assert_eq!(html2text("would you pay in &cent;, &pound;, &yen; or &euro;?"), "would you pay in \u{a2}, \u{a3}, \u{a5} or \u{20ac}?");
}

#[test]
fn ampersand_not_entity() {
    assert_eq!(html2text("Tom & Jerry is not an entity"), "Tom & Jerry is not an entity");
}

#[test]
fn entity_unknown() {
    assert_eq!(html2text("this &neither; as you see"), "this &neither; as you see");
}

#[test]
fn entity_amp() {
    assert_eq!(html2text("fish &amp; chips"), "fish & chips");
}

#[test]
fn unordered_list() {
    assert_eq!(html2text("list of items<ul><li>One</li><li>Two</li><li>Three</li></ul>"), "list of items\r\nOne\r\nTwo\r\nThree\r\n");
}

#[test]
fn entity_quot() {
    assert_eq!(html2text("&quot;I'm sorry, Dave. I'm afraid I can't do that.&quot; \u{2013} HAL, 2001: A Space Odyssey"), "\"I'm sorry, Dave. I'm afraid I can't do that.\" \u{2013} HAL, 2001: A Space Odyssey");
}

#[test]
fn entity_reg() {
    assert_eq!(html2text("Google &reg;"), "Google \u{ae}");
}

#[test]
fn entity_large_unknown() {
    assert_eq!(html2text("&abcdefghij;"), "&abcdefghij;");
}

#[test]
fn entity_numeric() {
    assert_eq!(html2text("&#8268; decimal and hex entities supported &#x204D;"), "\u{204c} decimal and hex entities supported \u{204d}");
}

#[test]
fn entity_numeric_2() {
    assert_eq!(
        html2text("&#39;single quotes&#39; and &#52765;"),
        "'single quotes' and \u{ce1d}"
    );
}

#[test]
fn empty() {
    assert_eq!(html2text(""), "");
}

#[test]
fn full_html() {
    assert_eq!(html2text("<html><head><title>Good</title></head><body>x</body>"), "x");
}

#[test]
fn ignore_script() {
    assert_eq!(html2text("we are not <script type=\"javascript\"></script>interested in scripts"), "we are not interested in scripts");
}

#[test]
fn ignore_unknown_tag() {
    assert_eq!(html2text("<aa>hello</aa>"), "hello");
}

#[test]
fn ignore_unknown_tag_whitespace() {
    assert_eq!(html2text("<aa >hello</aa>"), "hello");
}

#[test]
fn ignore_unknown_tag_attributes() {
    assert_eq!(html2text("<aa x=\"1\">hello</aa>"), "hello");
}
