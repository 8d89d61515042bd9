//! Tags: what kind a tag is by its name, the link that an `a` tag holds, and
//! what a tag puts out and how much of the text it takes up.

use crate::decode::decoded_text;
use crate::decode::html_entitities_to_text;
use crate::text::ascii_lower;
use crate::text::ascii_lower_seq;
use crate::text::find;
use crate::text::find_first;
use crate::text::find_ignore_ascii_case;
use crate::text::first_in;
use crate::text::first_match;
use crate::text::lemma_first_in_from;
use crate::text::lemma_first_match_from;
use crate::text::lower_eq;
use crate::text::starts_with;
use crate::text::to_chars;
use crate::text::trim_start;
use crate::text::CharClass;
use vstd::prelude::*;
use vstd::slice::slice_subrange;

verus! {

/// The kinds of tag that the conversion tells apart.
#[derive(Clone, Copy, Debug)]
pub enum TagKind {
    /// `a`: its link is put out, and all up to its end tag is passed over.
    Anchor,
    /// `br`, `br/`, `li`, `/ol`, `/ul`: one line break.
    LineBreak,
    /// `p`, `/p`, `h1` to `h6`, `/h1` to `/h6`: two line breaks.
    Paragraph,
    /// `head`: all up to its end tag is passed over.
    Head,
    /// `script`: all up to its end tag is passed over.
    Script,
    /// `style`: all up to its end tag is passed over.
    Style,
    /// `!--`: all up to the next `-->` is passed over.
    Comment,
    /// Any other tag: the tag alone is passed over.
    Other,
}

/// Whether `name` is one of `h1` to `h6`.
pub open spec fn is_heading(name: Seq<char>) -> bool {
    name.len() == 2 && name[0] == 'h' && '1' <= name[1] <= '6'
}

/// The kind of the tag of the lower-case name `name`.
pub open spec fn tag_kind(name: Seq<char>) -> TagKind {
    if name == "a"@ {
        TagKind::Anchor
    } else if name == "br"@ || name == "br/"@ || name == "li"@ || name == "/ol"@ || name
        == "/ul"@ {
        TagKind::LineBreak
    } else if name == "p"@ || name == "/p"@ || is_heading(name) || (name.len() == 3 && name[0]
        == '/' && is_heading(name.skip(1))) {
        TagKind::Paragraph
    } else if name == "head"@ {
        TagKind::Head
    } else if name == "script"@ {
        TagKind::Script
    } else if name == "style"@ {
        TagKind::Style
    } else if name == "!--"@ {
        TagKind::Comment
    } else {
        TagKind::Other
    }
}

/// A line break: carriage return and line feed.
pub open spec fn line_break() -> Seq<char> {
    seq!['\r', '\n']
}

/// The value of the `href` attribute in `attribs`: after the first `href`,
/// white space, `=`, white space and a quote, all up to the next quote of the
/// same kind. None where any of these is missing.
pub open spec fn href_value(attribs: Seq<char>) -> Option<Seq<char>> {
    match first_match(attribs, "href"@) {
        None => None,
        Some(i) => {
            let after = trim_start(attribs.skip(i + "href"@.len()));
            if after.len() == 0 || after[0] != '=' {
                None
            } else {
                let quoted = trim_start(after.drop_first());
                if quoted.len() == 0 || !(quoted[0] == '\'' || quoted[0] == '"') {
                    None
                } else {
                    let body = quoted.drop_first();
                    let end = first_in(body, CharClass::Is(quoted[0]));
                    if end == body.len() {
                        None
                    } else {
                        Some(body.take(end))
                    }
                }
            }
        },
    }
}

/// What a link with the attributes `attribs` puts out: the value of `href`
/// with its character references decoded; nothing where there is no such
/// value or it begins with `javascript:`.
pub open spec fn link_text(attribs: Seq<char>) -> Seq<char> {
    match href_value(attribs) {
        Some(value) => if "javascript:"@.is_prefix_of(value) {
            Seq::empty()
        } else {
            decoded_text(value)
        },
        None => Seq::empty(),
    }
}

/// Where the text goes on after the end tag that begins with `closer`: behind
/// the first `>` after the first `closer` in `more`, capital letters counting
/// as small ones; at the end of `more` where one of the two is missing.
pub open spec fn closer_end(more: Seq<char>, closer: Seq<char>) -> int {
    match first_match(ascii_lower_seq(more), closer) {
        None => more.len() as int,
        Some(i) => {
            let from = i + closer.len();
            let gt = first_in(more.skip(from), CharClass::Is('>'));
            if from + gt < more.len() {
                from + gt + 1
            } else {
                more.len() as int
            }
        },
    }
}

/// What the tag at the start of `s`, the text behind a `<`, puts out, and how
/// much of `s` it takes up.
///
/// Where `s` holds no `>`, or begins with it, there is no tag: `<` is put out
/// and nothing taken up. Else the tag runs up to the first `>`, and its name
/// up to the first white space in it; what follows then goes by the kind that
/// the name has, capital letters counting as small ones.
pub open spec fn tag_effect(s: Seq<char>) -> (Seq<char>, int) {
    let close = first_in(s, CharClass::Is('>'));
    if close == 0 || close == s.len() {
        (seq!['<'], 0)
    } else {
        let tag = s.take(close);
        let more = s.skip(close + 1);
        let name_len = first_in(tag, CharClass::Whitespace);
        match tag_kind(ascii_lower_seq(tag.take(name_len))) {
            TagKind::Anchor => (
                if name_len < tag.len() {
                    link_text(tag.skip(name_len + 1))
                } else {
                    Seq::empty()
                },
                close + 1 + closer_end(more, "</a"@),
            ),
            TagKind::LineBreak => (line_break(), close + 1),
            TagKind::Paragraph => (line_break() + line_break(), close + 1),
            TagKind::Head => (Seq::empty(), close + 1 + closer_end(more, "</head"@)),
            TagKind::Script => (Seq::empty(), close + 1 + closer_end(more, "</script"@)),
            TagKind::Style => (Seq::empty(), close + 1 + closer_end(more, "</style"@)),
            TagKind::Comment => (
                Seq::empty(),
                match first_match(s, "-->"@) {
                    Some(i) => i + "-->"@.len(),
                    None => s.len() as int,
                },
            ),
            TagKind::Other => (Seq::empty(), close + 1),
        }
    }
}

/// `closer_end` lies within `more`.
pub proof fn lemma_closer_end_bounds(more: Seq<char>, closer: Seq<char>)
    ensures
        0 <= closer_end(more, closer) <= more.len(),
{
    lemma_first_match_from(ascii_lower_seq(more), closer, 0);
    match first_match(ascii_lower_seq(more), closer) {
        None => {},
        Some(i) => {
            lemma_first_in_from(more.skip(i + closer.len()), CharClass::Is('>'), 0);
        },
    }
}

/// A tag takes up no more than there is, and nothing only where there is no
/// tag.
pub proof fn lemma_tag_effect_bounds(s: Seq<char>)
    ensures
        0 <= tag_effect(s).1 <= s.len(),
        tag_effect(s).1 == 0 ==> tag_effect(s).0 == seq!['<'],
{
    let close = first_in(s, CharClass::Is('>'));
    lemma_first_in_from(s, CharClass::Is('>'), 0);
    if !(close == 0 || close == s.len()) {
        let more = s.skip(close + 1);
        lemma_closer_end_bounds(more, "</a"@);
        lemma_closer_end_bounds(more, "</head"@);
        lemma_closer_end_bounds(more, "</script"@);
        lemma_closer_end_bounds(more, "</style"@);
        lemma_first_match_from(s, "-->"@, 0);
        reveal_strlit("-->");
    }
}

/// Whether `name`, capital letters counting as small ones, is `lit`.
fn name_is(name: &[char], lit: &str) -> (r: bool)
    ensures
        r == (ascii_lower_seq(name@) == lit@),
{
    let mut j: usize = 0;
    let mut same = true;
    for c in it: lit.chars()
        invariant
            it.seq() == lit@,
            same ==> j == it.index() && j <= name@.len() && forall|k: int|
                0 <= k < j ==> ascii_lower(name@[k]) == lit@[k],
            !same ==> ascii_lower_seq(name@) != lit@,
    {
        if same {
            if j < name.len() && lower_eq(name[j], c) {
                j += 1;
            } else {
                same = false;
                assert(ascii_lower_seq(name@) != lit@) by {
                    if j < name@.len() {
                        assert(ascii_lower_seq(name@)[j as int] != lit@[j as int]);
                    }
                }
            }
        }
    }
    if same && j == name.len() {
        assert(ascii_lower_seq(name@) =~= lit@);
        true
    } else {
        false
    }
}

/// Whether `name`, capital letters counting as small ones, is one of `h1` to
/// `h6`.
fn is_heading_name(name: &[char]) -> (r: bool)
    ensures
        r == is_heading(ascii_lower_seq(name@)),
{
    name.len() == 2 && lower_eq(name[0], 'h') && '1' <= name[1] && name[1] <= '6'
}

/// The kind of the tag named `name`, capital letters counting as small ones.
pub fn classify(name: &[char]) -> (kind: TagKind)
    ensures
        kind == tag_kind(ascii_lower_seq(name@)),
{
    if name_is(name, "a") {
        TagKind::Anchor
    } else if name_is(name, "br") || name_is(name, "br/") || name_is(name, "li") || name_is(
        name,
        "/ol",
    ) || name_is(name, "/ul") {
        TagKind::LineBreak
    } else if name_is(name, "p") || name_is(name, "/p") || is_heading_name(name) || (name.len()
        == 3 && name[0] == '/' && is_heading_name(slice_subrange(name, 1, 3))) {
        TagKind::Paragraph
    } else if name_is(name, "head") {
        TagKind::Head
    } else if name_is(name, "script") {
        TagKind::Script
    } else if name_is(name, "style") {
        TagKind::Style
    } else if name_is(name, "!--") {
        TagKind::Comment
    } else {
        TagKind::Other
    }
}

/// `s` without its leading white space.
pub fn skip_whitespace(s: &[char]) -> (r: &[char])
    ensures
        r@ == trim_start(s@),
{
    let n = find_first(s, CharClass::NotWhitespace);
    slice_subrange(s, n, s.len())
}

/// The value of the `href` attribute in `attribs`.
pub fn href(attribs: &[char]) -> (r: Option<&[char]>)
    ensures
        match r {
            Some(value) => href_value(attribs@) == Some(value@),
            None => href_value(attribs@) is None,
        },
{
    let key = to_chars("href");
    let len = attribs.len();
    match find(attribs, key.as_slice()) {
        None => None,
        Some(i) => {
            let after = skip_whitespace(slice_subrange(attribs, i + key.len(), len));
            if after.len() == 0 || after[0] != '=' {
                return None;
            }
            let quoted = skip_whitespace(slice_subrange(after, 1, after.len()));
            if quoted.len() == 0 || !(quoted[0] == '\'' || quoted[0] == '"') {
                return None;
            }
            let body = slice_subrange(quoted, 1, quoted.len());
            let end = find_first(body, CharClass::Is(quoted[0]));
            if end == body.len() {
                None
            } else {
                Some(slice_subrange(body, 0, end))
            }
        },
    }
}

/// What a link with the attributes `attribs` puts out.
pub fn link(attribs: &[char]) -> (text: Vec<char>)
    ensures
        text@ == link_text(attribs@),
{
    match href(attribs) {
        Some(value) => {
            let scheme = to_chars("javascript:");
            if starts_with(value, scheme.as_slice()) {
                Vec::new()
            } else {
                html_entitities_to_text(value)
            }
        },
        None => Vec::new(),
    }
}

/// Where the text goes on after the end tag that begins with `closer`.
pub fn skip_past_closer(more: &[char], closer: &str) -> (end: usize)
    ensures
        end == closer_end(more@, closer@),
        end <= more@.len(),
{
    let pattern = to_chars(closer);
    let len = more.len();
    proof {
        lemma_closer_end_bounds(more@, closer@);
    }
    match find_ignore_ascii_case(more, pattern.as_slice()) {
        None => len,
        Some(i) => {
            let from: usize = i + pattern.len();
            let gt = find_first(slice_subrange(more, from, len), CharClass::Is('>'));
            if gt < len - from {
                from + gt + 1
            } else {
                len
            }
        },
    }
}

/// What the tag at the start of `s`, the text behind a `<`, puts out, and how
/// much of `s` it takes up.
pub fn handle_tag(s: &[char]) -> (r: (Vec<char>, usize))
    ensures
        r.0@ == tag_effect(s@).0,
        r.1 == tag_effect(s@).1,
        r.1 <= s@.len(),
{
    proof {
        lemma_tag_effect_bounds(s@);
    }
    let close = find_first(s, CharClass::Is('>'));
    if close == 0 || close == s.len() {
        let mut text: Vec<char> = Vec::new();
        text.push('<');
        assert(text@ =~= seq!['<']);
        return (text, 0);
    }
    let tag = slice_subrange(s, 0, close);
    let more = slice_subrange(s, close + 1, s.len());
    let name_len = find_first(tag, CharClass::Whitespace);
    let mut text: Vec<char> = Vec::new();
    match classify(slice_subrange(tag, 0, name_len)) {
        TagKind::Anchor => {
            if name_len < tag.len() {
                text = link(slice_subrange(tag, name_len + 1, tag.len()));
            }
            (text, close + 1 + skip_past_closer(more, "</a"))
        },
        TagKind::LineBreak => {
            text.push('\r');
            text.push('\n');
            assert(text@ =~= line_break());
            (text, close + 1)
        },
        TagKind::Paragraph => {
            text.push('\r');
            text.push('\n');
            text.push('\r');
            text.push('\n');
            assert(text@ =~= line_break() + line_break());
            (text, close + 1)
        },
        TagKind::Head => (text, close + 1 + skip_past_closer(more, "</head")),
        TagKind::Script => (text, close + 1 + skip_past_closer(more, "</script")),
        TagKind::Style => (text, close + 1 + skip_past_closer(more, "</style")),
        TagKind::Comment => {
            let pattern = to_chars("-->");
            match find(s, pattern.as_slice()) {
                Some(i) => (text, i + pattern.len()),
                None => (text, s.len()),
            }
        },
        TagKind::Other => (text, close + 1),
    }
}

} // verus!
