//! Conversion of HTML markup to plain text.
//!
//! The text is read as a sequence of characters. White space is collapsed,
//! tags are taken out (a few of them leave line breaks or a link behind, and
//! some take their content with them), and character references are decoded.

pub mod decode;
pub mod entity;
pub mod tag;
pub mod text;
pub mod whitespace;

use crate::decode::decoded_text;
use crate::decode::html_entitities_to_text;
use crate::decode::lemma_decoded_text_of_reference;
use crate::decode::lemma_decoded_text_without_ampersand;
use crate::entity::ENTITY_COUNT;
use crate::entity::entity_name;
use crate::entity::entity_value;
use crate::entity::lemma_named_entity_at;
use crate::entity::lemma_names_are_names;
use crate::tag::handle_tag;
use crate::tag::lemma_tag_effect_bounds;
use crate::tag::line_break;
use crate::tag::skip_whitespace;
use crate::tag::tag_effect;
use crate::text::CharClass;
use crate::text::ends_with;
use crate::text::find_first;
use crate::text::first_in;
use crate::text::is_whitespace;
use crate::text::lemma_first_in_from;
use crate::text::lemma_first_in_is;
use crate::text::to_chars;
use crate::text::to_text;
use crate::text::trim_start;
use crate::whitespace::collapse_whitespace;
use crate::whitespace::collapsed;
use crate::whitespace::is_collapsed;
use crate::whitespace::lemma_collapse_idempotent;
use crate::whitespace::lemma_collapsed_keeps_out;
use crate::whitespace::lemma_collapsed_of_collapsed;
use crate::whitespace::lemma_collapsed_without_whitespace;
use vstd::prelude::*;
use vstd::slice::slice_subrange;

verus! {

/// `out` with `text` put behind it. Where `out` is empty or ends with two
/// line breaks, `text` loses its leading white space first.
pub open spec fn emitted(out: Seq<char>, text: Seq<char>) -> Seq<char> {
    if out.len() == 0 || (line_break() + line_break()).is_suffix_of(out) {
        out + trim_start(text)
    } else {
        out + text
    }
}

/// What is put out for the text `h` once `out` has been put out for what
/// came before it. The text up to the first `<` has its character references
/// decoded; what follows the `<` is handled as a tag, and the scan goes on
/// behind what the tag took up.
pub open spec fn scanned(h: Seq<char>, out: Seq<char>) -> Seq<char>
    decreases h.len(),
    via scanned_decreases
{
    if h.len() == 0 {
        out
    } else {
        let k = first_in(h, CharClass::Is('<'));
        let with_text = out + decoded_text(h.take(k));
        if k == h.len() {
            with_text
        } else {
            let effect = tag_effect(h.skip(k + 1));
            scanned(h.skip(k + 1 + effect.1), emitted(with_text, effect.0))
        }
    }
}

#[via_fn]
proof fn scanned_decreases(h: Seq<char>, out: Seq<char>) {
    if h.len() > 0 {
        lemma_first_in_from(h, CharClass::Is('<'), 0);
        let k = first_in(h, CharClass::Is('<'));
        if k < h.len() {
            lemma_tag_effect_bounds(h.skip(k + 1));
        }
    }
}

/// The plain text of the markup `html`.
pub open spec fn plain_text(html: Seq<char>) -> Seq<char> {
    scanned(collapsed(html), Seq::empty())
}

/// Puts `text` behind `out`.
pub fn emit(out: &mut Vec<char>, text: &[char])
    ensures
        final(out)@ == emitted(old(out)@, text@),
{
    let mut breaks: Vec<char> = Vec::new();
    breaks.push('\r');
    breaks.push('\n');
    breaks.push('\r');
    breaks.push('\n');
    assert(breaks@ =~= line_break() + line_break());
    let rest = if out.len() == 0 || ends_with(out.as_slice(), breaks.as_slice()) {
        skip_whitespace(text)
    } else {
        text
    };
    let mut i: usize = 0;
    while i < rest.len()
        invariant
            i <= rest@.len(),
            out@ == old(out)@ + rest@.take(i as int),
        decreases rest@.len() - i,
    {
        out.push(rest[i]);
        i += 1;
    }
    assert(rest@.take(i as int) =~= rest@);
}

/// Takes the tags out of `h` and decodes its character references.
pub fn scan(h: &[char]) -> (out: Vec<char>)
    ensures
        out@ == scanned(h@, Seq::empty()),
{
    let len: usize = h.len();
    let mut out: Vec<char> = Vec::new();
    let mut i: usize = 0;
    assert(h@.skip(0) =~= h@);
    while i < len
        invariant
            len == h@.len(),
            i <= len,
            scanned(h@.skip(i as int), out@) == scanned(h@, Seq::empty()),
        decreases len - i,
    {
        let rest = slice_subrange(h, i, len);
        let k = find_first(rest, CharClass::Is('<'));
        let mut text = html_entitities_to_text(slice_subrange(rest, 0, k));
        out.append(&mut text);
        if k == rest.len() {
            i = len;
            assert(h@.skip(i as int).len() == 0);
        } else {
            let tag = handle_tag(slice_subrange(rest, k + 1, rest.len()));
            emit(&mut out, tag.0.as_slice());
            proof {
                assert(rest@.skip(k + 1 + tag.1) =~= h@.skip(i + k + 1 + tag.1));
            }
            i = i + k + 1 + tag.1;
        }
    }
    out
}

/// Converts the markup `html` to plain text. White space is collapsed; `a`
/// tags become the value of their `href` attribute; paragraph, heading, line
/// break and list tags become line breaks, each a carriage return and a line
/// feed; comments and `head`, `script` and `style` go with all that they
/// hold; any other tag goes and leaves its content; character references
/// become the characters that they stand for.
pub fn html2text(html: &str) -> (text: String)
    ensures
        text@ == plain_text(html@),
{
    let chars = to_chars(html);
    let collapsed = collapse_whitespace(chars.as_slice());
    let out = scan(collapsed.as_slice());
    to_text(out.as_slice())
}

/// Nothing is put out for the empty text.
pub proof fn lemma_plain_text_of_empty()
    ensures
        plain_text(Seq::empty()) == Seq::<char>::empty(),
{
}

/// The plain text of a markup is that of the markup with its white space
/// collapsed: how the white space of the markup is laid out does not count.
pub proof fn lemma_plain_text_of_collapsed(html: Seq<char>)
    ensures
        plain_text(collapsed(html)) == plain_text(html),
{
    lemma_collapse_idempotent(html);
}

/// A text without `<` has its white space collapsed and its character
/// references decoded, and that is all.
pub proof fn lemma_plain_text_without_tags(html: Seq<char>)
    requires
        forall|i: int| 0 <= i < html.len() ==> #[trigger] html[i] != '<',
    ensures
        plain_text(html) == decoded_text(collapsed(html)),
{
    let h = collapsed(html);
    lemma_collapsed_keeps_out(html, '<');
    if h.len() > 0 {
        lemma_first_in_is(h, CharClass::Is('<'), h.len() as int);
        assert(h.take(h.len() as int) =~= h);
        assert(Seq::<char>::empty() + decoded_text(h) =~= decoded_text(h));
    }
}

/// A collapsed text without `<` and `&` is its own plain text.
pub proof fn lemma_plain_text_of_plain(html: Seq<char>)
    requires
        is_collapsed(html),
        forall|i: int| 0 <= i < html.len() ==> #[trigger] html[i] != '<' && html[i] != '&',
    ensures
        plain_text(html) == html,
{
    lemma_plain_text_without_tags(html);
    lemma_collapsed_of_collapsed(html);
    lemma_decoded_text_without_ampersand(html);
}

/// Each name of the table, written as a reference from `&` to `;` with
/// nothing around it, gives the one character that the table holds under it.
pub proof fn lemma_entity_round_trip(i: int)
    requires
        0 <= i < ENTITY_COUNT,
    ensures
        plain_text(seq!['&'] + entity_name(i) + seq![';']) == seq![entity_value(i)],
{
    let name = entity_name(i);
    let html = seq!['&'] + name + seq![';'];
    lemma_names_are_names(i);
    lemma_named_entity_at(i);
    assert forall|j: int| 0 <= j < html.len() implies !is_whitespace(#[trigger] html[j])
        && html[j] != '<' by {
        if 0 < j <= name.len() {
            assert(html[j] == name[j - 1]);
        }
    }
    lemma_plain_text_without_tags(html);
    lemma_collapsed_without_whitespace(html);
    lemma_decoded_text_of_reference(name);
}

} // verus!
