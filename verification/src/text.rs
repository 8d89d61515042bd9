//! Text as a sequence of Unicode scalar values: character classes, searches
//! for the first character of a class and for the first occurrence of a
//! pattern, and the conversions between `str`, `String` and `[char]`.

use vstd::prelude::*;

verus! {

/// Whether `c` has the Unicode property `White_Space`.
pub open spec fn is_whitespace(c: char) -> bool {
    ||| '\u{9}' <= c <= '\u{d}'
    ||| c == ' '
    ||| c == '\u{85}'
    ||| c == '\u{a0}'
    ||| c == '\u{1680}'
    ||| '\u{2000}' <= c <= '\u{200a}'
    ||| c == '\u{2028}'
    ||| c == '\u{2029}'
    ||| c == '\u{202f}'
    ||| c == '\u{205f}'
    ||| c == '\u{3000}'
}

/// The lower-case form of an ASCII capital letter; any other character itself.
pub open spec fn ascii_lower(c: char) -> char {
    if 'A' <= c <= 'Z' {
        ((c as u32) + 32) as char
    } else {
        c
    }
}

/// `s` with every ASCII capital letter replaced by its lower-case form.
pub open spec fn ascii_lower_seq(s: Seq<char>) -> Seq<char> {
    Seq::new(s.len(), |i: int| ascii_lower(s[i]))
}

/// `s` itself, or `s` lower-cased where `fold` is set.
pub open spec fn folded(s: Seq<char>, fold: bool) -> Seq<char> {
    if fold {
        ascii_lower_seq(s)
    } else {
        s
    }
}

/// A set of characters that a search can look for.
#[derive(Clone, Copy, Debug)]
pub enum CharClass {
    /// The one character given.
    Is(char),
    /// Every white-space character.
    Whitespace,
    /// Every character that is not white space.
    NotWhitespace,
    /// The characters that end an entity's name: white space, `;` and `&`.
    EntityEnd,
}

impl CharClass {
    /// Whether `c` belongs to the class.
    pub open spec fn contains(self, c: char) -> bool {
        match self {
            CharClass::Is(d) => c == d,
            CharClass::Whitespace => is_whitespace(c),
            CharClass::NotWhitespace => !is_whitespace(c),
            CharClass::EntityEnd => is_whitespace(c) || c == ';' || c == '&',
        }
    }

    /// Decides membership of `c` in the class.
    pub fn holds(self, c: char) -> (r: bool)
        ensures
            r == self.contains(c),
    {
        match self {
            CharClass::Is(d) => c == d,
            CharClass::Whitespace => char_is_whitespace(c),
            CharClass::NotWhitespace => !char_is_whitespace(c),
            CharClass::EntityEnd => char_is_whitespace(c) || c == ';' || c == '&',
        }
    }
}

/// The least index at or after `from` at which `s` holds a character of
/// `class`; the length of `s` where there is none.
pub open spec fn first_in_from(s: Seq<char>, class: CharClass, from: int) -> int
    decreases s.len() - from,
{
    if from >= s.len() {
        s.len() as int
    } else if class.contains(s[from]) {
        from
    } else {
        first_in_from(s, class, from + 1)
    }
}

/// The index of the first character of `class` in `s`; the length of `s`
/// where there is none.
pub open spec fn first_in(s: Seq<char>, class: CharClass) -> int {
    first_in_from(s, class, 0)
}

/// Whether `p` occurs in `s` at index `i`.
pub open spec fn matches_at(s: Seq<char>, p: Seq<char>, i: int) -> bool {
    0 <= i && i + p.len() <= s.len() && s.subrange(i, i + p.len()) == p
}

/// The least index at or after `from` at which `p` occurs in `s`.
pub open spec fn first_match_from(s: Seq<char>, p: Seq<char>, from: int) -> Option<int>
    // One more than the distance to the end: with an empty `p`, `from` may be
    // the length of `s` itself.
    decreases s.len() + 1 - from,
{
    if from + p.len() > s.len() {
        None
    } else if matches_at(s, p, from) {
        Some(from)
    } else {
        first_match_from(s, p, from + 1)
    }
}

/// The index of the first occurrence of `p` in `s`.
pub open spec fn first_match(s: Seq<char>, p: Seq<char>) -> Option<int> {
    first_match_from(s, p, 0)
}

/// `s` without its leading white space.
pub open spec fn trim_start(s: Seq<char>) -> Seq<char> {
    s.skip(first_in(s, CharClass::NotWhitespace))
}

/// The code point of a character is at most `0x10ffff`. This is known of
/// any `char` by its type; the lemma hands it on for an element of a
/// sequence.
pub proof fn lemma_char_range(c: char)
    ensures
        0 <= c as int <= 0x10ffff,
        c as u32 == c as int,
{
}

/// `first_in_from` lies between `from` and the length, names a character of
/// the class unless it is the length, and passes over none.
pub proof fn lemma_first_in_from(s: Seq<char>, class: CharClass, from: int)
    requires
        0 <= from <= s.len(),
    ensures
        from <= first_in_from(s, class, from) <= s.len(),
        first_in_from(s, class, from) < s.len() ==> class.contains(
            s[first_in_from(s, class, from)],
        ),
        forall|j: int| from <= j < first_in_from(s, class, from) ==> !class.contains(#[trigger] s[j]),
    decreases s.len() - from,
{
    if from < s.len() && !class.contains(s[from]) {
        lemma_first_in_from(s, class, from + 1);
    }
}

/// An index that names a character of the class (or is the length) and has
/// none before it is the one `first_in` gives.
pub proof fn lemma_first_in_is(s: Seq<char>, class: CharClass, k: int)
    requires
        0 <= k <= s.len(),
        forall|j: int| 0 <= j < k ==> !class.contains(#[trigger] s[j]),
        k < s.len() ==> class.contains(s[k]),
    ensures
        first_in(s, class) == k,
{
    lemma_first_in_from(s, class, 0);
}

/// `first_match_from` names an occurrence at or after `from` with none
/// between, or there is none at all from there on.
pub proof fn lemma_first_match_from(s: Seq<char>, p: Seq<char>, from: int)
    requires
        0 <= from,
    ensures
        match first_match_from(s, p, from) {
            Some(i) => from <= i && matches_at(s, p, i) && forall|j: int|
                from <= j < i ==> !matches_at(s, p, j),
            None => forall|j: int| from <= j ==> !matches_at(s, p, j),
        },
    decreases s.len() + 1 - from,
{
    if from + p.len() <= s.len() && !matches_at(s, p, from) {
        lemma_first_match_from(s, p, from + 1);
    }
}

/// Decides whether `c` is white space.
pub fn char_is_whitespace(c: char) -> (r: bool)
    ensures
        r == is_whitespace(c),
{
    ('\u{9}' <= c && c <= '\u{d}') || c == ' ' || c == '\u{85}' || c == '\u{a0}' || c
        == '\u{1680}' || ('\u{2000}' <= c && c <= '\u{200a}') || c == '\u{2028}' || c
        == '\u{2029}' || c == '\u{202f}' || c == '\u{205f}' || c == '\u{3000}'
}

/// Whether the lower-case form of `c` is `d`.
pub fn lower_eq(c: char, d: char) -> (r: bool)
    ensures
        r == (ascii_lower(c) == d),
{
    let n: u32 = c as u32;
    let m: u32 = if 65 <= n && n <= 90 {
        n + 32
    } else {
        n
    };
    m == d as u32
}

/// The index of the first character of `class` in `s`, or the length of `s`.
pub fn find_first(s: &[char], class: CharClass) -> (r: usize)
    ensures
        r == first_in(s@, class),
        r <= s@.len(),
        r < s@.len() ==> class.contains(s@[r as int]),
        forall|j: int| 0 <= j < r ==> !class.contains(#[trigger] s@[j]),
{
    let mut i: usize = 0;
    while i < s.len() && !class.holds(s[i])
        invariant
            i <= s@.len(),
            forall|j: int| 0 <= j < i ==> !class.contains(#[trigger] s@[j]),
        decreases s@.len() - i,
    {
        i += 1;
    }
    proof {
        lemma_first_in_is(s@, class, i as int);
    }
    i
}

/// Whether `p` occurs at `i` in `s`, or in `s` lower-cased where `fold` is
/// set.
fn occurs_at(s: &[char], p: &[char], i: usize, fold: bool) -> (r: bool)
    requires
        i + p@.len() <= s@.len(),
    ensures
        r == matches_at(folded(s@, fold), p@, i as int),
{
    let ghost t = folded(s@, fold);
    let n: usize = s.len();
    let mut j: usize = 0;
    while j < p.len()
        invariant
            j <= p@.len(),
            i + p@.len() <= s@.len(),
            s@.len() == n,
            t == folded(s@, fold),
            forall|k: int| 0 <= k < j ==> t[i + k] == #[trigger] p@[k],
        decreases p@.len() - j,
    {
        let same = if fold {
            lower_eq(s[i + j], p[j])
        } else {
            s[i + j] == p[j]
        };
        if !same {
            assert(t.subrange(i as int, i + p@.len())[j as int] != p@[j as int]);
            return false;
        }
        j += 1;
    }
    assert(t.subrange(i as int, i + p@.len()) =~= p@);
    true
}

/// The first occurrence of `p` in `s`, or in `s` lower-cased where `fold` is
/// set.
fn find_match(s: &[char], p: &[char], fold: bool) -> (r: Option<usize>)
    ensures
        match r {
            Some(i) => first_match(folded(s@, fold), p@) == Some(i as int) && i + p@.len()
                <= s@.len(),
            None => first_match(folded(s@, fold), p@) is None,
        },
{
    let ghost t = folded(s@, fold);
    if p.len() > s.len() {
        return None;
    }
    let last: usize = s.len() - p.len();
    let mut i: usize = 0;
    loop
        invariant
            i <= last,
            last == s@.len() - p@.len(),
            t == folded(s@, fold),
            first_match(t, p@) == first_match_from(t, p@, i as int),
        decreases last - i,
    {
        if occurs_at(s, p, i, fold) {
            return Some(i);
        }
        if i == last {
            assert(first_match_from(t, p@, i + 1) is None);
            return None;
        }
        i += 1;
    }
}

/// The index of the first occurrence of `p` in `s`.
pub fn find(s: &[char], p: &[char]) -> (r: Option<usize>)
    ensures
        match r {
            Some(i) => first_match(s@, p@) == Some(i as int) && i + p@.len() <= s@.len(),
            None => first_match(s@, p@) is None,
        },
{
    find_match(s, p, false)
}

/// The index of the first occurrence of `p` in `s` lower-cased.
pub fn find_ignore_ascii_case(s: &[char], p: &[char]) -> (r: Option<usize>)
    ensures
        match r {
            Some(i) => first_match(ascii_lower_seq(s@), p@) == Some(i as int) && i + p@.len()
                <= s@.len(),
            None => first_match(ascii_lower_seq(s@), p@) is None,
        },
{
    find_match(s, p, true)
}

/// Whether `s` begins with `p`.
pub fn starts_with(s: &[char], p: &[char]) -> (r: bool)
    ensures
        r == p@.is_prefix_of(s@),
{
    if p.len() > s.len() {
        return false;
    }
    let r = occurs_at(s, p, 0, false);
    assert(s@.subrange(0, 0int + p@.len()) == p@ <==> p@ =~= s@.subrange(0, p@.len() as int));
    r
}

/// Whether `s` ends with `p`.
pub fn ends_with(s: &[char], p: &[char]) -> (r: bool)
    ensures
        r == p@.is_suffix_of(s@),
{
    if p.len() > s.len() {
        return false;
    }
    let at: usize = s.len() - p.len();
    let r = occurs_at(s, p, at, false);
    assert(s@.subrange(at as int, at + p@.len()) == p@ <==> p@ =~= s@.subrange(
        s@.len() - p@.len(),
        s@.len() as int,
    ));
    r
}

/// The characters of `s`.
pub fn to_chars(s: &str) -> (v: Vec<char>)
    ensures
        v@ == s@,
{
    let mut v: Vec<char> = Vec::new();
    for c in it: s.chars()
        invariant
            v@ == it.seq().take(it.index()),
            it.seq() == s@,
    {
        v.push(c);
    }
    v
}

/// `String::push` appends the one character `ch` to the string.
pub assume_specification[ String::push ](s: &mut String, ch: char)
    ensures
        final(s)@ == old(s)@.push(ch),
;

/// The string made of the characters of `s`.
pub fn to_text(s: &[char]) -> (t: String)
    ensures
        t@ == s@,
{
    let mut t = String::new();
    let mut i: usize = 0;
    while i < s.len()
        invariant
            i <= s@.len(),
            t@ == s@.take(i as int),
        decreases s@.len() - i,
    {
        t.push(s[i]);
        i += 1;
    }
    t
}

} // verus!
