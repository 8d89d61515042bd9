//! Character references: the number of a numeric reference, the character
//! that a reference's name stands for, and the decoding of the references in
//! a text.

use crate::entity::decode_named_entity;
use crate::entity::named_entity;
use crate::text::first_in;
use crate::text::find_first;
use crate::text::lemma_first_in_from;
use crate::text::lemma_first_in_is;
use crate::text::CharClass;
use vstd::prelude::*;
use vstd::slice::slice_subrange;

verus! {

/// The value of `c` as a digit to the base `radix`, where it is one: `0` to
/// `9` count as themselves, the letters of either case from ten on.
pub open spec fn digit_value(c: char, radix: int) -> Option<int> {
    let v = if '0' <= c <= '9' {
        c as int - '0' as int
    } else if 'a' <= c <= 'z' {
        c as int - 'a' as int + 10
    } else if 'A' <= c <= 'Z' {
        c as int - 'A' as int + 10
    } else {
        radix
    };
    if v < radix {
        Some(v)
    } else {
        None
    }
}

/// Whether every character of `s` is a digit to the base `radix`.
pub open spec fn is_digits(s: Seq<char>, radix: int) -> bool {
    forall|i: int| 0 <= i < s.len() ==> digit_value(#[trigger] s[i], radix) is Some
}

/// The number that the digits `s` write to the base `radix`.
pub open spec fn digits_value(s: Seq<char>, radix: int) -> int
    decreases s.len(),
{
    if s.len() == 0 {
        0
    } else {
        digits_value(s.drop_last(), radix) * radix + digit_value(s.last(), radix).unwrap()
    }
}

/// The number that `s` writes to the base `radix`: an optional `+`, then at
/// least one digit and nothing else; none where the number is over
/// `u32::MAX`.
pub open spec fn parsed_number(s: Seq<char>, radix: int) -> Option<u32> {
    let digits = if s.len() > 0 && s[0] == '+' {
        s.drop_first()
    } else {
        s
    };
    if digits.len() > 0 && is_digits(digits, radix) && digits_value(digits, radix) <= u32::MAX {
        Some(digits_value(digits, radix) as u32)
    } else {
        None
    }
}

/// Whether `n` is a Unicode scalar value: a code point that is no surrogate.
pub open spec fn is_scalar_value(n: u32) -> bool {
    n < 0xd800 || 0xe000 <= n <= 0x10ffff
}

/// The character that the numeric reference `name` stands for: `#` and a
/// decimal number, or `#x` or `#X` and a hexadecimal one. Tab, line feed,
/// carriage return and space are not given, nor what is no scalar value.
pub open spec fn numeric_entity(name: Seq<char>) -> Option<char> {
    if name.len() >= 2 && name[0] == '#' {
        let number = if name[1] == 'x' || name[1] == 'X' {
            parsed_number(name.skip(2), 16)
        } else {
            parsed_number(name.skip(1), 10)
        };
        match number {
            Some(n) => if n == 9 || n == 10 || n == 13 || n == 32 || !is_scalar_value(n) {
                None
            } else {
                Some(n as char)
            },
            None => None,
        }
    } else {
        None
    }
}

/// The character that the reference `name` stands for: what the table holds
/// under it, else what it gives as a numeric reference.
pub open spec fn decoded_entity(name: Seq<char>) -> Option<char> {
    match named_entity(name) {
        Some(c) => Some(c),
        None => numeric_entity(name),
    }
}

/// `s` with its character references decoded. After each `&` the name runs
/// up to the next white space, `;` or `&`, or to the end. Where the name
/// stands for a character, that character takes the place of `&`, of the name
/// and of the `;` that ends it, if one does; where it stands for none, the
/// text stays as it is.
pub open spec fn decoded_text(s: Seq<char>) -> Seq<char>
    decreases s.len(),
    via decoded_text_decreases
{
    if s.len() == 0 {
        s
    } else if s[0] != '&' {
        seq![s[0]] + decoded_text(s.drop_first())
    } else {
        let rest = s.drop_first();
        let n = first_in(rest, CharClass::EntityEnd);
        match decoded_entity(rest.take(n)) {
            Some(c) => seq![c] + decoded_text(rest.skip(reference_len(rest))),
            None => seq!['&'] + decoded_text(rest),
        }
    }
}

/// How much of `rest`, the text after an `&`, a reference takes up: its name
/// and the `;` that ends it, if one does.
pub open spec fn reference_len(rest: Seq<char>) -> int {
    let n = first_in(rest, CharClass::EntityEnd);
    if n < rest.len() && rest[n] == ';' {
        n + 1
    } else {
        n
    }
}

#[via_fn]
proof fn decoded_text_decreases(s: Seq<char>) {
    if s.len() > 0 {
        lemma_first_in_from(s.drop_first(), CharClass::EntityEnd, 0);
    }
}

/// A text without `&` holds no character reference, and is left as it is.
pub proof fn lemma_decoded_text_without_ampersand(s: Seq<char>)
    requires
        forall|i: int| 0 <= i < s.len() ==> #[trigger] s[i] != '&',
    ensures
        decoded_text(s) == s,
    decreases s.len(),
{
    if s.len() > 0 {
        lemma_decoded_text_without_ampersand(s.drop_first());
        assert(seq![s[0]] + s.drop_first() =~= s);
    }
}

/// A reference that is all of the text, from `&` to `;`, gives the one
/// character that its name stands for.
pub proof fn lemma_decoded_text_of_reference(name: Seq<char>)
    requires
        forall|i: int| 0 <= i < name.len() ==> !CharClass::EntityEnd.contains(#[trigger] name[i]),
        decoded_entity(name) is Some,
    ensures
        decoded_text(seq!['&'] + name + seq![';']) == seq![decoded_entity(name).unwrap()],
{
    let s = seq!['&'] + name + seq![';'];
    let rest = s.drop_first();
    assert(s[0] == '&');
    assert(rest =~= name + seq![';']);
    assert forall|j: int| 0 <= j < name.len() implies !CharClass::EntityEnd.contains(
        #[trigger] rest[j],
    ) by {
        assert(rest[j] == name[j]);
    }
    assert(rest[name.len() as int] == ';');
    lemma_first_in_is(rest, CharClass::EntityEnd, name.len() as int);
    assert(reference_len(rest) == name.len() + 1);
    assert(decoded_text(Seq::<char>::empty()) == Seq::<char>::empty());
    assert(rest.take(name.len() as int) =~= name);
    assert(rest.skip(name.len() as int + 1) =~= Seq::<char>::empty());
    assert(seq![decoded_entity(name).unwrap()] + Seq::<char>::empty() =~= seq![
        decoded_entity(name).unwrap(),
    ]);
}

/// The digits before index `k` write no more than all the digits do.
proof fn lemma_digits_value_prefix(s: Seq<char>, radix: int, k: int)
    requires
        1 <= radix,
        is_digits(s, radix),
        0 <= k <= s.len(),
    ensures
        0 <= digits_value(s.take(k), radix) <= digits_value(s, radix),
    decreases s.len() - k,
{
    lemma_digits_value_bounds(s.take(k), radix);
    if k < s.len() {
        lemma_digits_value_prefix(s, radix, k + 1);
        let t = s.take(k + 1);
        assert(t.drop_last() =~= s.take(k));
        let v = digits_value(s.take(k), radix);
        assert(v * radix >= v) by (nonlinear_arith)
            requires
                v >= 0,
                radix >= 1,
        ;
    } else {
        assert(s.take(k) =~= s);
    }
}

/// Digits write a number that is not negative.
proof fn lemma_digits_value_bounds(s: Seq<char>, radix: int)
    requires
        1 <= radix,
        is_digits(s, radix),
    ensures
        0 <= digits_value(s, radix),
    decreases s.len(),
{
    if s.len() > 0 {
        lemma_digits_value_bounds(s.drop_last(), radix);
        let v = digits_value(s.drop_last(), radix);
        assert(v * radix >= 0) by (nonlinear_arith)
            requires
                v >= 0,
                radix >= 1,
        ;
    }
}

/// The value of `c` as a digit to the base `radix`.
pub fn digit_of(c: char, radix: u32) -> (r: Option<u32>)
    requires
        2 <= radix <= 36,
    ensures
        match r {
            Some(d) => digit_value(c, radix as int) == Some(d as int),
            None => digit_value(c, radix as int) is None,
        },
{
    let n: u32 = c as u32;
    let v: u32 = if 48 <= n && n <= 57 {
        n - 48
    } else if 97 <= n && n <= 122 {
        n - 97 + 10
    } else if 65 <= n && n <= 90 {
        n - 65 + 10
    } else {
        radix
    };
    if v < radix {
        Some(v)
    } else {
        None
    }
}

/// Reads `s` as a number to the base `radix`.
pub fn parse_number(s: &[char], radix: u32) -> (r: Option<u32>)
    requires
        2 <= radix <= 36,
    ensures
        r == parsed_number(s@, radix as int),
{
    let start: usize = if s.len() > 0 && s[0] == '+' {
        1
    } else {
        0
    };
    let digits = slice_subrange(s, start, s.len());
    let ghost signless = if s@.len() > 0 && s@[0] == '+' {
        s@.drop_first()
    } else {
        s@
    };
    assert(digits@ =~= signless);
    if digits.len() == 0 {
        return None;
    }
    let mut value: u64 = 0;
    let mut i: usize = 0;
    assert(digits@.take(0) =~= Seq::<char>::empty());
    while i < digits.len()
        invariant
            2 <= radix <= 36,
            digits@.len() > 0,
            digits@ == if s@.len() > 0 && s@[0] == '+' {
                s@.drop_first()
            } else {
                s@
            },
            i <= digits@.len(),
            is_digits(digits@.take(i as int), radix as int),
            value == digits_value(digits@.take(i as int), radix as int),
            value <= u32::MAX,
        decreases digits@.len() - i,
    {
        proof {
            assert(digits@.take(i + 1).drop_last() =~= digits@.take(i as int));
            assert(digits@.take(i + 1).last() == digits@[i as int]);
        }
        match digit_of(digits[i], radix) {
            None => {
                return None;
            },
            Some(d) => {
                assert(value * radix <= 0xffff_ffff * 36) by (nonlinear_arith)
                    requires
                        value <= 0xffff_ffff,
                        radix <= 36,
                ;
                let next: u64 = value * (radix as u64) + d as u64;
                assert(is_digits(digits@.take(i + 1), radix as int)) by {
                    assert forall|j: int| 0 <= j < i + 1 implies digit_value(
                        #[trigger] digits@.take(i + 1)[j],
                        radix as int,
                    ) is Some by {
                        if j < i {
                            assert(digits@.take(i + 1)[j] == digits@.take(i as int)[j]);
                        }
                    }
                }
                if next > 0xffff_ffff {
                    proof {
                        if is_digits(digits@, radix as int) {
                            lemma_digits_value_prefix(digits@, radix as int, i + 1);
                        }
                    }
                    return None;
                }
                value = next;
            },
        }
        i += 1;
    }
    proof {
        assert(digits@.take(i as int) =~= digits@);
    }
    Some(value as u32)
}

/// `char::from_u32` gives the character whose code point is `i`, where `i`
/// is a scalar value, and none where it is not.
pub assume_specification[ char::from_u32 ](i: u32) -> (r: Option<char>)
    ensures
        r == if is_scalar_value(i) {
            Some(i as char)
        } else {
            None::<char>
        },
;

/// The character that the reference `ent_name` stands for.
pub fn parse_html_entity(ent_name: &[char]) -> (r: Option<char>)
    ensures
        r == decoded_entity(ent_name@),
{
    let named = decode_named_entity(ent_name);
    if named.is_some() {
        return named;
    }
    if ent_name.len() < 2 || ent_name[0] != '#' {
        return None;
    }
    let number = if ent_name[1] == 'x' || ent_name[1] == 'X' {
        parse_number(slice_subrange(ent_name, 2, ent_name.len()), 16)
    } else {
        parse_number(slice_subrange(ent_name, 1, ent_name.len()), 10)
    };
    match number {
        Some(n) => {
            if n == 9 || n == 10 || n == 13 || n == 32 {
                None
            } else {
                char::from_u32(n)
            }
        },
        None => None,
    }
}

/// Decodes the character references in `s`.
pub fn html_entitities_to_text(s: &[char]) -> (out: Vec<char>)
    ensures
        out@ == decoded_text(s@),
{
    let mut out: Vec<char> = Vec::new();
    let mut i: usize = 0;
    proof {
        assert(s@.skip(0) =~= s@);
        assert(out@ + decoded_text(s@) =~= decoded_text(s@));
    }
    while i < s.len()
        invariant
            i <= s@.len(),
            out@ + decoded_text(s@.skip(i as int)) == decoded_text(s@),
        decreases s@.len() - i,
    {
        let ghost here = s@.skip(i as int);
        let ghost before = out@;
        proof {
            assert(here[0] == s@[i as int]);
            assert(here.drop_first() =~= s@.skip(i + 1));
        }
        if s[i] != '&' {
            out.push(s[i]);
            i += 1;
            proof {
                assert(out@ + decoded_text(s@.skip(i as int)) =~= before + (seq![here[0]]
                    + decoded_text(here.drop_first())));
            }
        } else {
            let rest = slice_subrange(s, i + 1, s.len());
            let n = find_first(rest, CharClass::EntityEnd);
            match parse_html_entity(slice_subrange(rest, 0, n)) {
                Some(c) => {
                    out.push(c);
                    let used: usize = if n < rest.len() && rest[n] == ';' {
                        n + 1
                    } else {
                        n
                    };
                    i = i + 1 + used;
                    proof {
                        assert(rest@.skip(used as int) =~= s@.skip(i as int));
                        assert(out@ + decoded_text(s@.skip(i as int)) =~= before + (seq![c]
                            + decoded_text(rest@.skip(used as int))));
                    }
                },
                None => {
                    out.push('&');
                    i += 1;
                    proof {
                        assert(out@ + decoded_text(s@.skip(i as int)) =~= before + (seq!['&']
                            + decoded_text(rest@)));
                    }
                },
            }
        }
    }
    proof {
        assert(s@.skip(i as int) =~= Seq::<char>::empty());
        assert(out@ + Seq::<char>::empty() =~= out@);
    }
    out
}

} // verus!
