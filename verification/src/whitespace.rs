//! Collapsing of white space: every run of white space becomes one space,
//! and the runs at the two ends of the text go.

use crate::text::is_whitespace;
use crate::text::char_is_whitespace;
use vstd::prelude::*;

verus! {

/// `s` with every run of white space replaced by one space, but for a run at
/// the start, which is dropped.
pub open spec fn squeezed(s: Seq<char>) -> Seq<char>
    decreases s.len(),
{
    if s.len() == 0 {
        s
    } else {
        let before = squeezed(s.drop_last());
        if !is_whitespace(s.last()) {
            before.push(s.last())
        } else if before.len() == 0 || before.last() == ' ' {
            before
        } else {
            before.push(' ')
        }
    }
}

/// `s` with every run of white space replaced by one space, but for the runs
/// at the start and at the end, which are dropped.
pub open spec fn collapsed(s: Seq<char>) -> Seq<char> {
    let q = squeezed(s);
    if q.len() > 0 && q.last() == ' ' {
        q.drop_last()
    } else {
        q
    }
}

/// Whether the only white space in `s` is single spaces, each of them after
/// some character and not before another white space.
pub open spec fn is_squeezed(s: Seq<char>) -> bool {
    forall|i: int|
        0 <= i < s.len() && is_whitespace(#[trigger] s[i]) ==> {
            &&& s[i] == ' '
            &&& 0 < i
            &&& i + 1 < s.len() ==> !is_whitespace(s[i + 1])
        }
}

/// Whether the only white space in `s` is single spaces that each stand
/// between two characters that are not white space.
pub open spec fn is_collapsed(s: Seq<char>) -> bool {
    is_squeezed(s) && (s.len() > 0 ==> !is_whitespace(s.last()))
}

/// What `squeezed` gives is squeezed.
pub proof fn lemma_squeezed_is_squeezed(s: Seq<char>)
    ensures
        is_squeezed(squeezed(s)),
    decreases s.len(),
{
    if s.len() > 0 {
        lemma_squeezed_is_squeezed(s.drop_last());
    }
}

/// `squeezed` leaves a squeezed text as it is.
pub proof fn lemma_squeezed_of_squeezed(s: Seq<char>)
    requires
        is_squeezed(s),
    ensures
        squeezed(s) == s,
    decreases s.len(),
{
    if s.len() > 0 {
        let before = s.drop_last();
        assert(is_squeezed(before)) by {
            assert forall|i: int| 0 <= i < before.len() && is_whitespace(#[trigger] before[i]) implies {
                &&& before[i] == ' '
                &&& 0 < i
                &&& i + 1 < before.len() ==> !is_whitespace(before[i + 1])
            } by {
                assert(before[i] == s[i]);
            }
        }
        lemma_squeezed_of_squeezed(before);
        if is_whitespace(s.last()) {
            assert(s[s.len() - 1] == ' ');
            assert(!is_whitespace(s[s.len() - 2]));
            assert(before.last() == s[s.len() - 2]);
        }
        assert(before.push(s.last()) =~= s);
    }
}

/// What `collapsed` gives is collapsed.
pub proof fn lemma_collapsed_is_collapsed(s: Seq<char>)
    ensures
        is_collapsed(collapsed(s)),
{
    let q = squeezed(s);
    lemma_squeezed_is_squeezed(s);
    if q.len() > 0 && q.last() == ' ' {
        let r = q.drop_last();
        assert(is_whitespace(q[q.len() - 1]));
        assert forall|i: int| 0 <= i < r.len() && is_whitespace(#[trigger] r[i]) implies {
            &&& r[i] == ' '
            &&& 0 < i
            &&& i + 1 < r.len() ==> !is_whitespace(r[i + 1])
        } by {
            assert(r[i] == q[i]);
        }
        if r.len() > 0 {
            assert(r.last() == q[q.len() - 2]);
        }
    } else if q.len() > 0 {
        assert(q.last() == q[q.len() - 1]);
    }
}

/// `collapsed` leaves a collapsed text as it is.
pub proof fn lemma_collapsed_of_collapsed(s: Seq<char>)
    requires
        is_collapsed(s),
    ensures
        collapsed(s) == s,
{
    lemma_squeezed_of_squeezed(s);
}

/// Collapsing is idempotent: to collapse a collapsed text changes nothing.
pub proof fn lemma_collapse_idempotent(s: Seq<char>)
    ensures
        collapsed(collapsed(s)) == collapsed(s),
{
    lemma_collapsed_is_collapsed(s);
    lemma_collapsed_of_collapsed(collapsed(s));
}

/// A text without white space is collapsed already.
pub proof fn lemma_collapsed_without_whitespace(s: Seq<char>)
    requires
        forall|i: int| 0 <= i < s.len() ==> !is_whitespace(#[trigger] s[i]),
    ensures
        collapsed(s) == s,
{
    lemma_collapsed_of_collapsed(s);
}

/// A character that is not in `s`, and is no space, is not in what
/// `squeezed` gives either.
pub proof fn lemma_squeezed_keeps_out(s: Seq<char>, c: char)
    requires
        c != ' ',
        forall|i: int| 0 <= i < s.len() ==> #[trigger] s[i] != c,
    ensures
        forall|i: int| 0 <= i < squeezed(s).len() ==> #[trigger] squeezed(s)[i] != c,
    decreases s.len(),
{
    if s.len() > 0 {
        let before = squeezed(s.drop_last());
        lemma_squeezed_keeps_out(s.drop_last(), c);
        assert(s[s.len() - 1] != c);
        assert forall|i: int| 0 <= i < squeezed(s).len() implies #[trigger] squeezed(s)[i]
            != c by {
            if i < before.len() {
                assert(squeezed(s)[i] == before[i]);
            }
        }
    }
}

/// A character that is not in `s`, and is no space, is not in what
/// `collapsed` gives either.
pub proof fn lemma_collapsed_keeps_out(s: Seq<char>, c: char)
    requires
        c != ' ',
        forall|i: int| 0 <= i < s.len() ==> #[trigger] s[i] != c,
    ensures
        forall|i: int| 0 <= i < collapsed(s).len() ==> #[trigger] collapsed(s)[i] != c,
{
    lemma_squeezed_keeps_out(s, c);
}

/// Collapses the white space of `s`.
pub fn collapse_whitespace(s: &[char]) -> (out: Vec<char>)
    ensures
        out@ == collapsed(s@),
{
    let mut out: Vec<char> = Vec::new();
    let mut i: usize = 0;
    while i < s.len()
        invariant
            i <= s@.len(),
            out@ == squeezed(s@.take(i as int)),
        decreases s@.len() - i,
    {
        let c = s[i];
        proof {
            assert(s@.take(i + 1).drop_last() =~= s@.take(i as int));
            assert(s@.take(i + 1).last() == c);
        }
        if !char_is_whitespace(c) {
            out.push(c);
        } else if out.len() > 0 && out[out.len() - 1] != ' ' {
            out.push(' ');
        }
        i += 1;
    }
    proof {
        assert(s@.take(i as int) =~= s@);
    }
    if out.len() > 0 && out[out.len() - 1] == ' ' {
        out.pop();
    }
    out
}

} // verus!
