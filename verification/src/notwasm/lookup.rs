//! Where a value first occurs in a sequence.

use vstd::prelude::*;

verus! {

/// The least index at which `x` occurs in `s`, if it occurs at all.
pub open spec fn first_index<T>(s: Seq<T>, x: T) -> Option<nat>
    decreases s.len(),
{
    if s.len() == 0 {
        None
    } else if s[0] == x {
        Some(0)
    } else {
        match first_index(s.drop_first(), x) {
            Some(i) => Some(i + 1),
            None => None,
        }
    }
}

/// `first_index` finds `x` exactly where it occurs and nothing equal to
/// `x` stands before; it finds nothing exactly where `x` does not occur.
pub proof fn lemma_first_index<T>(s: Seq<T>, x: T)
    ensures
        match first_index(s, x) {
            Some(i) => i < s.len() && s[i as int] == x && forall|j: int|
                0 <= j < i ==> s[j] != x,
            None => forall|j: int| 0 <= j < s.len() ==> s[j] != x,
        },
    decreases s.len(),
{
    if s.len() != 0 && s[0] != x {
        let t = s.drop_first();
        lemma_first_index(t, x);
        match first_index(t, x) {
            Some(i) => {
                assert forall|j: int| 0 <= j < i + 1 implies s[j] != x by {
                    if j > 0 {
                        assert(s[j] == t[j - 1]);
                    }
                }
            },
            None => {
                assert forall|j: int| 0 <= j < s.len() implies s[j] != x by {
                    if j > 0 {
                        assert(s[j] == t[j - 1]);
                    }
                }
            },
        }
    }
}

/// An index at which `x` occurs with nothing equal to `x` before it is the
/// one that `first_index` finds.
pub proof fn lemma_first_index_is<T>(s: Seq<T>, x: T, i: nat)
    requires
        i < s.len(),
        s[i as int] == x,
        forall|j: int| 0 <= j < i ==> s[j] != x,
    ensures
        first_index(s, x) == Some(i),
{
    lemma_first_index(s, x);
}

/// How `first_index` goes on when one more item is put at the end.
pub proof fn lemma_first_index_push<T>(s: Seq<T>, y: T, x: T)
    ensures
        first_index(s.push(y), x) == match first_index(s, x) {
            Some(i) => Some(i),
            None => if y == x {
                Some(s.len())
            } else {
                None
            },
        },
{
    lemma_first_index(s, x);
    lemma_first_index(s.push(y), x);
    match first_index(s, x) {
        Some(i) => {
            lemma_first_index_is(s.push(y), x, i);
        },
        None => {
            if y == x {
                lemma_first_index_is(s.push(y), x, s.len());
            } else {
                if first_index(s.push(y), x) is Some {
                    let k = first_index(s.push(y), x)->Some_0;
                    if k < s.len() {
                        assert(s[k as int] == s.push(y)[k as int]);
                    }
                }
            }
        },
    }
}

/// The number of times that `x` occurs in `s`.
pub open spec fn count<T>(s: Seq<T>, x: T) -> nat
    decreases s.len(),
{
    if s.len() == 0 {
        0
    } else {
        count(s.drop_last(), x) + if s.last() == x {
            1nat
        } else {
            0nat
        }
    }
}

/// A value is found exactly where it occurs at least once.
pub proof fn lemma_count_first_index<T>(s: Seq<T>, x: T)
    ensures
        count(s, x) == 0 <==> first_index(s, x) is None,
        count(s, x) <= s.len(),
    decreases s.len(),
{
    if s.len() != 0 {
        lemma_count_first_index(s.drop_last(), x);
        lemma_first_index_push(s.drop_last(), s.last(), x);
        assert(s.drop_last().push(s.last()) =~= s);
    }
}

} // verus!
