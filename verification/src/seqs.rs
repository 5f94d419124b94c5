//! Selecting and expanding the elements of a sequence.

use vstd::prelude::*;

verus! {

/// The results of `f` on the elements of `s`, in order, where it gives one.
pub open spec fn pick<A, B>(s: Seq<A>, f: spec_fn(A) -> Option<B>) -> Seq<B>
    decreases s.len(),
{
    if s.len() == 0 {
        Seq::empty()
    } else {
        match f(s.last()) {
            Some(b) => pick(s.drop_last(), f).push(b),
            None => pick(s.drop_last(), f),
        }
    }
}

/// The results of `f` on the elements of `s`, one behind the other.
pub open spec fn flat<A, B>(s: Seq<A>, f: spec_fn(A) -> Seq<B>) -> Seq<B>
    decreases s.len(),
{
    if s.len() == 0 {
        Seq::empty()
    } else {
        flat(s.drop_last(), f) + f(s.last())
    }
}

/// One more element for `pick`.
pub proof fn lemma_pick_step<A, B>(s: Seq<A>, i: int, f: spec_fn(A) -> Option<B>)
    requires
        0 <= i < s.len(),
    ensures
        pick(s.take(i + 1), f) == match f(s[i]) {
            Some(b) => pick(s.take(i), f).push(b),
            None => pick(s.take(i), f),
        },
{
    assert(s.take(i + 1).drop_last() =~= s.take(i));
    assert(s.take(i + 1).last() == s[i]);
}

/// One more element for `flat`.
pub proof fn lemma_flat_step<A, B>(s: Seq<A>, i: int, f: spec_fn(A) -> Seq<B>)
    requires
        0 <= i < s.len(),
    ensures
        flat(s.take(i + 1), f) == flat(s.take(i), f) + f(s[i]),
{
    assert(s.take(i + 1).drop_last() =~= s.take(i));
    assert(s.take(i + 1).last() == s[i]);
}

/// Whatever `pick` yields comes from an element of `s`.
pub proof fn lemma_pick_source<A, B>(s: Seq<A>, f: spec_fn(A) -> Option<B>, k: int) -> (i: int)
    requires
        0 <= k < pick(s, f).len(),
    ensures
        0 <= i < s.len(),
        f(s[i]) == Some(pick(s, f)[k]),
    decreases s.len(),
{
    let front = pick(s.drop_last(), f);
    match f(s.last()) {
        Some(b) => {
            if k == front.len() {
                s.len() - 1
            } else {
                let i = lemma_pick_source(s.drop_last(), f, k);
                assert(s.drop_last()[i] == s[i]);
                i
            }
        },
        None => {
            let i = lemma_pick_source(s.drop_last(), f, k);
            assert(s.drop_last()[i] == s[i]);
            i
        },
    }
}

/// Whatever `f` gives for an element of `s` is in `pick`.
pub proof fn lemma_pick_covers<A, B>(s: Seq<A>, f: spec_fn(A) -> Option<B>, i: int) -> (k: int)
    requires
        0 <= i < s.len(),
        f(s[i]) is Some,
    ensures
        0 <= k < pick(s, f).len(),
        pick(s, f)[k] == f(s[i])->0,
    decreases s.len(),
{
    let front = pick(s.drop_last(), f);
    if i == s.len() - 1 {
        front.len() as int
    } else {
        assert(s.drop_last()[i] == s[i]);
        lemma_pick_covers(s.drop_last(), f, i)
    }
}

} // verus!
