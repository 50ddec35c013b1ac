//! Helpers for stating contracts over sequences: the first element that
//! satisfies a predicate, and filtering a sequence while mapping each
//! kept element to another value.
use vstd::prelude::*;

verus! {

/// Index of the first element of `s` satisfying `p`, or -1 when none does.
pub open spec fn first_match<T>(s: Seq<T>, p: spec_fn(T) -> bool) -> int
    decreases s.len(),
{
    if s.len() == 0 {
        -1
    } else if p(s[0]) {
        0
    } else {
        let rest = first_match(s.drop_first(), p);
        if rest == -1 {
            -1
        } else {
            rest + 1
        }
    }
}

/// `first_match` finds exactly the first witness: if `i` matches and no
/// earlier index does, the result is `i`.
pub proof fn lemma_first_match_witness<T>(s: Seq<T>, p: spec_fn(T) -> bool, i: int)
    requires
        0 <= i < s.len(),
        p(s[i]),
        forall|k: int| 0 <= k < i ==> !p(s[k]),
    ensures
        first_match(s, p) == i,
    decreases s.len(),
{
    if i == 0 {
    } else {
        assert(!p(s[0]));
        let rest = s.drop_first();
        assert(rest[i - 1] == s[i]);
        assert(forall|k: int| 0 <= k < i - 1 ==> rest[k] == s[k + 1] && !p(s[k + 1]));
        lemma_first_match_witness(rest, p, i - 1);
    }
}

/// When no element satisfies `p`, `first_match` reports -1.
pub proof fn lemma_first_match_absent<T>(s: Seq<T>, p: spec_fn(T) -> bool)
    requires
        forall|k: int| 0 <= k < s.len() ==> !p(s[k]),
    ensures
        first_match(s, p) == -1,
    decreases s.len(),
{
    if s.len() > 0 {
        let rest = s.drop_first();
        assert(forall|k: int| 0 <= k < rest.len() ==> rest[k] == s[k + 1] && !p(s[k + 1]));
        lemma_first_match_absent(rest, p);
    }
}

/// What a `first_match` result means: -1 stands for "no element matches",
/// and a non-negative result is the first matching index.
pub proof fn lemma_first_match_props<T>(s: Seq<T>, p: spec_fn(T) -> bool)
    ensures
        first_match(s, p) == -1 ==> forall|k: int| 0 <= k < s.len() ==> !p(s[k]),
        first_match(s, p) != -1 ==> {
            let i = first_match(s, p);
            &&& 0 <= i < s.len()
            &&& p(s[i])
            &&& forall|k: int| 0 <= k < i ==> !p(s[k])
        },
    decreases s.len(),
{
    if s.len() > 0 && !p(s[0]) {
        let rest = s.drop_first();
        lemma_first_match_props(rest, p);
        assert(forall|k: int| 0 <= k < rest.len() ==> rest[k] == s[k + 1]);
        if first_match(rest, p) == -1 {
            assert forall|k: int| 0 <= k < s.len() implies !p(s[k]) by {
                if k > 0 {
                    assert(!p(rest[k - 1]));
                }
            }
        } else {
            let j = first_match(rest, p);
            assert(first_match(s, p) == j + 1);
            assert(p(s[j + 1])) by {
                assert(rest[j] == s[j + 1]);
            }
            assert forall|k: int| 0 <= k < j + 1 implies !p(s[k]) by {
                if k > 0 {
                    assert(!p(rest[k - 1]));
                }
            }
        }
    }
}

/// The elements of `s` that satisfy `p`, each mapped through `f`, in order.
pub open spec fn filter_map<T, U>(s: Seq<T>, p: spec_fn(T) -> bool, f: spec_fn(T) -> U) -> Seq<U>
    decreases s.len(),
{
    if s.len() == 0 {
        Seq::empty()
    } else {
        let rest = filter_map(s.drop_last(), p, f);
        if p(s.last()) {
            rest.push(f(s.last()))
        } else {
            rest
        }
    }
}

/// Unfolding step for `filter_map` over a growing prefix of `s`.
pub proof fn lemma_filter_map_take_step<T, U>(
    s: Seq<T>,
    p: spec_fn(T) -> bool,
    f: spec_fn(T) -> U,
    i: int,
)
    requires
        0 <= i < s.len(),
    ensures
        filter_map(s.take(i + 1), p, f) == if p(s[i]) {
            filter_map(s.take(i), p, f).push(f(s[i]))
        } else {
            filter_map(s.take(i), p, f)
        },
{
    let pre = s.take(i + 1);
    assert(pre.drop_last() =~= s.take(i));
    assert(pre.last() == s[i]);
}

/// A sequence is the `take` of its own length.
pub proof fn lemma_take_full<T>(s: Seq<T>)
    ensures
        s.take(s.len() as int) == s,
{
    assert(s.take(s.len() as int) =~= s);
}

/// Every matching element of `s` appears, mapped, in the result.
pub proof fn lemma_filter_map_membership<T, U>(s: Seq<T>, p: spec_fn(T) -> bool, f: spec_fn(T) -> U)
    ensures
        forall|k: int|
            0 <= k < s.len() && p(#[trigger] s[k]) ==> filter_map(s, p, f).contains(f(s[k])),
    decreases s.len(),
{
    if s.len() > 0 {
        lemma_filter_map_membership(s.drop_last(), p, f);
        let rest = filter_map(s.drop_last(), p, f);
        let whole = filter_map(s, p, f);
        assert(forall|k: int| 0 <= k < s.len() - 1 ==> s.drop_last()[k] == s[k]);
        assert forall|k: int| 0 <= k < s.len() && p(#[trigger] s[k]) implies whole.contains(
            f(s[k]),
        ) by {
            if k == s.len() - 1 {
                assert(whole.last() == f(s[k]));
                assert(whole.contains(f(s[k])));
            } else {
                assert(rest.contains(f(s.drop_last()[k])));
                let j = choose|j: int| 0 <= j < rest.len() && rest[j] == f(s.drop_last()[k]);
                assert(whole[j] == f(s[k]));
            }
        }
    }
}

/// Whatever holds of the image of every matching element holds of every
/// element of the `filter_map` result.
pub proof fn lemma_filter_map_all<T, U>(
    s: Seq<T>,
    p: spec_fn(T) -> bool,
    f: spec_fn(T) -> U,
    g: spec_fn(U) -> bool,
)
    requires
        forall|k: int| 0 <= k < s.len() && p(#[trigger] s[k]) ==> g(f(s[k])),
    ensures
        forall|j: int|
            0 <= j < filter_map(s, p, f).len() ==> g(#[trigger] filter_map(s, p, f)[j]),
    decreases s.len(),
{
    if s.len() > 0 {
        assert(forall|k: int| 0 <= k < s.len() - 1 ==> s.drop_last()[k] == s[k]);
        lemma_filter_map_all(s.drop_last(), p, f, g);
        let rest = filter_map(s.drop_last(), p, f);
        let whole = filter_map(s, p, f);
        assert forall|j: int| 0 <= j < whole.len() implies g(#[trigger] whole[j]) by {
            if j < rest.len() {
                assert(whole[j] == rest[j]);
            } else {
                assert(p(s.last()));
                assert(whole[j] == f(s.last()));
                assert(s.last() == s[s.len() - 1]);
            }
        }
    }
}

} // verus!
