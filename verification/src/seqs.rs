use vstd::prelude::*;

verus! {

/// Index of the first element of `s` that satisfies `f`, or -1.
pub open spec fn first_match<T>(s: Seq<T>, f: spec_fn(T) -> bool) -> int
    decreases s.len(),
{
    if s.len() == 0 {
        -1
    } else if f(s[0]) {
        0
    } else {
        let r = first_match(s.drop_first(), f);
        if r < 0 {
            -1
        } else {
            r + 1
        }
    }
}

/// `first_match` is the position `i` when nothing before `i` matches and `i` does (or is the end).
pub proof fn lemma_first_match<T>(s: Seq<T>, f: spec_fn(T) -> bool, i: int)
    requires
        0 <= i <= s.len(),
        forall|k: int| 0 <= k < i ==> !f(#[trigger] s[k]),
        i < s.len() ==> f(s[i]),
    ensures
        first_match(s, f) == if i < s.len() {
            i
        } else {
            -1
        },
    decreases s.len(),
{
    if s.len() > 0 && i > 0 {
        assert forall|k: int| 0 <= k < i - 1 implies !f(#[trigger] s.drop_first()[k]) by {
            assert(s.drop_first()[k] == s[k + 1]);
        }
        lemma_first_match(s.drop_first(), f, i - 1);
    }
}

/// What `first_match` gives: -1 when nothing matches, otherwise the first match.
pub proof fn lemma_first_match_facts<T>(s: Seq<T>, f: spec_fn(T) -> bool)
    ensures
        -1 <= first_match(s, f) < s.len(),
        first_match(s, f) >= 0 ==> f(s[first_match(s, f)]),
        first_match(s, f) >= 0 ==> forall|k: int| 0 <= k < first_match(s, f) ==> !f(#[trigger] s[k]),
        first_match(s, f) < 0 ==> forall|k: int| 0 <= k < s.len() ==> !f(#[trigger] s[k]),
    decreases s.len(),
{
    if s.len() > 0 {
        lemma_first_match_facts(s.drop_first(), f);
        if !f(s[0]) {
            assert forall|k: int| 1 <= k < s.len() && (first_match(s, f) < 0 || k < first_match(s, f)) implies !f(#[trigger] s[k]) by {
                assert(s[k] == s.drop_first()[k - 1]);
            }
        }
    }
}


/// `first_match` depends only on which positions satisfy the predicate.
pub proof fn lemma_first_match_same<T>(a: Seq<T>, b: Seq<T>, f: spec_fn(T) -> bool)
    requires
        a.len() == b.len(),
        forall|k: int| 0 <= k < a.len() ==> f(#[trigger] a[k]) == f(b[k]),
    ensures
        first_match(a, f) == first_match(b, f),
    decreases a.len(),
{
    if a.len() > 0 {
        assert forall|k: int| 0 <= k < a.drop_first().len() implies f(
            #[trigger] a.drop_first()[k],
        ) == f(b.drop_first()[k]) by {
            assert(a.drop_first()[k] == a[k + 1]);
            assert(b.drop_first()[k] == b[k + 1]);
        }
        lemma_first_match_same(a.drop_first(), b.drop_first(), f);
    }
}


/// The elements of `s` that satisfy `f`, in order.
pub open spec fn keep<T>(s: Seq<T>, f: spec_fn(T) -> bool) -> Seq<T>
    decreases s.len(),
{
    if s.len() == 0 {
        s
    } else if f(s.last()) {
        keep(s.drop_last(), f).push(s.last())
    } else {
        keep(s.drop_last(), f)
    }
}

/// One more element of the input extends `keep` by that element when it is kept.
pub proof fn lemma_keep_step<T>(s: Seq<T>, f: spec_fn(T) -> bool, i: int)
    requires
        0 <= i < s.len(),
    ensures
        keep(s.take(i + 1), f) == if f(s[i]) {
            keep(s.take(i), f).push(s[i])
        } else {
            keep(s.take(i), f)
        },
{
    assert(s.take(i + 1).drop_last() =~= s.take(i));
    assert(s.take(i + 1).last() == s[i]);
}

/// Keeping from a sequence where nothing passes gives nothing.
pub proof fn lemma_keep_none<T>(s: Seq<T>, f: spec_fn(T) -> bool)
    requires
        forall|j: int| 0 <= j < s.len() ==> !f(#[trigger] s[j]),
    ensures
        keep(s, f) == Seq::<T>::empty(),
    decreases s.len(),
{
    if s.len() > 0 {
        assert forall|j: int| 0 <= j < s.drop_last().len() implies !f(#[trigger] s.drop_last()[j]) by {
            assert(s.drop_last()[j] == s[j]);
        }
        lemma_keep_none(s.drop_last(), f);
        assert(!f(s[s.len() - 1]));
    }
}

/// Keeping from a sequence where exactly the element at `i` passes gives that element.
pub proof fn lemma_keep_single<T>(s: Seq<T>, f: spec_fn(T) -> bool, i: int)
    requires
        0 <= i < s.len(),
        f(s[i]),
        forall|j: int| 0 <= j < s.len() && j != i ==> !f(#[trigger] s[j]),
    ensures
        keep(s, f) == seq![s[i]],
    decreases s.len(),
{
    let t = s.drop_last();
    if i == s.len() - 1 {
        assert forall|j: int| 0 <= j < t.len() implies !f(#[trigger] t[j]) by {
            assert(t[j] == s[j]);
        }
        lemma_keep_none(t, f);
        assert(Seq::<T>::empty().push(s.last()) =~= seq![s[i]]);
    } else {
        assert forall|j: int| 0 <= j < t.len() && j != i implies !f(#[trigger] t[j]) by {
            assert(t[j] == s[j]);
        }
        assert(t[i] == s[i]);
        lemma_keep_single(t, f, i);
        assert(!f(s[s.len() - 1]));
    }
}

} // verus!
