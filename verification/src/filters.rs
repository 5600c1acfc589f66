//! Facts about the members that a test picks from a sequence.

use vstd::prelude::*;

verus! {

/// The test that picks what passes both tests.
pub open spec fn both<T>(first: spec_fn(T) -> bool, second: spec_fn(T) -> bool) -> spec_fn(
    T,
) -> bool {
    |x: T| first(x) && second(x)
}

/// A filter keeps exactly the members that pass its test.
pub proof fn lemma_filter_members<T>(s: Seq<T>, pred: spec_fn(T) -> bool, x: T)
    ensures
        s.filter(pred).contains(x) <==> s.contains(x) && pred(x),
{
    broadcast use vstd::seq_lib::group_filter_ensures;

    let picked = s.filter(pred);
    if picked.contains(x) {
        s.lemma_filter_contains_rev(pred, x);
        let i = choose|i: int| 0 <= i < picked.len() && picked[i] == x;
        assert(pred(picked[i]));
    }
    if s.contains(x) && pred(x) {
        let i = choose|i: int| 0 <= i < s.len() && s[i] == x;
        assert(picked.contains(s[i]));
    }
}

/// A filter keeps nothing exactly when no member passes its test.
pub proof fn lemma_filter_empty<T>(s: Seq<T>, pred: spec_fn(T) -> bool)
    ensures
        s.filter(pred).len() == 0 <==> forall|i: int| 0 <= i < s.len() ==> !pred(#[trigger] s[i]),
{
    let picked = s.filter(pred);
    if picked.len() > 0 {
        assert(picked.contains(picked[0]));
        lemma_filter_members(s, pred, picked[0]);
        let i = choose|i: int| 0 <= i < s.len() && s[i] == picked[0];
        assert(pred(s[i]));
    }
    if exists|i: int| 0 <= i < s.len() && pred(#[trigger] s[i]) {
        let i = choose|i: int| 0 <= i < s.len() && pred(#[trigger] s[i]);
        assert(s.contains(s[i]));
        lemma_filter_members(s, pred, s[i]);
    }
}

/// A filter whose test every member passes keeps the whole sequence.
pub proof fn lemma_filter_all<T>(s: Seq<T>, pred: spec_fn(T) -> bool)
    requires
        forall|i: int| 0 <= i < s.len() ==> pred(#[trigger] s[i]),
    ensures
        s.filter(pred) == s,
    decreases s.len(),
{
    reveal(Seq::filter);
    if s.len() > 0 {
        let front = s.drop_last();
        assert forall|i: int| 0 <= i < front.len() implies pred(#[trigger] front[i]) by {
            assert(front[i] == s[i]);
        }
        lemma_filter_all(front, pred);
        assert(pred(s[s.len() - 1]));
        assert(front.push(s.last()) =~= s);
    }
}

/// Two tests that agree on every member keep the same members.
pub proof fn lemma_filter_same<T>(
    s: Seq<T>,
    first: spec_fn(T) -> bool,
    second: spec_fn(T) -> bool,
)
    requires
        forall|i: int| 0 <= i < s.len() ==> first(#[trigger] s[i]) == second(s[i]),
    ensures
        s.filter(first) == s.filter(second),
    decreases s.len(),
{
    reveal(Seq::filter);
    if s.len() > 0 {
        let front = s.drop_last();
        assert forall|i: int| 0 <= i < front.len() implies first(#[trigger] front[i]) == second(
            front[i],
        ) by {
            assert(front[i] == s[i]);
        }
        lemma_filter_same(front, first, second);
        assert(first(s[s.len() - 1]) == second(s[s.len() - 1]));
    }
}

/// Filtering by one test and then by another is filtering by both.
pub proof fn lemma_filter_both<T>(
    s: Seq<T>,
    first: spec_fn(T) -> bool,
    second: spec_fn(T) -> bool,
)
    ensures
        s.filter(first).filter(second) == s.filter(both(first, second)),
    decreases s.len(),
{
    reveal(Seq::filter);
    if s.len() > 0 {
        let front = s.drop_last();
        lemma_filter_both(front, first, second);
        if first(s.last()) {
            front.filter(first).lemma_filter_push(s.last(), second);
        }
    }
}

/// Filtering by a test and then by a narrower one is filtering by the
/// narrower one.
pub proof fn lemma_filter_narrower<T>(
    s: Seq<T>,
    wide: spec_fn(T) -> bool,
    narrow: spec_fn(T) -> bool,
)
    requires
        forall|i: int| 0 <= i < s.len() && narrow(#[trigger] s[i]) ==> wide(s[i]),
    ensures
        s.filter(wide).filter(narrow) == s.filter(narrow),
{
    lemma_filter_both(s, wide, narrow);
    lemma_filter_same(s, both(wide, narrow), narrow);
}

/// A filter keeps the members of a sequence without duplicates apart.
pub proof fn lemma_filter_no_duplicates<T>(s: Seq<T>, pred: spec_fn(T) -> bool)
    requires
        s.no_duplicates(),
    ensures
        s.filter(pred).no_duplicates(),
    decreases s.len(),
{
    reveal(Seq::filter);
    if s.len() > 0 {
        let front = s.drop_last();
        lemma_filter_no_duplicates(front, pred);
        if pred(s.last()) {
            let picked = front.filter(pred);
            let all = picked.push(s.last());
            if picked.contains(s.last()) {
                front.lemma_filter_contains_rev(pred, s.last());
                let i = choose|i: int| 0 <= i < front.len() && front[i] == s.last();
                assert(s[i] == s[s.len() - 1]);
            }
            assert forall|i: int, j: int|
                0 <= i < all.len() && 0 <= j < all.len() && i != j implies all[i] != all[j] by {
                if i < picked.len() && j < picked.len() {
                } else if i < picked.len() {
                    assert(picked.contains(picked[i]));
                } else {
                    assert(picked.contains(picked[j]));
                }
            }
        }
    }
}

} // verus!
