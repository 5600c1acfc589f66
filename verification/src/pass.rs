//! The steps of a pass over the registry: taking out what the reconciler
//! removes, registering what it adds, and why none of the steps is refused.

use crate::convergence::{distinct_windows, kept, lemma_additions_membership, reconciled};
use crate::filters::{
    both, lemma_filter_all, lemma_filter_both, lemma_filter_members, lemma_filter_no_duplicates,
    lemma_filter_same,
};
use crate::identifier::{IdView, InstanceId};
use crate::reconciler::{
    additions, additions_for, first_free, lemma_additions_are_fresh, lemma_removals_are_current,
    removals, unwanted,
};
use crate::registry::other_than;
use vstd::prelude::*;

verus! {

/// The test that picks the identifiers that are not among `gone`.
pub open spec fn not_among(gone: Seq<IdView>) -> spec_fn(IdView) -> bool {
    |id: IdView| !gone.contains(id)
}

/// The identifiers registered after each of `new` was offered in turn on
/// top of `ids`: one that is registered already is refused.
pub open spec fn registered(ids: Seq<IdView>, new: Seq<IdView>) -> Seq<IdView>
    decreases new.len(),
{
    if new.len() == 0 {
        ids
    } else {
        let before = registered(ids, new.drop_last());
        if before.contains(new.last()) {
            before
        } else {
            before.push(new.last())
        }
    }
}

/// The identifiers of a list of activities with their identifiers.
pub open spec fn pair_ids<A>(pairs: Seq<(InstanceId, A)>) -> Seq<IdView> {
    pairs.map_values(|pair: (InstanceId, A)| pair.0@)
}

/// The activities that are handed back when each of `pairs` is offered in
/// turn to a registry that holds `ids`: those whose identifier is registered
/// by then.
pub open spec fn turned_away<A>(ids: Seq<IdView>, pairs: Seq<(InstanceId, A)>) -> Seq<
    (InstanceId, A),
>
    decreases pairs.len(),
{
    if pairs.len() == 0 {
        Seq::empty()
    } else {
        let earlier = turned_away(ids, pairs.drop_last());
        if registered(ids, pair_ids(pairs.drop_last())).contains(pairs.last().0@) {
            earlier.push(pairs.last())
        } else {
            earlier
        }
    }
}

/// The next removal: with the first `i` of the activities to remove taken
/// out of `current`, the next one is still there, and taking it out leaves
/// `current` without the first `i + 1`.
pub proof fn lemma_next_removal(current: Seq<IdView>, gone: Seq<IdView>, i: int)
    requires
        gone.no_duplicates(),
        0 <= i < gone.len(),
        current.contains(gone[i]),
    ensures
        current.filter(not_among(gone.take(i))).contains(gone[i]),
        current.filter(not_among(gone.take(i))).filter(other_than(gone[i])) == current.filter(
            not_among(gone.take(i + 1)),
        ),
{
    let before = not_among(gone.take(i));
    let after = not_among(gone.take(i + 1));
    let taken = gone.take(i);
    if taken.contains(gone[i]) {
        let j = choose|j: int| 0 <= j < taken.len() && taken[j] == gone[i];
        assert(gone[j] == gone[i]);
    }
    lemma_filter_members(current, before, gone[i]);
    lemma_filter_both(current, before, other_than(gone[i]));
    assert forall|k: int| 0 <= k < current.len() implies both(before, other_than(gone[i]))(
        #[trigger] current[k],
    ) == after(current[k]) by {
        let id = current[k];
        let earlier = gone.take(i);
        let upto = gone.take(i + 1);
        if upto.contains(id) {
            let j = choose|j: int| 0 <= j < upto.len() && upto[j] == id;
            if j < i {
                assert(earlier[j] == id);
            }
        }
        if earlier.contains(id) {
            let j = choose|j: int| 0 <= j < earlier.len() && earlier[j] == id;
            assert(upto[j] == id);
        }
        if id == gone[i] {
            assert(upto[i] == id);
        }
    }
    lemma_filter_same(current, both(before, other_than(gone[i])), after);
}

/// Before any removal all of `current` is there.
pub proof fn lemma_no_removal_yet(current: Seq<IdView>, gone: Seq<IdView>)
    ensures
        current.filter(not_among(gone.take(0))) == current,
{
    lemma_filter_all(current, not_among(gone.take(0)));
}

/// With every activity to remove taken out, what is left of `current` is
/// what fits the desired state.
pub proof fn lemma_all_removed(current: Seq<IdView>, desired: Seq<(Seq<char>, nat)>)
    ensures
        current.filter(not_among(removals(current, desired))) == current.filter(kept(desired)),
        current.no_duplicates() ==> removals(current, desired).no_duplicates(),
        forall|i: int|
            0 <= i < removals(current, desired).len() ==> current.contains(
                #[trigger] removals(current, desired)[i],
            ),
{
    let gone = removals(current, desired);
    assert forall|k: int| 0 <= k < current.len() implies not_among(gone)(#[trigger] current[k])
        == kept(desired)(current[k]) by {
        lemma_filter_members(current, unwanted(desired), current[k]);
    }
    lemma_filter_same(current, not_among(gone), kept(desired));
    if current.no_duplicates() {
        lemma_filter_no_duplicates(current, unwanted(desired));
    }
    assert forall|i: int| 0 <= i < gone.len() implies current.contains(#[trigger] gone[i]) by {
        lemma_removals_are_current(current, desired, i);
    }
}

/// The slots to add for a mapping are all different.
pub proof fn lemma_additions_no_duplicates(current: Seq<IdView>, desired: Seq<(Seq<char>, nat)>)
    requires
        distinct_windows(desired),
    ensures
        additions(current, desired).no_duplicates(),
    decreases desired.len(),
{
    if desired.len() > 0 {
        let front = desired.drop_last();
        let window = desired.last().0;
        let count = desired.last().1;
        assert forall|a: int, b: int| 0 <= a < b < front.len() implies (#[trigger] front[a]).0 != (
        #[trigger] front[b]).0 by {
            assert(front[a] == desired[a] && front[b] == desired[b]);
        }
        lemma_additions_no_duplicates(current, front);
        let earlier = additions(current, front);
        let last = additions_for(current, window, count);
        assert(last.no_duplicates());
        assert forall|i: int, j: int|
            0 <= i < earlier.len() && 0 <= j < last.len() implies earlier[i] != last[j] by {
            assert(earlier.contains(earlier[i]));
            lemma_additions_membership(current, front, earlier[i]);
            let k = choose|k: int|
                0 <= k < front.len() && (#[trigger] front[k]).0 == earlier[i].window && first_free(
                    current,
                    earlier[i].window,
                ) <= earlier[i].index < front[k].1;
            assert(front[k] == desired[k]);
            assert(desired[desired.len() - 1].0 == window);
        }
        vstd::seq_lib::lemma_no_dup_in_concat(earlier, last);
    }
}

/// Activities whose identifiers are all different and not registered yet
/// are all registered, in their order, and none is handed back.
pub proof fn lemma_registered_all<A>(ids: Seq<IdView>, pairs: Seq<(InstanceId, A)>)
    requires
        pair_ids(pairs).no_duplicates(),
        forall|i: int| 0 <= i < pairs.len() ==> !ids.contains(#[trigger] pair_ids(pairs)[i]),
    ensures
        registered(ids, pair_ids(pairs)) == ids + pair_ids(pairs),
        turned_away(ids, pairs) == Seq::<(InstanceId, A)>::empty(),
    decreases pairs.len(),
{
    let new = pair_ids(pairs);
    if pairs.len() == 0 {
        assert(ids + new =~= ids);
    } else {
        let front = pairs.drop_last();
        assert(pair_ids(front) =~= new.drop_last());
        assert forall|i: int| 0 <= i < front.len() implies !ids.contains(
            #[trigger] pair_ids(front)[i],
        ) by {
            assert(pair_ids(front)[i] == new[i]);
        }
        lemma_registered_all(ids, front);
        assert(new.drop_last().push(new.last()) =~= new);
        lemma_not_in_concat(ids, new.drop_last(), new.last());
        assert((ids + new.drop_last()).push(new.last()) =~= ids + new);
    }
}

/// An identifier that is neither registered nor among the first of the new
/// ones is not among both together.
proof fn lemma_not_in_concat(ids: Seq<IdView>, front: Seq<IdView>, id: IdView)
    requires
        !ids.contains(id),
        front.push(id).no_duplicates(),
    ensures
        !(ids + front).contains(id),
{
    if (ids + front).contains(id) {
        let i = choose|i: int| 0 <= i < (ids + front).len() && (ids + front)[i] == id;
        if i < ids.len() {
            assert(ids[i] == id);
        } else {
            let j = i - ids.len();
            assert(front.push(id)[j] == front.push(id)[front.len() as int]);
        }
    }
}

/// A pass is clean: where no identifier is registered twice and the
/// desired state is a mapping, every activity created for a slot to add is
/// registered and none is handed back; the registry then holds the
/// activities that stay followed by those that were added, none twice.
pub proof fn lemma_pass_is_clean<A>(
    current: Seq<IdView>,
    desired: Seq<(Seq<char>, nat)>,
    created: Seq<(InstanceId, A)>,
)
    requires
        current.no_duplicates(),
        distinct_windows(desired),
        pair_ids(created) == additions(current, desired),
    ensures
        registered(current.filter(kept(desired)), pair_ids(created)) == reconciled(
            current,
            desired,
        ),
        turned_away(current.filter(kept(desired)), created) == Seq::<(InstanceId, A)>::empty(),
        reconciled(current, desired).no_duplicates(),
{
    let stay = current.filter(kept(desired));
    let new = additions(current, desired);
    lemma_additions_no_duplicates(current, desired);
    lemma_filter_no_duplicates(current, kept(desired));
    assert forall|i: int| 0 <= i < created.len() implies !stay.contains(
        #[trigger] pair_ids(created)[i],
    ) by {
        lemma_additions_are_fresh(current, desired, i);
        lemma_filter_members(current, kept(desired), new[i]);
    }
    lemma_registered_all(stay, created);
    assert forall|i: int, j: int| 0 <= i < stay.len() && 0 <= j < new.len() implies stay[i]
        != new[j] by {
        assert(stay.contains(stay[i]));
        assert(new[j] == pair_ids(created)[j]);
    }
    vstd::seq_lib::lemma_no_dup_in_concat(stay, new);
}

} // verus!
