//! What a reconciliation pass achieves: the state it leaves behind, when a
//! second pass has nothing left to do, and how a changed count of one window
//! shows in the result.

use crate::filters::{
    lemma_filter_empty, lemma_filter_members, lemma_filter_narrower, lemma_filter_same,
};
use crate::identifier::IdView;
use crate::reconciler::{
    additions, additions_for, first_free, lemma_additions_are_fresh, lemma_top_index, occupied,
    removals, slot_range, top_index, unwanted, wanted,
};
use vstd::prelude::*;

verus! {

/// No window is named twice: the desired state is a mapping.
pub open spec fn distinct_windows(desired: Seq<(Seq<char>, nat)>) -> bool {
    forall|a: int, b: int|
        0 <= a < b < desired.len() ==> (#[trigger] desired[a]).0 != (#[trigger] desired[b]).0
}

/// The test that picks the activities which stay.
pub open spec fn kept(desired: Seq<(Seq<char>, nat)>) -> spec_fn(IdView) -> bool {
    |id: IdView| wanted(id, desired)
}

/// The test that picks the activities of one window.
pub open spec fn in_window(window: Seq<char>) -> spec_fn(IdView) -> bool {
    |id: IdView| id.window == window
}

/// The test that picks the activities of one window at or above a slot.
pub open spec fn at_or_above(window: Seq<char>, slot: nat) -> spec_fn(IdView) -> bool {
    |id: IdView| id.window == window && id.index >= slot
}

/// The live set after a pass: what was not removed, then what was added.
pub open spec fn reconciled(current: Seq<IdView>, desired: Seq<(Seq<char>, nat)>) -> Seq<
    IdView,
> {
    current.filter(kept(desired)) + additions(current, desired)
}

/// Nothing is left to do: every live activity fits, and in every window
/// growth has reached the desired count.
pub open spec fn settled(current: Seq<IdView>, desired: Seq<(Seq<char>, nat)>) -> bool {
    &&& forall|i: int| 0 <= i < current.len() ==> wanted(#[trigger] current[i], desired)
    &&& forall|k: int|
        0 <= k < desired.len() ==> first_free(current, (#[trigger] desired[k]).0) >= desired[k].1
}

/// A pass leaves a hole at the top of `window`: growth adds nothing because
/// a slot at or above `count` is live, and the slot just below `count` is
/// not, so the next pass still finds slots to add.
pub open spec fn leaves_gap(current: Seq<IdView>, window: Seq<char>, count: nat) -> bool {
    &&& count > 0
    &&& first_free(current, window) >= count
    &&& !current.contains(IdView { window: window, index: (count - 1) as nat })
}

/// No desired entry leaves a hole at the top of its window.
pub open spec fn gapless(current: Seq<IdView>, desired: Seq<(Seq<char>, nat)>) -> bool {
    forall|k: int|
        0 <= k < desired.len() ==> !leaves_gap(
            current,
            (#[trigger] desired[k]).0,
            desired[k].1,
        )
}

/// The members of a range of slots.
proof fn lemma_slot_range_membership(window: Seq<char>, first: nat, count: nat, id: IdView)
    ensures
        slot_range(window, first, count).contains(id) <==> id.window == window && first
            <= id.index < count,
{
    let range = slot_range(window, first, count);
    if id.window == window && first <= id.index < count {
        assert(range[id.index - first] == id);
    }
}

/// The members of the slots to add: the slots of a desired window from its
/// first free one up to the count of one of its entries.
pub proof fn lemma_additions_membership(
    current: Seq<IdView>,
    desired: Seq<(Seq<char>, nat)>,
    id: IdView,
)
    ensures
        additions(current, desired).contains(id) <==> exists|k: int|
            0 <= k < desired.len() && (#[trigger] desired[k]).0 == id.window && first_free(
                current,
                id.window,
            ) <= id.index < desired[k].1,
    decreases desired.len(),
{
    if desired.len() > 0 {
        let front = desired.drop_last();
        let window = desired.last().0;
        let count = desired.last().1;
        let last = additions_for(current, window, count);
        lemma_additions_membership(current, front, id);
        lemma_slot_range_membership(window, first_free(current, window), count, id);
        vstd::seq_lib::lemma_seq_concat_contains_all_elements(
            additions(current, front),
            last,
            id,
        );
        if additions(current, desired).contains(id) {
            if additions(current, front).contains(id) {
                let k = choose|k: int|
                    0 <= k < front.len() && (#[trigger] front[k]).0 == id.window && first_free(
                        current,
                        id.window,
                    ) <= id.index < front[k].1;
                assert(desired[k] == front[k]);
            } else {
                assert(desired[desired.len() - 1] == desired.last());
            }
        }
        if exists|k: int|
            0 <= k < desired.len() && (#[trigger] desired[k]).0 == id.window && first_free(
                current,
                id.window,
            ) <= id.index < desired[k].1 {
            let k = choose|k: int|
                0 <= k < desired.len() && (#[trigger] desired[k]).0 == id.window && first_free(
                    current,
                    id.window,
                ) <= id.index < desired[k].1;
            if k < front.len() {
                assert(front[k] == desired[k]);
            }
        }
    }
}

/// Nothing is added exactly when growth has reached the count of every
/// entry.
proof fn lemma_additions_empty(current: Seq<IdView>, desired: Seq<(Seq<char>, nat)>)
    ensures
        additions(current, desired).len() == 0 <==> forall|k: int|
            0 <= k < desired.len() ==> first_free(current, (#[trigger] desired[k]).0)
                >= desired[k].1,
    decreases desired.len(),
{
    if desired.len() > 0 {
        let front = desired.drop_last();
        lemma_additions_empty(current, front);
        if additions(current, desired).len() == 0 {
            assert forall|k: int| 0 <= k < desired.len() implies first_free(
                current,
                (#[trigger] desired[k]).0,
            ) >= desired[k].1 by {
                if k < front.len() {
                    assert(front[k] == desired[k]);
                }
            }
        }
        if forall|k: int|
            0 <= k < desired.len() ==> first_free(current, (#[trigger] desired[k]).0)
                >= desired[k].1 {
            assert forall|k: int| 0 <= k < front.len() implies first_free(
                current,
                (#[trigger] front[k]).0,
            ) >= front[k].1 by {
                assert(front[k] == desired[k]);
            }
            assert(desired[desired.len() - 1] == desired.last());
        }
    }
}

/// Growth of a window has reached `count` exactly when `count` is 0 or an
/// activity of the window sits at slot `count - 1` or above.
proof fn lemma_first_free_reaches(current: Seq<IdView>, window: Seq<char>, count: nat)
    ensures
        first_free(current, window) >= count <==> count == 0 || exists|id: IdView|
            #[trigger] current.contains(id) && id.window == window && id.index + 1 >= count,
{
    lemma_top_index(current, window);
    if count > 0 && first_free(current, window) >= count {
        let top = IdView { window: window, index: top_index(current, window) };
        assert(current.contains(top) && top.window == window && top.index + 1 >= count);
    }
    if exists|id: IdView|
        #[trigger] current.contains(id) && id.window == window && id.index + 1 >= count {
        let id = choose|id: IdView|
            #[trigger] current.contains(id) && id.window == window && id.index + 1 >= count;
        let i = choose|i: int| 0 <= i < current.len() && current[i] == id;
        assert(current[i].window == window);
    }
}

/// A state is settled exactly when a pass over it removes nothing and adds
/// nothing.
pub proof fn lemma_settled_means_nothing_to_do(
    current: Seq<IdView>,
    desired: Seq<(Seq<char>, nat)>,
)
    ensures
        settled(current, desired) <==> removals(current, desired).len() == 0 && additions(
            current,
            desired,
        ).len() == 0,
{
    lemma_filter_empty(current, unwanted(desired));
    lemma_additions_empty(current, desired);
}

/// A second pass with the same desired state removes nothing. It adds
/// nothing exactly when the first pass left no hole at the top of a window:
/// a window whose live slots all lie at or above its count is emptied by the
/// first pass and filled from slot 0 by the second.
pub proof fn lemma_second_pass(current: Seq<IdView>, desired: Seq<(Seq<char>, nat)>)
    requires
        distinct_windows(desired),
    ensures
        removals(reconciled(current, desired), desired).len() == 0,
        additions(reconciled(current, desired), desired).len() == 0 <==> gapless(
            current,
            desired,
        ),
        settled(reconciled(current, desired), desired) <==> gapless(current, desired),
{
    let stay = current.filter(kept(desired));
    let added = additions(current, desired);
    let after = reconciled(current, desired);

    assert forall|i: int| 0 <= i < after.len() implies wanted(#[trigger] after[i], desired) by {
        if i < stay.len() {
            assert(stay.contains(stay[i]));
            lemma_filter_members(current, kept(desired), stay[i]);
        } else {
            lemma_additions_are_fresh(current, desired, i - stay.len());
        }
    }
    lemma_filter_empty(after, unwanted(desired));

    assert forall|k: int| 0 <= k < desired.len() implies (first_free(
        after,
        (#[trigger] desired[k]).0,
    ) >= desired[k].1 <==> !leaves_gap(current, desired[k].0, desired[k].1)) by {
        let window = desired[k].0;
        let count = desired[k].1;
        let below = IdView { window: window, index: (count - 1) as nat };
        lemma_first_free_reaches(after, window, count);
        if count > 0 {
            lemma_additions_membership(current, desired, below);
            lemma_filter_members(current, kept(desired), below);
            vstd::seq_lib::lemma_seq_concat_contains_all_elements(stay, added, below);
            if !leaves_gap(current, window, count) {
                assert(after.contains(below) && below.window == window && below.index + 1
                    >= count);
            }
            if first_free(after, window) >= count {
                let id = choose|id: IdView|
                    #[trigger] after.contains(id) && id.window == window && id.index + 1
                        >= count;
                vstd::seq_lib::lemma_seq_concat_contains_all_elements(stay, added, id);
                lemma_additions_membership(current, desired, id);
                lemma_filter_members(current, kept(desired), id);
                if added.contains(id) {
                    let j = choose|j: int|
                        0 <= j < desired.len() && (#[trigger] desired[j]).0 == id.window
                            && first_free(current, id.window) <= id.index < desired[j].1;
                    assert(j == k);
                } else {
                    let j = choose|j: int|
                        0 <= j < desired.len() && (#[trigger] desired[j]).0 == id.window
                            && desired[j].1 > id.index;
                    assert(j == k);
                    assert(id == below);
                }
            }
        }
    }
    lemma_additions_empty(after, desired);
    lemma_settled_means_nothing_to_do(after, desired);
}

/// The slots to add for two desired states in a row are those of the first
/// followed by those of the second.
proof fn lemma_additions_concat(
    current: Seq<IdView>,
    first: Seq<(Seq<char>, nat)>,
    second: Seq<(Seq<char>, nat)>,
)
    ensures
        additions(current, first + second) == additions(current, first) + additions(
            current,
            second,
        ),
    decreases second.len(),
{
    if second.len() == 0 {
        assert(first + second =~= first);
        assert(additions(current, first) + additions(current, second) =~= additions(
            current,
            first,
        ));
    } else {
        assert((first + second).drop_last() =~= first + second.drop_last());
        assert((first + second).last() == second.last());
        lemma_additions_concat(current, first, second.drop_last());
        let last = additions_for(current, second.last().0, second.last().1);
        assert((additions(current, first) + additions(current, second.drop_last())) + last
            =~= additions(current, first) + (additions(current, second.drop_last()) + last));
    }
}

/// In a settled state of a mapping, growth of each window has reached its
/// count exactly.
proof fn lemma_settled_first_free(current: Seq<IdView>, desired: Seq<(Seq<char>, nat)>, k: int)
    requires
        distinct_windows(desired),
        settled(current, desired),
        0 <= k < desired.len(),
    ensures
        first_free(current, desired[k].0) == desired[k].1,
{
    let window = desired[k].0;
    lemma_top_index(current, window);
    if occupied(current, window) {
        let top = IdView { window: window, index: top_index(current, window) };
        let i = choose|i: int| 0 <= i < current.len() && current[i] == top;
        assert(wanted(current[i], desired));
        let j = choose|j: int|
            0 <= j < desired.len() && (#[trigger] desired[j]).0 == top.window && desired[j].1
                > top.index;
        assert(j == k);
    }
}

/// Growth: when a settled state of a mapping has the count of one window
/// raised, the pass removes nothing and adds exactly the slots from the old
/// count up to the new one, in ascending order.
pub proof fn lemma_growth(
    current: Seq<IdView>,
    desired: Seq<(Seq<char>, nat)>,
    k: int,
    count: nat,
)
    requires
        distinct_windows(desired),
        settled(current, desired),
        0 <= k < desired.len(),
        count > desired[k].1,
    ensures
        removals(current, desired.update(k, (desired[k].0, count))).len() == 0,
        additions(current, desired.update(k, (desired[k].0, count))) == slot_range(
            desired[k].0,
            desired[k].1,
            count,
        ),
{
    let window = desired[k].0;
    let grown = desired.update(k, (window, count));

    assert forall|i: int| 0 <= i < current.len() implies !unwanted(grown)(
        #[trigger] current[i],
    ) by {
        assert(wanted(current[i], desired));
        let j = choose|j: int|
            0 <= j < desired.len() && (#[trigger] desired[j]).0 == current[i].window
                && desired[j].1 > current[i].index;
        assert(grown[j].0 == current[i].window && grown[j].1 > current[i].index);
    }
    lemma_filter_empty(current, unwanted(grown));

    let before = desired.take(k);
    let one = seq![(window, count)];
    let behind = desired.skip(k + 1);
    assert(grown =~= before + one + behind);
    lemma_additions_concat(current, before + one, behind);
    lemma_additions_concat(current, before, one);
    assert forall|j: int| 0 <= j < before.len() implies first_free(
        current,
        (#[trigger] before[j]).0,
    ) >= before[j].1 by {
        assert(before[j] == desired[j]);
    }
    lemma_additions_empty(current, before);
    assert forall|j: int| 0 <= j < behind.len() implies first_free(
        current,
        (#[trigger] behind[j]).0,
    ) >= behind[j].1 by {
        assert(behind[j] == desired[k + 1 + j]);
    }
    lemma_additions_empty(current, behind);
    lemma_settled_first_free(current, desired, k);
    assert(one.drop_last() =~= Seq::<(Seq<char>, nat)>::empty());
    assert(additions(current, one.drop_last()).len() == 0);
    assert(additions(current, one) =~= additions_for(current, window, count));
    assert(additions(current, grown) =~= slot_range(window, desired[k].1, count));
}

/// Shrink: when a settled state of a mapping has the count of one window
/// lowered, the pass removes exactly the activities of that window at or
/// above the new count, and adds nothing.
pub proof fn lemma_shrink(
    current: Seq<IdView>,
    desired: Seq<(Seq<char>, nat)>,
    k: int,
    count: nat,
)
    requires
        distinct_windows(desired),
        settled(current, desired),
        0 <= k < desired.len(),
        count < desired[k].1,
    ensures
        removals(current, desired.update(k, (desired[k].0, count))) == current.filter(
            at_or_above(desired[k].0, count),
        ),
        additions(current, desired.update(k, (desired[k].0, count))).len() == 0,
{
    let window = desired[k].0;
    let shrunk = desired.update(k, (window, count));

    assert forall|i: int| 0 <= i < current.len() implies unwanted(shrunk)(#[trigger] current[i])
        == at_or_above(window, count)(current[i]) by {
        let id = current[i];
        assert(wanted(id, desired));
        let j = choose|j: int|
            0 <= j < desired.len() && (#[trigger] desired[j]).0 == id.window && desired[j].1
                > id.index;
        if id.window == window && id.index >= count {
            if wanted(id, shrunk) {
                let m = choose|m: int|
                    0 <= m < shrunk.len() && (#[trigger] shrunk[m]).0 == id.window && shrunk[m].1
                        > id.index;
                assert(desired[m].0 == window);
                assert(m == k);
            }
        } else if id.window == window {
            assert(shrunk[k].0 == id.window && shrunk[k].1 > id.index);
        } else {
            assert(shrunk[j].0 == id.window && shrunk[j].1 > id.index);
        }
    }
    lemma_filter_same(current, unwanted(shrunk), at_or_above(window, count));

    assert forall|j: int| 0 <= j < shrunk.len() implies first_free(
        current,
        (#[trigger] shrunk[j]).0,
    ) >= shrunk[j].1 by {
        assert(first_free(current, desired[j].0) >= desired[j].1);
    }
    lemma_additions_empty(current, shrunk);
}

/// Window removal: all live activities of a window that the desired state
/// does not name are removed.
pub proof fn lemma_absent_window_is_removed(
    current: Seq<IdView>,
    desired: Seq<(Seq<char>, nat)>,
    window: Seq<char>,
)
    requires
        forall|k: int| 0 <= k < desired.len() ==> (#[trigger] desired[k]).0 != window,
    ensures
        removals(current, desired).filter(in_window(window)) == current.filter(
            in_window(window),
        ),
{
    lemma_filter_narrower(current, unwanted(desired), in_window(window));
}

} // verus!
