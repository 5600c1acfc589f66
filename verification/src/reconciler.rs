//! The reconciler: which activities leave and which slots are filled so that
//! the live set follows the desired number of activities per window.

use crate::identifier::{slot_id, IdView, InstanceId};
use crate::text::str_eq;
use vstd::prelude::*;

verus! {

/// The identifiers that a list of activities stands for.
pub open spec fn id_views(ids: Seq<InstanceId>) -> Seq<IdView> {
    ids.map_values(|id: InstanceId| id@)
}

/// The identifiers that a list of borrowed activities stands for.
pub open spec fn ref_views(ids: Seq<&InstanceId>) -> Seq<IdView> {
    ids.map_values(|id: &InstanceId| id@)
}

/// The identifiers that a list of `(window, slot)` pairs stands for.
pub open spec fn slot_views(slots: Seq<(&str, usize)>) -> Seq<IdView> {
    slots.map_values(|slot: (&str, usize)| IdView { window: slot.0@, index: slot.1 as nat })
}

/// The desired state as mathematics: window names with their counts, in the
/// order in which they are given.
pub open spec fn desired_view(desired: Seq<(&str, usize)>) -> Seq<(Seq<char>, nat)> {
    desired.map_values(|entry: (&str, usize)| (entry.0@, entry.1 as nat))
}

/// Some entry for the window of `id` asks for more activities than the slot
/// number of `id`: the slot still fits.
pub open spec fn wanted(id: IdView, desired: Seq<(Seq<char>, nat)>) -> bool {
    exists|k: int|
        0 <= k < desired.len() && (#[trigger] desired[k]).0 == id.window && desired[k].1
            > id.index
}

/// The test that picks the activities which no longer fit.
pub open spec fn unwanted(desired: Seq<(Seq<char>, nat)>) -> spec_fn(IdView) -> bool {
    |id: IdView| !wanted(id, desired)
}

/// The activities to remove: those of `current` that no longer fit, in the
/// order of `current`.
pub open spec fn removals(current: Seq<IdView>, desired: Seq<(Seq<char>, nat)>) -> Seq<IdView> {
    current.filter(unwanted(desired))
}

/// Some live activity sits in `window`.
pub open spec fn occupied(current: Seq<IdView>, window: Seq<char>) -> bool {
    exists|i: int| 0 <= i < current.len() && (#[trigger] current[i]).window == window
}

/// The highest slot number in `window` among `current`, 0 where the window
/// is empty.
pub open spec fn top_index(current: Seq<IdView>, window: Seq<char>) -> nat
    decreases current.len(),
{
    if current.len() == 0 {
        0
    } else {
        let rest = top_index(current.drop_last(), window);
        if current.last().window == window && current.last().index > rest {
            current.last().index
        } else {
            rest
        }
    }
}

/// The first slot that growth of `window` fills: 0 in an empty window, else
/// one above the highest live slot. Slots below it are never filled again.
pub open spec fn first_free(current: Seq<IdView>, window: Seq<char>) -> nat {
    if occupied(current, window) {
        top_index(current, window) + 1
    } else {
        0
    }
}

/// The slots `first..count` of `window`, ascending.
pub open spec fn slot_range(window: Seq<char>, first: nat, count: nat) -> Seq<IdView> {
    Seq::new(
        if first < count {
            (count - first) as nat
        } else {
            0
        },
        |j: int| IdView { window: window, index: (first + j) as nat },
    )
}

/// The slots added for one desired entry.
pub open spec fn additions_for(current: Seq<IdView>, window: Seq<char>, count: nat) -> Seq<
    IdView,
> {
    slot_range(window, first_free(current, window), count)
}

/// The slots to add: for each desired entry in turn, the slots from the
/// first free one up to the desired count.
pub open spec fn additions(current: Seq<IdView>, desired: Seq<(Seq<char>, nat)>) -> Seq<IdView>
    decreases desired.len(),
{
    if desired.len() == 0 {
        Seq::empty()
    } else {
        additions(current, desired.drop_last()) + additions_for(
            current,
            desired.last().0,
            desired.last().1,
        )
    }
}

/// Every removed activity is one of `current`.
pub proof fn lemma_removals_are_current(
    current: Seq<IdView>,
    desired: Seq<(Seq<char>, nat)>,
    i: int,
)
    requires
        0 <= i < removals(current, desired).len(),
    ensures
        current.contains(removals(current, desired)[i]),
        !wanted(removals(current, desired)[i], desired),
{
    broadcast use vstd::seq_lib::group_filter_ensures;

    let pred = unwanted(desired);
    let kept = current.filter(pred);
    assert(pred(kept[i]));
    assert(kept.contains(kept[i]));
    current.lemma_filter_contains_rev(pred, kept[i]);
}

/// The highest slot of a window bounds every live slot in it, and is live
/// itself where the window is occupied.
pub proof fn lemma_top_index(current: Seq<IdView>, window: Seq<char>)
    ensures
        forall|i: int|
            0 <= i < current.len() && (#[trigger] current[i]).window == window ==> current[i].index
                <= top_index(current, window),
        occupied(current, window) ==> current.contains(
            slot_id(window, top_index(current, window)),
        ),
    decreases current.len(),
{
    if current.len() > 0 {
        let front = current.drop_last();
        lemma_top_index(front, window);
        assert forall|i: int| 0 <= i < current.len() && (#[trigger] current[i]).window
            == window implies current[i].index <= top_index(current, window) by {
            if i < front.len() {
                assert(front[i] == current[i]);
            }
        }
        if occupied(current, window) {
            let top = IdView { window: window, index: top_index(current, window) };
            if current.last().window == window && current.last().index >= top_index(
                front,
                window,
            ) {
                assert(current[current.len() - 1] == top);
            } else {
                let i = choose|i: int|
                    0 <= i < current.len() && (#[trigger] current[i]).window == window;
                if i == current.len() - 1 {
                    assert(current.last().index < top_index(front, window));
                    // a positive top is the slot of some activity in the front
                    lemma_positive_top_is_occupied(front, window);
                } else {
                    assert(front[i] == current[i]);
                }
                assert(occupied(front, window));
                let j = choose|j: int| 0 <= j < front.len() && front[j] == top;
                assert(current[j] == top);
            }
        }
    }
}

/// A highest slot above 0 belongs to an activity of the window.
proof fn lemma_positive_top_is_occupied(current: Seq<IdView>, window: Seq<char>)
    requires
        top_index(current, window) > 0,
    ensures
        occupied(current, window),
    decreases current.len(),
{
    if current.len() > 0 {
        let front = current.drop_last();
        if current.last().window == window {
            assert(current[current.len() - 1].window == window);
        } else {
            lemma_positive_top_is_occupied(front, window);
            let i = choose|i: int| 0 <= i < front.len() && (#[trigger] front[i]).window == window;
            assert(current[i].window == window);
        }
    }
}

/// No added slot is live already.
pub proof fn lemma_additions_are_fresh(
    current: Seq<IdView>,
    desired: Seq<(Seq<char>, nat)>,
    j: int,
)
    requires
        0 <= j < additions(current, desired).len(),
    ensures
        !current.contains(additions(current, desired)[j]),
        wanted(additions(current, desired)[j], desired),
    decreases desired.len(),
{
    if desired.len() > 0 {
        let front = additions(current, desired.drop_last());
        let window = desired.last().0;
        let count = desired.last().1;
        if j < front.len() {
            lemma_additions_are_fresh(current, desired.drop_last(), j);
            let k = choose|k: int|
                0 <= k < desired.drop_last().len() && (#[trigger] desired.drop_last()[k]).0
                    == front[j].window && desired.drop_last()[k].1 > front[j].index;
            assert(desired[k] == desired.drop_last()[k]);
        } else {
            let added = additions(current, desired)[j];
            assert(added == additions_for(current, window, count)[j - front.len()]);
            assert(added.window == window);
            assert(first_free(current, window) <= added.index < count);
            assert(desired[desired.len() - 1] == desired.last());
            lemma_top_index(current, window);
            if current.contains(added) {
                let i = choose|i: int| 0 <= i < current.len() && current[i] == added;
                assert(current[i].window == window);
            }
        }
    }
}

/// Whether the slot of `id` fits the desired state.
fn is_wanted(id: &InstanceId, desired_state: &Vec<(&str, usize)>) -> (res: bool)
    ensures
        res == wanted(id@, desired_view(desired_state@)),
{
    let ghost desired = desired_view(desired_state@);
    let mut k: usize = 0;
    while k < desired_state.len()
        invariant
            k <= desired_state.len(),
            desired == desired_view(desired_state@),
            forall|j: int|
                0 <= j < k ==> !((#[trigger] desired[j]).0 == id@.window && desired[j].1
                    > id@.index),
        decreases desired_state.len() - k,
    {
        let entry = &desired_state[k];
        if str_eq(entry.0, id.window_name.as_str()) && entry.1 > id.instance_index {
            assert(desired[k as int].0 == id@.window && desired[k as int].1 > id@.index);
            return true;
        }
        k += 1;
    }
    false
}

/// The highest live slot of a window, `None` where no activity sits in it.
fn window_extent(current_state: &Vec<InstanceId>, window_name: &str) -> (res: Option<usize>)
    ensures
        res is Some <==> occupied(id_views(current_state@), window_name@),
        res matches Some(top) ==> top == top_index(id_views(current_state@), window_name@),
{
    let ghost current = id_views(current_state@);
    let mut extent: Option<usize> = None;
    let mut i: usize = 0;
    while i < current_state.len()
        invariant
            i <= current_state.len(),
            current == id_views(current_state@),
            extent is Some <==> occupied(current.take(i as int), window_name@),
            extent matches Some(top) ==> top == top_index(current.take(i as int), window_name@),
            extent is None ==> top_index(current.take(i as int), window_name@) == 0,
        decreases current_state.len() - i,
    {
        let act = &current_state[i];
        let ghost seen = current.take(i as int);
        let ghost next = current.take(i + 1);
        proof {
            assert(next.drop_last() =~= seen);
            assert(next.last() == act@);
            if occupied(seen, window_name@) {
                let j = choose|j: int| 0 <= j < seen.len() && (#[trigger] seen[j]).window
                    == window_name@;
                assert(next[j].window == window_name@);
            }
            if act@.window == window_name@ {
                assert(next[i as int].window == window_name@);
            }
            if occupied(next, window_name@) && act@.window != window_name@ {
                let j = choose|j: int| 0 <= j < next.len() && (#[trigger] next[j]).window
                    == window_name@;
                assert(seen[j].window == window_name@);
            }
        }
        if str_eq(act.window_name.as_str(), window_name) {
            extent =
            match extent {
                Some(top) => if act.instance_index > top {
                    Some(act.instance_index)
                } else {
                    Some(top)
                },
                None => Some(act.instance_index),
            };
        }
        i += 1;
    }
    assert(current.take(i as int) =~= current);
    extent
}

/// Returns the activities to remove and the slots to add to get from the
/// current state to the desired state.
///
/// `current_state` holds the live activities, `desired_state` the number of
/// activities wanted per window. An activity is removed exactly when no entry
/// for its window asks for more activities than its slot number. For each
/// entry, in the order given, the slots from the first free one up to the
/// count are added in ascending order; the first free slot is 0 in a window
/// without activities and one above the highest live slot otherwise, so a
/// slot below the highest live one is never filled again.
pub fn activities_to_update<'a>(
    current_state: &'a Vec<InstanceId>,
    desired_state: &'a Vec<(&'a str, usize)>,
) -> (res: (Vec<&'a InstanceId>, Vec<(&'a str, usize)>))
    ensures
        ref_views(res.0@) == removals(id_views(current_state@), desired_view(desired_state@)),
        slot_views(res.1@) == additions(id_views(current_state@), desired_view(desired_state@)),
        forall|i: int|
            0 <= i < res.0.len() ==> id_views(current_state@).contains((#[trigger] res.0[i])@),
        forall|j: int|
            0 <= j < res.1.len() ==> !id_views(current_state@).contains(
                #[trigger] slot_views(res.1@)[j],
            ),
{
    let ghost current = id_views(current_state@);
    let ghost desired = desired_view(desired_state@);

    let mut to_remove: Vec<&'a InstanceId> = Vec::new();
    let mut i: usize = 0;
    while i < current_state.len()
        invariant
            i <= current_state.len(),
            current == id_views(current_state@),
            desired == desired_view(desired_state@),
            ref_views(to_remove@) == removals(current.take(i as int), desired),
        decreases current_state.len() - i,
    {
        let act = &current_state[i];
        let ghost before = to_remove@;
        proof {
            assert(current.take(i + 1) =~= current.take(i as int).push(act@));
            current.take(i as int).lemma_filter_push(act@, unwanted(desired));
        }
        if !is_wanted(act, desired_state) {
            to_remove.push(act);
            assert(ref_views(to_remove@) =~= ref_views(before).push(act@));
        }
        i += 1;
    }
    assert(current.take(i as int) =~= current);

    let mut to_add: Vec<(&'a str, usize)> = Vec::new();
    let mut k: usize = 0;
    while k < desired_state.len()
        invariant
            k <= desired_state.len(),
            current == id_views(current_state@),
            desired == desired_view(desired_state@),
            slot_views(to_add@) == additions(current, desired.take(k as int)),
        decreases desired_state.len() - k,
    {
        let window_name: &'a str = desired_state[k].0;
        let count = desired_state[k].1;
        let ghost done = slot_views(to_add@);
        let ghost first = first_free(current, window_name@);
        proof {
            assert(desired.take(k + 1).drop_last() =~= desired.take(k as int));
            assert(desired.take(k + 1).last() == (window_name@, count as nat));
        }
        let start = match window_extent(current_state, window_name) {
            None => 0,
            Some(top) => if top < count {
                top + 1
            } else {
                count
            },
        };
        assert(slot_range(window_name@, first, count as nat) =~= slot_range(
            window_name@,
            start as nat,
            count as nat,
        ));
        let mut slot = start;
        while slot < count
            invariant
                start <= slot <= count,
                slot_views(to_add@) == done + slot_range(window_name@, start as nat, slot as nat),
            decreases count - slot,
        {
            let ghost before = to_add@;
            to_add.push((window_name, slot));
            proof {
                let added = IdView { window: window_name@, index: slot as nat };
                assert(slot_views(to_add@) =~= slot_views(before).push(added));
                assert(slot_range(window_name@, start as nat, (slot + 1) as nat) =~= slot_range(
                    window_name@,
                    start as nat,
                    slot as nat,
                ).push(added));
                assert((done + slot_range(window_name@, start as nat, slot as nat)).push(added)
                    =~= done + slot_range(window_name@, start as nat, (slot + 1) as nat));
            }
            slot += 1;
        }
        k += 1;
    }
    assert(desired.take(k as int) =~= desired);

    proof {
        assert forall|i: int| 0 <= i < to_remove.len() implies current.contains(
            (#[trigger] to_remove[i])@,
        ) by {
            lemma_removals_are_current(current, desired, i);
            assert(ref_views(to_remove@)[i] == to_remove[i]@);
        }
        assert forall|j: int| 0 <= j < to_add.len() implies !current.contains(
            #[trigger] slot_views(to_add@)[j],
        ) by {
            lemma_additions_are_fresh(current, desired, j);
        }
    }
    (to_remove, to_add)
}

} // verus!
