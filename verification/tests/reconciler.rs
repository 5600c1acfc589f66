use template_module::identifier::InstanceId;
use template_module::reconciler::activities_to_update;

fn ids(list: &[(&str, usize)]) -> Vec<InstanceId> {
    list.iter().map(|(window, index)| InstanceId::new(window, *index)).collect()
}

fn diff(current: &[(&str, usize)], wanted: &[(&str, usize)]) -> (Vec<(String, usize)>, Vec<(String, usize)>) {
    let current = ids(current);
    let wanted = wanted.to_vec();
    let (to_remove, to_add) = activities_to_update(&current, &wanted);
    (
        to_remove.iter().map(|id| (id.window_name.clone(), id.instance_index)).collect(),
        to_add.iter().map(|(window, index)| (window.to_string(), *index)).collect(),
    )
}

fn pairs(list: &[(&str, usize)]) -> Vec<(String, usize)> {
    list.iter().map(|(window, index)| (window.to_string(), *index)).collect()
}

/// What the live set is after the removals and additions of one pass.
fn apply(current: &[(&str, usize)], wanted: &[(&str, usize)]) -> Vec<(String, usize)> {
    let (to_remove, to_add) = diff(current, wanted);
    let mut after: Vec<(String, usize)> =
        pairs(current).into_iter().filter(|id| !to_remove.contains(id)).collect();
    after.extend(to_add);
    after
}

#[test]
fn shrinking_one_window_removes_its_top_slot() {
    let (to_remove, to_add) =
        diff(&[("main", 0), ("main", 1), ("side", 0)], &[("main", 1), ("side", 1)]);
    assert_eq!(to_remove, pairs(&[("main", 1)]));
    assert_eq!(to_add, pairs(&[]));
}

#[test]
fn empty_state_gets_the_unnamed_window() {
    let (to_remove, to_add) = diff(&[], &[("", 1)]);
    assert_eq!(to_remove, pairs(&[]));
    assert_eq!(to_add, pairs(&[("", 0)]));
}

#[test]
fn growth_appends_above_the_live_slots() {
    let (to_remove, to_add) = diff(&[("main", 0)], &[("main", 3)]);
    assert_eq!(to_remove, pairs(&[]));
    assert_eq!(to_add, pairs(&[("main", 1), ("main", 2)]));
}

#[test]
fn removed_activities_are_the_borrowed_current_ones() {
    let current = ids(&[("main", 0), ("main", 4), ("gone", 2)]);
    let wanted = vec![("main", 2)];
    let (to_remove, to_add) = activities_to_update(&current, &wanted);
    assert_eq!(to_remove.len(), 2);
    assert!(std::ptr::eq(to_remove[0], &current[1]));
    assert!(std::ptr::eq(to_remove[1], &current[2]));
    assert!(to_add.is_empty());
}

#[test]
fn count_of_zero_removes_all_and_adds_none() {
    let (to_remove, to_add) = diff(&[("main", 0), ("main", 1)], &[("main", 0)]);
    assert_eq!(to_remove, pairs(&[("main", 0), ("main", 1)]));
    assert_eq!(to_add, pairs(&[]));
}

#[test]
fn window_missing_from_desired_is_removed_whole() {
    let (to_remove, to_add) =
        diff(&[("old", 0), ("main", 0), ("old", 1), ("old", 7)], &[("main", 1)]);
    assert_eq!(to_remove, pairs(&[("old", 0), ("old", 1), ("old", 7)]));
    assert_eq!(to_add, pairs(&[]));
}

#[test]
fn added_slots_follow_the_order_of_desired_and_ascend() {
    let (to_remove, to_add) = diff(&[("b", 1)], &[("c", 2), ("a", 1), ("b", 4)]);
    assert_eq!(to_remove, pairs(&[]));
    assert_eq!(to_add, pairs(&[("c", 0), ("c", 1), ("a", 0), ("b", 2), ("b", 3)]));
}

#[test]
fn slots_below_the_highest_live_one_are_not_filled_again() {
    let (to_remove, to_add) = diff(&[("main", 3)], &[("main", 6)]);
    assert_eq!(to_remove, pairs(&[]));
    assert_eq!(to_add, pairs(&[("main", 4), ("main", 5)]));
}

#[test]
fn shrink_below_a_high_slot_adds_nothing_in_the_same_pass() {
    let (to_remove, to_add) = diff(&[("main", 5)], &[("main", 3)]);
    assert_eq!(to_remove, pairs(&[("main", 5)]));
    assert_eq!(to_add, pairs(&[]));
}

#[test]
fn removed_are_current_and_added_are_new() {
    let current = [("a", 0), ("a", 2), ("b", 5), ("c", 1)];
    let wanted = [("a", 4), ("b", 2), ("d", 2)];
    let (to_remove, to_add) = diff(&current, &wanted);
    for id in &to_remove {
        assert!(pairs(&current).contains(id));
    }
    for id in &to_add {
        assert!(!pairs(&current).contains(id));
    }
    assert_eq!(to_remove, pairs(&[("b", 5), ("c", 1)]));
    assert_eq!(to_add, pairs(&[("a", 3), ("d", 0), ("d", 1)]));
}

#[test]
fn second_pass_has_nothing_to_do() {
    let wanted = [("main", 3), ("side", 1)];
    let after = apply(&[("main", 0), ("side", 0), ("side", 1), ("old", 0)], &wanted);
    assert_eq!(after, pairs(&[("main", 0), ("side", 0), ("main", 1), ("main", 2)]));
    let after: Vec<(&str, usize)> = after.iter().map(|(w, i)| (w.as_str(), *i)).collect();
    let (to_remove, to_add) = diff(&after, &wanted);
    assert_eq!(to_remove, pairs(&[]));
    assert_eq!(to_add, pairs(&[]));
}

#[test]
fn second_pass_fills_a_window_that_the_first_emptied() {
    let wanted = [("main", 3)];
    let after = apply(&[("main", 5)], &wanted);
    assert_eq!(after, pairs(&[]));
    let (to_remove, to_add) = diff(&[], &wanted);
    assert_eq!(to_remove, pairs(&[]));
    assert_eq!(to_add, pairs(&[("main", 0), ("main", 1), ("main", 2)]));
}

#[test]
fn second_pass_is_quiet_when_the_slot_below_the_count_is_live() {
    let wanted = [("main", 3)];
    let after = apply(&[("main", 2), ("main", 5)], &wanted);
    assert_eq!(after, pairs(&[("main", 2)]));
    let (to_remove, to_add) = diff(&[("main", 2)], &wanted);
    assert_eq!(to_remove, pairs(&[]));
    assert_eq!(to_add, pairs(&[]));
}

#[test]
fn raised_count_adds_exactly_the_new_slots() {
    let settled = [("main", 0), ("main", 1), ("side", 0)];
    let (to_remove, to_add) = diff(&settled, &[("main", 5), ("side", 1)]);
    assert_eq!(to_remove, pairs(&[]));
    assert_eq!(to_add, pairs(&[("main", 2), ("main", 3), ("main", 4)]));
}

#[test]
fn raised_count_from_zero_starts_at_slot_zero() {
    let (to_remove, to_add) = diff(&[("side", 0)], &[("main", 2), ("side", 1)]);
    assert_eq!(to_remove, pairs(&[]));
    assert_eq!(to_add, pairs(&[("main", 0), ("main", 1)]));
}

#[test]
fn lowered_count_removes_exactly_the_slots_at_or_above_it() {
    let settled = [("main", 0), ("main", 1), ("main", 2), ("main", 3), ("side", 0)];
    let (to_remove, to_add) = diff(&settled, &[("main", 2), ("side", 1)]);
    assert_eq!(to_remove, pairs(&[("main", 2), ("main", 3)]));
    assert_eq!(to_add, pairs(&[]));
}

#[test]
fn nothing_current_and_nothing_desired_is_nothing_to_do() {
    let (to_remove, to_add) = diff(&[], &[]);
    assert_eq!(to_remove, pairs(&[]));
    assert_eq!(to_add, pairs(&[]));
}

#[test]
fn window_names_are_compared_whole() {
    let (to_remove, to_add) = diff(&[("main", 0), ("main2", 0)], &[("main", 1)]);
    assert_eq!(to_remove, pairs(&[("main2", 0)]));
    assert_eq!(to_add, pairs(&[]));
}

#[test]
fn highest_slot_number_of_the_machine_is_handled() {
    let (to_remove, to_add) = diff(&[("main", usize::MAX)], &[("main", usize::MAX)]);
    assert_eq!(to_remove, pairs(&[("main", usize::MAX)]));
    assert_eq!(to_add, pairs(&[]));
}
