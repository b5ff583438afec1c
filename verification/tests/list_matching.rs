use panoramix::elements::{
    apply_mutation, compute_diff, match_list_items, plan_list_update, ListMutation, ListMutationItem,
    MockComponent, MockState,
};

fn keyed(keys: &[&str]) -> Vec<(String, ())> {
    keys.iter().map(|key| (String::from(*key), ())).collect()
}

#[test]
fn apply_mutation_keeps_matched_items_and_marks_new_ones() {
    let old_list = vec![(1, 'a'), (2, 'b'), (3, 'c')];
    let new_list = vec![(1, ()), (999, ()), (3, ())];
    let mutation = compute_diff(&old_list, &new_list);
    let slots = apply_mutation(old_list, &mutation);
    assert_eq!(slots, vec![Some((1, 'a')), None, Some((3, 'c'))]);
}

#[test]
fn apply_mutation_of_hand_written_mutation() {
    let old = vec!['a', 'b', 'c', 'd'];
    let mutation = ListMutation::new(vec![
        ListMutationItem {
            index: 1,
            preserved_count_before: 1,
            removed_count: 2,
            inserted_keys: vec![10, 11, 12],
        },
        ListMutationItem {
            index: 4,
            preserved_count_before: 1,
            removed_count: 0,
            inserted_keys: vec![13],
        },
    ]);
    let slots = apply_mutation(old, &mutation);
    assert_eq!(slots, vec![Some('a'), None, None, None, Some('d'), None]);
}

#[test]
fn swapped_items_keep_their_relative_order() {
    let old_list = vec![(1, 'a'), (2, 'b'), (3, 'c')];
    let new_list = vec![(3, ()), (2, ()), (1, ())];
    let slots = match_list_items(old_list, &new_list);
    assert_eq!(slots, vec![None, None, Some((1, 'a'))]);
}

#[test]
fn existing_state_is_kept_by_key() {
    let prev_state = vec![
        (String::from("bbb"), String::from("Foobar")),
        (String::from("notfound"), String::from("IAmError")),
    ];
    let new_list = keyed(&["aaa", "bbb", "ccc"]);
    let slots = match_list_items(prev_state, &new_list);
    assert_eq!(
        slots,
        vec![None, Some((String::from("bbb"), String::from("Foobar"))), None]
    );
}

/// The state pass of a keyed list of mock components: each new key gets the
/// state of the old item it is matched with, or a default state, and each
/// component is then built from it.
fn build_mock_list_states(
    names: &[&str],
    prev_state: Vec<(String, MockState)>,
) -> Vec<(String, MockState)> {
    let children: Vec<(String, MockComponent)> = names
        .iter()
        .map(|name| (String::from(*name), MockComponent::new()))
        .collect();
    let slots = match_list_items(prev_state, &children);
    children
        .into_iter()
        .zip(slots)
        .map(|((key, component), slot)| {
            let item_prev_state = slot.map(|(_key, state)| state).unwrap_or_default();
            let (_data, state) = component.build(item_prev_state);
            (key, state)
        })
        .collect()
}

#[test]
fn mock_list_with_no_prev_state() {
    let new_list_state = build_mock_list_states(&["aaa", "bbb", "ccc", "ddd"], Vec::new());
    assert_eq!(
        new_list_state,
        vec![
            (String::from("aaa"), MockState::new("default-value")),
            (String::from("bbb"), MockState::new("default-value")),
            (String::from("ccc"), MockState::new("default-value")),
            (String::from("ddd"), MockState::new("default-value")),
        ],
    );
}

#[test]
fn new_list_with_existing_state() {
    let list_prev_state = vec![
        (String::from("bbb"), MockState::new("Foobar")),
        (String::from("notfound"), MockState::new("IAmError")),
    ];
    let new_list_state = build_mock_list_states(&["aaa", "bbb", "ccc"], list_prev_state);
    assert_eq!(
        new_list_state,
        vec![
            (String::from("aaa"), MockState::new("default-value")),
            (String::from("bbb"), MockState::new("Foobar")),
            (String::from("ccc"), MockState::new("default-value")),
        ],
    );
}

#[test]
fn removed_key_drops_its_item() {
    let prev = vec![
        (String::from("foo-1"), 1),
        (String::from("foo-2"), 2),
        (String::from("bar-3"), 3),
    ];
    let new_list = keyed(&["foo-1", "bar-3"]);
    let mutation = compute_diff(&prev, &new_list);
    assert_eq!(
        mutation,
        ListMutation {
            items: vec![
                ListMutationItem {
                    index: 1,
                    preserved_count_before: 1,
                    removed_count: 1,
                    inserted_keys: vec![],
                },
                ListMutationItem {
                    index: 3,
                    preserved_count_before: 1,
                    removed_count: 0,
                    inserted_keys: vec![],
                },
            ]
        }
    );
    let slots = match_list_items(prev, &new_list);
    assert_eq!(
        slots,
        vec![Some((String::from("foo-1"), 1)), Some((String::from("bar-3"), 3))]
    );
}

#[test]
fn unchanged_list_keeps_every_item() {
    let list = vec![(5_u64, "x"), (6, "y"), (7, "z")];
    let same: Vec<(u64, ())> = list.iter().map(|(k, _)| (*k, ())).collect();
    let mutation = compute_diff(&list, &same);
    assert_eq!(
        mutation,
        ListMutation {
            items: vec![ListMutationItem {
                index: 3,
                preserved_count_before: 3,
                removed_count: 0,
                inserted_keys: vec![],
            }]
        }
    );
    let slots = apply_mutation(list.clone(), &mutation);
    let expected: Vec<Option<(u64, &str)>> = list.into_iter().map(Some).collect();
    assert_eq!(slots, expected);
}

#[test]
fn applying_the_diff_yields_the_new_keys() {
    let old_list = vec![(4, ()), (8, ()), (15, ()), (16, ()), (23, ()), (42, ())];
    let new_list = vec![(8, ()), (4, ()), (16, ()), (99, ()), (42, ()), (15, ())];
    let mutation = compute_diff(&old_list, &new_list);
    let slots = apply_mutation(old_list.clone(), &mutation);
    assert_eq!(slots.len(), new_list.len());
    let mut inserted = mutation.items.iter().flat_map(|item| item.inserted_keys.iter());
    let keys: Vec<i32> = slots
        .iter()
        .map(|slot| match slot {
            Some((key, ())) => *key,
            None => *inserted.next().unwrap(),
        })
        .collect();
    let new_keys: Vec<i32> = new_list.iter().map(|(key, ())| *key).collect();
    assert_eq!(keys, new_keys);
}

#[test]
fn plan_reuses_widgets_by_key() {
    let old_list = keyed(&["aaa", "bbb", "ccc"]);
    let new_list = keyed(&["aaa", "ddd", "bbb", "ccc"]);
    assert_eq!(
        plan_list_update(&old_list, &new_list),
        vec![Some(0), None, Some(1), Some(2)]
    );
    let empty = keyed(&[]);
    assert_eq!(plan_list_update(&new_list, &empty), vec![]);
    assert_eq!(plan_list_update(&empty, &old_list), vec![None, None, None]);
}

#[test]
fn plan_keeps_old_order() {
    let old_list = vec![(1, ()), (2, ()), (3, ()), (4, ())];
    let new_list = vec![(4, ()), (2, ()), (3, ()), (1, ())];
    let plan = plan_list_update(&old_list, &new_list);
    assert_eq!(plan, vec![None, None, None, Some(0)]);
}

#[test]
fn common_keys_in_the_same_order_are_all_kept() {
    let old_list = keyed(&["foo-1", "foo-2", "bar-3", "baz-4"]);
    let new_list = keyed(&["new-0", "foo-1", "bar-3", "new-5", "baz-4"]);
    assert_eq!(
        plan_list_update(&old_list, &new_list),
        vec![None, Some(0), Some(2), None, Some(3)]
    );
}
