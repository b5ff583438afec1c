use panoramix::elements::{compute_diff, ListMutation, ListMutationItem};

fn make_list(keys: &[i32]) -> Vec<(i32, ())> {
    keys.iter().map(|key| (*key, ())).collect()
}

fn make_mut_tail(index: usize, preserved_count_before: usize) -> ListMutationItem<i32> {
    ListMutationItem {
        index,
        preserved_count_before,
        removed_count: 0,
        inserted_keys: vec![],
    }
}

fn apply_diff(old_list: &[(i32, ())], mutation: &ListMutation<i32>) -> Vec<(i32, ())> {
    let mut index_diff = 0_isize;
    let mut new_list: Vec<_> = old_list.into();

    for mutation_item in &mutation.items {
        let index = (mutation_item.index as isize + index_diff) as usize;
        let range = index..(index + mutation_item.removed_count);

        // Calling .last() runs the entire iterator
        let _ = new_list
            .splice(
                range,
                mutation_item
                    .inserted_keys
                    .iter()
                    .cloned()
                    .map(|key| (key, ())),
            )
            .last();

        index_diff += mutation_item.inserted_keys.len() as isize;
        index_diff -= mutation_item.removed_count as isize;
    }

    new_list
}

#[test]
fn empty_lists() {
    let old_list = make_list(&[]);
    let new_list = make_list(&[]);

    let diff = compute_diff(&old_list, &new_list);
    assert_eq!(
        diff,
        ListMutation {
            items: vec![make_mut_tail(0, 0),]
        }
    );
    assert_eq!(apply_diff(&old_list, &diff), new_list);
}

#[test]
fn identical_lists() {
    let old_list = make_list(&[1, 2, 3]);
    let new_list = make_list(&[1, 2, 3]);

    let diff = compute_diff(&old_list, &new_list);
    assert_eq!(
        diff,
        ListMutation {
            items: vec![make_mut_tail(old_list.len(), 3),]
        },
    );
    assert_eq!(apply_diff(&old_list, &diff), new_list);
}

#[test]
fn inserted_one() {
    let old_list = make_list(&[1, 2, 3]);
    let new_list = make_list(&[1, 2, 999, 3]);

    let diff = compute_diff(&old_list, &new_list);
    assert_eq!(
        diff,
        ListMutation {
            items: vec![
                ListMutationItem {
                    index: 2,
                    preserved_count_before: 2,
                    removed_count: 0,
                    inserted_keys: vec![999],
                },
                make_mut_tail(old_list.len(), 1),
            ]
        },
    );
    assert_eq!(apply_diff(&old_list, &diff), new_list);
}

#[test]
fn inserted_one_beginning() {
    let old_list = make_list(&[1, 2, 3]);
    let new_list = make_list(&[999, 1, 2, 3]);

    let diff = compute_diff(&old_list, &new_list);
    assert_eq!(
        diff,
        ListMutation {
            items: vec![
                ListMutationItem {
                    index: 0,
                    preserved_count_before: 0,
                    removed_count: 0,
                    inserted_keys: vec![999],
                },
                make_mut_tail(old_list.len(), 3),
            ]
        },
    );
    assert_eq!(apply_diff(&old_list, &diff), new_list);
}

#[test]
fn inserted_one_end() {
    let old_list = make_list(&[1, 2, 3]);
    let new_list = make_list(&[1, 2, 3, 999]);

    let diff = compute_diff(&old_list, &new_list);
    assert_eq!(
        diff,
        ListMutation {
            items: vec![ListMutationItem {
                index: 3,
                preserved_count_before: 3,
                removed_count: 0,
                inserted_keys: vec![999],
            },]
        },
    );
    assert_eq!(apply_diff(&old_list, &diff), new_list);
}

#[test]
fn removed_one() {
    let old_list = make_list(&[1, 2, 3]);
    let new_list = make_list(&[1, 3]);

    let diff = compute_diff(&old_list, &new_list);
    assert_eq!(
        diff,
        ListMutation {
            items: vec![
                ListMutationItem {
                    index: 1,
                    preserved_count_before: 1,
                    removed_count: 1,
                    inserted_keys: vec![],
                },
                make_mut_tail(old_list.len(), 1),
            ]
        },
    );
    assert_eq!(apply_diff(&old_list, &diff), new_list);
}

#[test]
fn removed_first() {
    let old_list = make_list(&[1, 2, 3]);
    let new_list = make_list(&[2, 3]);

    let diff = compute_diff(&old_list, &new_list);
    assert_eq!(
        diff,
        ListMutation {
            items: vec![
                ListMutationItem {
                    index: 0,
                    preserved_count_before: 0,
                    removed_count: 1,
                    inserted_keys: vec![],
                },
                make_mut_tail(old_list.len(), 2),
            ]
        },
    );
    assert_eq!(apply_diff(&old_list, &diff), new_list);
}

#[test]
fn removed_last() {
    let old_list = make_list(&[1, 2, 3]);
    let new_list = make_list(&[1, 2]);

    let diff = compute_diff(&old_list, &new_list);
    assert_eq!(
        diff,
        ListMutation {
            items: vec![ListMutationItem {
                index: 2,
                preserved_count_before: 2,
                removed_count: 1,
                inserted_keys: vec![],
            },]
        },
    );
    assert_eq!(apply_diff(&old_list, &diff), new_list);
}

#[test]
fn removed_all() {
    let old_list = make_list(&[1, 2, 3]);
    let new_list = make_list(&[]);

    let diff = compute_diff(&old_list, &new_list);
    assert_eq!(
        diff,
        ListMutation {
            items: vec![ListMutationItem {
                index: 0,
                preserved_count_before: 0,
                removed_count: 3,
                inserted_keys: vec![],
            },]
        },
    );
    assert_eq!(apply_diff(&old_list, &diff), new_list);
}

#[test]
fn changed_one() {
    let old_list = make_list(&[1, 2, 3]);
    let new_list = make_list(&[1, 999, 3]);

    let diff = compute_diff(&old_list, &new_list);
    assert_eq!(
        diff,
        ListMutation {
            items: vec![
                ListMutationItem {
                    index: 1,
                    preserved_count_before: 1,
                    removed_count: 1,
                    inserted_keys: vec![999],
                },
                make_mut_tail(old_list.len(), 1),
            ]
        },
    );
    assert_eq!(apply_diff(&old_list, &diff), new_list);
}

#[test]
fn changed_first() {
    let old_list = make_list(&[1, 2, 3]);
    let new_list = make_list(&[999, 2, 3]);

    let diff = compute_diff(&old_list, &new_list);
    assert_eq!(
        diff,
        ListMutation {
            items: vec![
                ListMutationItem {
                    index: 0,
                    preserved_count_before: 0,
                    removed_count: 1,
                    inserted_keys: vec![999],
                },
                make_mut_tail(old_list.len(), 2),
            ]
        },
    );
    assert_eq!(apply_diff(&old_list, &diff), new_list);
}

#[test]
fn changed_last() {
    let old_list = make_list(&[1, 2, 3]);
    let new_list = make_list(&[1, 2, 999]);

    let diff = compute_diff(&old_list, &new_list);
    assert_eq!(
        diff,
        ListMutation {
            items: vec![ListMutationItem {
                index: 2,
                preserved_count_before: 2,
                removed_count: 1,
                inserted_keys: vec![999],
            },]
        },
    );
    assert_eq!(apply_diff(&old_list, &diff), new_list);
}

#[test]
fn changed_all() {
    let old_list = make_list(&[1, 2, 3]);
    let new_list = make_list(&[101, 102, 103]);

    let diff = compute_diff(&old_list, &new_list);
    assert_eq!(
        diff,
        ListMutation {
            items: vec![ListMutationItem {
                index: 0,
                preserved_count_before: 0,
                removed_count: 3,
                inserted_keys: vec![101, 102, 103],
            },]
        },
    );
    assert_eq!(apply_diff(&old_list, &diff), new_list);
}

#[test]
fn swap_order() {
    let old_list = make_list(&[1, 2, 3]);
    let new_list = make_list(&[3, 2, 1]);

    let diff = compute_diff(&old_list, &new_list);
    assert_eq!(
        diff,
        ListMutation {
            items: vec![
                ListMutationItem {
                    index: 0,
                    preserved_count_before: 0,
                    removed_count: 0,
                    inserted_keys: vec![3, 2],
                },
                ListMutationItem {
                    index: 1,
                    preserved_count_before: 1,
                    removed_count: 2,
                    inserted_keys: vec![],
                },
            ]
        },
    );
    assert_eq!(apply_diff(&old_list, &diff), new_list);
}

