//! Applying a [`ListMutation`] to a list, and what it yields for a computed diff.
use vstd::prelude::*;

use crate::elements::compute_diff::{
    compute_diff, diff, diff_from, has_common, is_common, is_next_common, keys_of,
    lemma_next_common_unique, step, DiffKey, ListMutation, ListMutationItem, MutationStep,
};

verus! {

// ---------------------------------------------------------------------------
// Specification
// ---------------------------------------------------------------------------

/// The old position just past the items that a splice removes.
pub open spec fn splice_end<K>(s: MutationStep<K>) -> int {
    s.index as int + s.removed_count as int
}

/// The splices are ordered, start at or after `pos`, and stay within a list of
/// length `len`.
pub open spec fn steps_fit<K>(steps: Seq<MutationStep<K>>, pos: int, len: int) -> bool
    decreases steps.len(),
{
    if steps.len() == 0 {
        0 <= pos <= len
    } else {
        &&& 0 <= pos <= steps[0].index
        &&& splice_end(steps[0]) <= len
        &&& steps_fit(steps.drop_first(), splice_end(steps[0]), len)
    }
}

/// The keys of `old[pos..]` after the splices: the items between splices are
/// kept, each splice's removed items are replaced by its inserted keys.
pub open spec fn apply_keys<K>(old: Seq<K>, steps: Seq<MutationStep<K>>, pos: int) -> Seq<K>
    decreases steps.len(),
{
    if steps.len() == 0 {
        old.subrange(pos, old.len() as int)
    } else {
        old.subrange(pos, steps[0].index as int) + steps[0].inserted_keys + apply_keys(
            old,
            steps.drop_first(),
            splice_end(steps[0]),
        )
    }
}

/// Every item, wrapped as a kept item.
pub open spec fn kept<T>(items: Seq<T>) -> Seq<Option<T>> {
    items.map_values(|item: T| Some(item))
}

/// `n` fresh slots.
pub open spec fn fresh<T>(n: nat) -> Seq<Option<T>> {
    Seq::new(n, |_i: int| None::<T>)
}

/// The items of `old[pos..]` after the splices: `Some(item)` for an item that is
/// kept, `None` for each inserted key.
pub open spec fn apply_slots<T, K>(old: Seq<T>, steps: Seq<MutationStep<K>>, pos: int) -> Seq<
    Option<T>,
>
    decreases steps.len(),
{
    if steps.len() == 0 {
        kept(old.subrange(pos, old.len() as int))
    } else {
        kept(old.subrange(pos, steps[0].index as int)) + fresh(steps[0].inserted_keys.len())
            + apply_slots(old, steps.drop_first(), splice_end(steps[0]))
    }
}

// ---------------------------------------------------------------------------
// Implementation
// ---------------------------------------------------------------------------

/// Moves the first `n` items of `rest` to the end of `slots`, as kept items.
fn move_front<T>(rest: &mut Vec<T>, slots: &mut Vec<Option<T>>, n: usize)
    requires
        n <= old(rest).len(),
    ensures
        final(rest)@ == old(rest)@.skip(n as int),
        final(slots)@ == old(slots)@ + kept(old(rest)@.take(n as int)),
{
    let ghost rest0 = rest@;
    let ghost slots0 = slots@;
    let mut moved: usize = 0;
    while moved < n
        invariant
            moved <= n <= rest0.len(),
            rest@ == rest0.skip(moved as int),
            slots@ == slots0 + kept(rest0.take(moved as int)),
        decreases n - moved,
    {
        let item = rest.remove(0);
        slots.push(Some(item));
        proof {
            assert(rest@ =~= rest0.skip(moved + 1));
            assert(kept(rest0.take(moved + 1)) =~= kept(rest0.take(moved as int)).push(Some(item)));
            assert(slots@ =~= slots0 + kept(rest0.take(moved + 1)));
        }
        moved = moved + 1;
    }
}

/// Drops the first `n` items of `rest`.
fn drop_front<T>(rest: &mut Vec<T>, n: usize)
    requires
        n <= old(rest).len(),
    ensures
        final(rest)@ == old(rest)@.skip(n as int),
{
    let ghost rest0 = rest@;
    let mut dropped: usize = 0;
    while dropped < n
        invariant
            dropped <= n <= rest0.len(),
            rest@ == rest0.skip(dropped as int),
        decreases n - dropped,
    {
        let _ = rest.remove(0);
        proof {
            assert(rest@ =~= rest0.skip(dropped + 1));
        }
        dropped = dropped + 1;
    }
}

/// Appends `n` fresh slots to `slots`.
fn push_fresh<T>(slots: &mut Vec<Option<T>>, n: usize)
    ensures
        final(slots)@ == old(slots)@ + fresh::<T>(n as nat),
{
    let ghost slots0 = slots@;
    let mut pushed: usize = 0;
    while pushed < n
        invariant
            pushed <= n,
            slots@ == slots0 + fresh::<T>(pushed as nat),
        decreases n - pushed,
    {
        slots.push(None);
        proof {
            assert(slots@ =~= slots0 + fresh::<T>((pushed + 1) as nat));
        }
        pushed = pushed + 1;
    }
}

/// Applies `mutation` to `old`: returns the new list, where each item kept from
/// `old` is `Some(item)`, in its new position, and each inserted key is `None`.
///
/// The splices are applied in order; `mutation` must fit `old` (ordered splices
/// within its bounds), as the mutations returned by [`compute_diff`] do.
pub fn apply_mutation<Key: View, T>(old: Vec<T>, mutation: &ListMutation<Key>) -> (slots: Vec<
    Option<T>,
>)
    requires
        steps_fit(mutation@, 0, old@.len() as int),
    ensures
        slots@ == apply_slots(old@, mutation@, 0),
{
    let ghost old_items = old@;
    let ghost steps = mutation@;
    let old_len = old.len();
    let mut rest = old;
    let mut consumed: usize = 0;
    let mut slots: Vec<Option<T>> = Vec::new();
    let mut k: usize = 0;
    proof {
        assert(steps.skip(0) =~= steps);
        assert(slots@ + apply_slots(old_items, steps, 0) =~= apply_slots(old_items, steps, 0));
        assert(rest@ =~= old_items.skip(0));
    }
    while k < mutation.items.len()
        invariant
            steps == mutation@,
            steps.len() == mutation.items@.len(),
            k <= steps.len(),
            old_items.len() == old_len,
            consumed <= old_items.len(),
            rest@ == old_items.skip(consumed as int),
            steps_fit(steps.skip(k as int), consumed as int, old_items.len() as int),
            slots@ + apply_slots(old_items, steps.skip(k as int), consumed as int) == apply_slots(
                old_items,
                steps,
                0,
            ),
        decreases steps.len() - k,
    {
        let item: &ListMutationItem<Key> = &mutation.items[k];
        let ghost s = steps.skip(k as int);
        proof {
            assert(s[0] == steps[k as int]);
            assert(steps[k as int] == item@);
            assert(s.drop_first() =~= steps.skip(k + 1));
            assert(s.len() > 0);
            assert(steps_fit(s.drop_first(), splice_end(s[0]), old_items.len() as int));
            assert(splice_end(s[0]) <= old_items.len());
            assert(item.index + item.removed_count <= old_items.len());
        }
        let end = item.index + item.removed_count;
        let ghost slots0 = slots@;
        let ghost rest0 = rest@;
        move_front(&mut rest, &mut slots, item.index - consumed);
        push_fresh(&mut slots, item.inserted_keys.len());
        drop_front(&mut rest, item.removed_count);
        proof {
            assert(rest0.take(item.index - consumed) =~= old_items.subrange(
                consumed as int,
                item.index as int,
            ));
            assert(rest@ =~= old_items.skip(item.index + item.removed_count));
            assert(item@.inserted_keys.len() == item.inserted_keys@.len());
            assert(slots@ =~= slots0 + kept(old_items.subrange(consumed as int, item.index as int))
                + fresh(s[0].inserted_keys.len()));
        }
        consumed = end;
        k = k + 1;
    }
    proof {
        assert(steps.skip(k as int).len() == 0);
        assert(rest@.take(rest@.len() as int) =~= old_items.subrange(
            consumed as int,
            old_items.len() as int,
        ));
    }
    let remaining = rest.len();
    move_front(&mut rest, &mut slots, remaining);
    slots
}

// ---------------------------------------------------------------------------
// What a computed diff yields
// ---------------------------------------------------------------------------

/// Applying splices that start after `old[pos]` to `old[pos..]` keeps `old[pos]`
/// first, then does what they do to `old[pos + 1..]`.
proof fn lemma_apply_keys_shift<K>(old: Seq<K>, steps: Seq<MutationStep<K>>, pos: int)
    requires
        0 <= pos < old.len(),
        steps_fit(steps, pos + 1, old.len() as int),
    ensures
        steps_fit(steps, pos, old.len() as int),
        apply_keys(old, steps, pos) == seq![old[pos]] + apply_keys(old, steps, pos + 1),
{
    if steps.len() == 0 {
        assert(old.subrange(pos, old.len() as int) =~= seq![old[pos]] + old.subrange(
            pos + 1,
            old.len() as int,
        ));
    } else {
        let rest = apply_keys(old, steps.drop_first(), splice_end(steps[0]));
        assert(old.subrange(pos, steps[0].index as int) =~= seq![old[pos]] + old.subrange(
            pos + 1,
            steps[0].index as int,
        ));
        assert(apply_keys(old, steps, pos) =~= seq![old[pos]] + apply_keys(old, steps, pos + 1));
    }
}

/// The splices computed from `(cursor_old, cursor_new)` fit `old` from
/// `cursor_old` on, and turn `old[cursor_old..]` into `new[cursor_new..]`.
proof fn lemma_diff_from_applies<K>(
    old: Seq<K>,
    new: Seq<K>,
    cursor_old: int,
    cursor_new: int,
    preserved: nat,
)
    requires
        0 <= cursor_old <= old.len(),
        0 <= cursor_new <= new.len(),
    ensures
        diff_from(old, new, cursor_old, cursor_new, preserved).len() > 0,
        diff_from(old, new, cursor_old, cursor_new, preserved)[0].index >= cursor_old,
        steps_fit(
            diff_from(old, new, cursor_old, cursor_new, preserved),
            cursor_old,
            old.len() as int,
        ),
        apply_keys(old, diff_from(old, new, cursor_old, cursor_new, preserved), cursor_old)
            == new.subrange(cursor_new, new.len() as int),
    decreases old.len() - cursor_old,
{
    let d = diff_from(old, new, cursor_old, cursor_new, preserved);
    if exists|i: int, j: int| is_next_common(old, new, cursor_old, cursor_new, i, j) {
        let (i, j) = choose|i: int, j: int| is_next_common(old, new, cursor_old, cursor_new, i, j);
        let p = if i == cursor_old && j == cursor_new {
            preserved + 1
        } else {
            1
        };
        let r = diff_from(old, new, i + 1, j + 1, p);
        lemma_diff_from_applies(old, new, i + 1, j + 1, p);
        lemma_apply_keys_shift(old, r, i);
        assert(new.subrange(j, new.len() as int) =~= seq![new[j]] + new.subrange(
            j + 1,
            new.len() as int,
        ));
        assert(steps_fit(r, i, old.len() as int));
        if i == cursor_old && j == cursor_new {
            assert(d == r);
            assert(steps_fit(d, cursor_old, old.len() as int));
        } else {
            let s = step(cursor_old, preserved, i - cursor_old, new.subrange(cursor_new, j));
            assert(d == seq![s] + r);
            assert(d.drop_first() =~= r);
            assert(d[0] == s);
            assert(old.subrange(cursor_old, cursor_old) =~= Seq::<K>::empty());
            assert(apply_keys(old, d, cursor_old) =~= new.subrange(cursor_new, j) + apply_keys(
                old,
                r,
                i,
            ));
            assert(new.subrange(cursor_new, new.len() as int) =~= new.subrange(cursor_new, j)
                + new.subrange(j, new.len() as int));
            assert(splice_end(s) == i);
            assert(steps_fit(d, cursor_old, old.len() as int));
        }
    } else {
        let s = step(
            cursor_old,
            preserved,
            old.len() - cursor_old,
            new.subrange(cursor_new, new.len() as int),
        );
        assert(d == seq![s]);
        assert(d.drop_first() =~= Seq::<MutationStep<K>>::empty());
        assert(old.subrange(cursor_old, cursor_old) =~= Seq::<K>::empty());
        assert(old.subrange(old.len() as int, old.len() as int) =~= Seq::<K>::empty());
        assert(splice_end(s) == old.len());
        assert(apply_keys(old, d.drop_first(), old.len() as int) =~= Seq::<K>::empty());
        assert(apply_keys(old, d, cursor_old) == old.subrange(cursor_old, cursor_old)
            + s.inserted_keys + apply_keys(old, d.drop_first(), old.len() as int));
        assert(apply_keys(old, d, cursor_old) =~= new.subrange(cursor_new, new.len() as int));
        assert(steps_fit(d.drop_first(), old.len() as int, old.len() as int));
    }
}

/// Law: applying the diff of two key lists to the first one yields the second.
///
/// The mutation returned by `compute_diff(old, new)` always fits `old`, and
/// applying it to the keys of `old` gives exactly the keys of `new`.
pub proof fn lemma_apply_diff_yields_new<K>(old: Seq<K>, new: Seq<K>)
    ensures
        steps_fit(diff(old, new), 0, old.len() as int),
        apply_keys(old, diff(old, new), 0) == new,
{
    lemma_diff_from_applies(old, new, 0, 0, 0);
    assert(new.subrange(0, new.len() as int) =~= new);
}

/// Kept slots hold old items at or after `pos`, each at a position where the
/// applied keys hold its own key; the slots and the applied keys have the same
/// length.
proof fn lemma_slots_follow_keys<T, K>(
    old: Seq<T>,
    key: spec_fn(T) -> K,
    steps: Seq<MutationStep<K>>,
    pos: int,
)
    requires
        steps_fit(steps, pos, old.len() as int),
    ensures
        apply_slots(old, steps, pos).len() == apply_keys(old.map_values(key), steps, pos).len(),
        forall|j: int|
            0 <= j < apply_slots(old, steps, pos).len() && (#[trigger] apply_slots(
                old,
                steps,
                pos,
            )[j]) is Some ==> {
                &&& key(apply_slots(old, steps, pos)[j]->0) == apply_keys(
                    old.map_values(key),
                    steps,
                    pos,
                )[j]
                &&& exists|i: int| pos <= i < old.len() && old[i] == apply_slots(old, steps, pos)[j]->0
            },
    decreases steps.len(),
{
    let keys = old.map_values(key);
    let slots = apply_slots(old, steps, pos);
    let applied = apply_keys(keys, steps, pos);
    if steps.len() == 0 {
        assert forall|j: int| 0 <= j < slots.len() && (#[trigger] slots[j]) is Some implies {
            &&& key(slots[j]->0) == applied[j]
            &&& exists|i: int| pos <= i < old.len() && old[i] == slots[j]->0
        } by {
            assert(slots[j] == Some(old[pos + j]));
            assert(applied[j] == keys[pos + j]);
        }
    } else {
        let first = steps[0];
        let end = splice_end(first);
        let head = kept(old.subrange(pos, first.index as int));
        let middle = fresh::<T>(first.inserted_keys.len());
        let tail = apply_slots(old, steps.drop_first(), end);
        let tail_keys = apply_keys(keys, steps.drop_first(), end);
        lemma_slots_follow_keys(old, key, steps.drop_first(), end);
        assert(slots == head + middle + tail);
        assert(applied == keys.subrange(pos, first.index as int) + first.inserted_keys + tail_keys);
        let n1 = head.len() as int;
        let n2 = n1 + middle.len();
        assert forall|j: int| 0 <= j < slots.len() && (#[trigger] slots[j]) is Some implies {
            &&& key(slots[j]->0) == applied[j]
            &&& exists|i: int| pos <= i < old.len() && old[i] == slots[j]->0
        } by {
            if j < n1 {
                assert(slots[j] == Some(old[pos + j]));
                assert(applied[j] == keys[pos + j]);
            } else if j < n2 {
                assert(slots[j] == middle[j - n1]);
            } else {
                assert(slots[j] == tail[j - n2]);
                assert(applied[j] == tail_keys[j - n2]);
                assert(tail[j - n2] is Some);
                let i = choose|i: int| end <= i < old.len() && old[i] == tail[j - n2]->0;
                assert(pos <= i);
            }
        }
    }
}

/// Law: a kept item lands where the new list holds its key.
///
/// Apply the diff of two lists to the first one: the result is as long as the
/// second list, and each item kept from the first list comes from it and sits at
/// a position where the second list holds the same key. Item identity (the state
/// and widgets attached to a key) follows the keys.
pub proof fn lemma_kept_items_keep_their_keys<T, K>(old: Seq<T>, key: spec_fn(T) -> K, new: Seq<K>)
    ensures
        apply_slots(old, diff(old.map_values(key), new), 0).len() == new.len(),
        forall|j: int|
            0 <= j < new.len() && (#[trigger] apply_slots(
                old,
                diff(old.map_values(key), new),
                0,
            )[j]) is Some ==> {
                &&& key(apply_slots(old, diff(old.map_values(key), new), 0)[j]->0) == new[j]
                &&& old.contains(apply_slots(old, diff(old.map_values(key), new), 0)[j]->0)
            },
{
    let keys = old.map_values(key);
    let d = diff(keys, new);
    lemma_apply_diff_yields_new(keys, new);
    lemma_slots_follow_keys(old, key, d, 0);
    let slots = apply_slots(old, d, 0);
    assert forall|j: int| 0 <= j < new.len() && (#[trigger] slots[j]) is Some implies {
        &&& key(slots[j]->0) == new[j]
        &&& old.contains(slots[j]->0)
    } by {
        let i = choose|i: int| 0 <= i < old.len() && old[i] == slots[j]->0;
        assert(old[i] == slots[j]->0);
    }
}

/// Diffing a key list against itself from equal cursors finds every item in
/// place: one final splice that removes and inserts nothing.
proof fn lemma_diff_from_same<K>(keys: Seq<K>, cursor: int, preserved: nat)
    requires
        0 <= cursor <= keys.len(),
    ensures
        diff_from(keys, keys, cursor, cursor, preserved) == seq![
            step(
                keys.len() as int,
                (preserved + (keys.len() - cursor)) as nat,
                0,
                Seq::<K>::empty(),
            ),
        ],
    decreases keys.len() - cursor,
{
    if cursor < keys.len() {
        assert(is_next_common(keys, keys, cursor, cursor, cursor, cursor));
        let (i, j) = choose|i: int, j: int| is_next_common(keys, keys, cursor, cursor, i, j);
        lemma_next_common_unique(keys, keys, cursor, cursor, i, j, cursor, cursor);
        lemma_diff_from_same(keys, cursor + 1, preserved + 1);
    } else {
        assert(!exists|i: int, j: int| is_next_common(keys, keys, cursor, cursor, i, j));
        assert(keys.subrange(cursor, keys.len() as int) =~= Seq::<K>::empty());
    }
}

/// Law: an unchanged list is left unchanged.
///
/// The diff of a list with itself is one final splice that removes and inserts
/// nothing, after all the items, which it counts as preserved; applying it keeps
/// every item in its place.
pub proof fn lemma_diff_of_same_list_keeps_all<T, K>(old: Seq<T>, key: spec_fn(T) -> K)
    ensures
        diff(old.map_values(key), old.map_values(key)) == seq![
            step(old.len() as int, old.len(), 0, Seq::<K>::empty()),
        ],
        apply_slots(old, diff(old.map_values(key), old.map_values(key)), 0) == kept(old),
{
    let keys = old.map_values(key);
    lemma_diff_from_same(keys, 0, 0);
    let d = diff(keys, keys);
    assert(d.drop_first() =~= Seq::<MutationStep<K>>::empty());
    assert(old.subrange(0, old.len() as int) =~= old);
    assert(old.subrange(old.len() as int, old.len() as int) =~= Seq::<T>::empty());
    assert(apply_slots(old, d.drop_first(), old.len() as int) =~= Seq::<Option<T>>::empty());
    assert(fresh::<T>(0) =~= Seq::<Option<T>>::empty());
    assert(apply_slots(old, d, 0) =~= kept(old));
}

/// The positions `0..n`.
pub open spec fn positions(n: nat) -> Seq<int> {
    Seq::new(n, |i: int| i)
}

/// Applied to the positions of a list, the kept slots hold positions at or after
/// `pos`, in increasing order.
proof fn lemma_kept_positions_increase<K>(n: nat, steps: Seq<MutationStep<K>>, pos: int)
    requires
        steps_fit(steps, pos, n as int),
    ensures
        forall|j: int|
            0 <= j < apply_slots(positions(n), steps, pos).len() && (#[trigger] apply_slots(
                positions(n),
                steps,
                pos,
            )[j]) is Some ==> pos <= apply_slots(positions(n), steps, pos)[j]->0 < n,
        forall|j1: int, j2: int|
            0 <= j1 < j2 < apply_slots(positions(n), steps, pos).len() && (#[trigger] apply_slots(
                positions(n),
                steps,
                pos,
            )[j1]) is Some && (#[trigger] apply_slots(positions(n), steps, pos)[j2]) is Some
                ==> apply_slots(positions(n), steps, pos)[j1]->0 < apply_slots(
                positions(n),
                steps,
                pos,
            )[j2]->0,
    decreases steps.len(),
{
    let idx = positions(n);
    let slots = apply_slots(idx, steps, pos);
    if steps.len() == 0 {
        assert forall|j: int| 0 <= j < slots.len() && (#[trigger] slots[j]) is Some implies slots[j]->0
            == pos + j by {}
    } else {
        let first = steps[0];
        let end = splice_end(first);
        let head = kept(idx.subrange(pos, first.index as int));
        let middle = fresh::<int>(first.inserted_keys.len());
        let tail = apply_slots(idx, steps.drop_first(), end);
        lemma_kept_positions_increase(n, steps.drop_first(), end);
        assert(slots == head + middle + tail);
        let n1 = head.len() as int;
        let n2 = n1 + middle.len();
        assert forall|j: int| 0 <= j < slots.len() && (#[trigger] slots[j]) is Some implies {
            &&& (j < n1 ==> slots[j]->0 == pos + j)
            &&& (n2 <= j ==> slots[j] == tail[j - n2] && end <= slots[j]->0)
            &&& n1 <= j < n2 ==> false
        } by {
            if j < n1 {
            } else if j < n2 {
                assert(slots[j] == middle[j - n1]);
            } else {
                assert(slots[j] == tail[j - n2]);
            }
        }
    }
}

/// Law: kept items keep their relative order.
///
/// Apply the diff of two key lists to the positions of the first list: the kept
/// positions are valid positions of the first list, and they increase along the
/// result. Items that survive an update are never reordered.
pub proof fn lemma_kept_items_keep_their_order<K>(old: Seq<K>, new: Seq<K>)
    ensures
        forall|j: int|
            0 <= j < apply_slots(positions(old.len()), diff(old, new), 0).len() && (#[trigger] apply_slots(
                positions(old.len()),
                diff(old, new),
                0,
            )[j]) is Some ==> 0 <= apply_slots(positions(old.len()), diff(old, new), 0)[j]->0
                < old.len(),
        forall|j1: int, j2: int|
            0 <= j1 < j2 < apply_slots(positions(old.len()), diff(old, new), 0).len()
                && (#[trigger] apply_slots(positions(old.len()), diff(old, new), 0)[j1]) is Some
                && (#[trigger] apply_slots(positions(old.len()), diff(old, new), 0)[j2]) is Some
                ==> apply_slots(positions(old.len()), diff(old, new), 0)[j1]->0 < apply_slots(
                positions(old.len()),
                diff(old, new),
                0,
            )[j2]->0,
{
    lemma_apply_diff_yields_new(old, new);
    lemma_kept_positions_increase(old.len(), diff(old, new), 0);
}

/// Two keys common to both lists come in the same order in each.
pub open spec fn common_keys_keep_order<K>(old: Seq<K>, new: Seq<K>) -> bool {
    forall|i1: int, j1: int, i2: int, j2: int|
        #![trigger is_common(old, new, i1, j1), is_common(old, new, i2, j2)]
        is_common(old, new, i1, j1) && is_common(old, new, i2, j2) && i1 < i2 ==> j1 < j2
}

/// Applying splices that start after `old[pos]` to the items of `old[pos..]`
/// keeps `old[pos]` first, then does what they do to `old[pos + 1..]`.
proof fn lemma_apply_slots_shift<T, K>(old: Seq<T>, steps: Seq<MutationStep<K>>, pos: int)
    requires
        0 <= pos < old.len(),
        steps_fit(steps, pos + 1, old.len() as int),
    ensures
        apply_slots(old, steps, pos) == seq![Some(old[pos])] + apply_slots(old, steps, pos + 1),
{
    if steps.len() == 0 {
        assert(kept(old.subrange(pos, old.len() as int)) =~= seq![Some(old[pos])] + kept(
            old.subrange(pos + 1, old.len() as int),
        ));
    } else {
        assert(kept(old.subrange(pos, steps[0].index as int)) =~= seq![Some(old[pos])] + kept(
            old.subrange(pos + 1, steps[0].index as int),
        ));
        assert(apply_slots(old, steps, pos) =~= seq![Some(old[pos])] + apply_slots(
            old,
            steps,
            pos + 1,
        ));
    }
}

/// With no duplicate in `new`, a common pair at or after the cursors, and none
/// with an old position in `[cursor_old, from)`, there is a first common pair.
proof fn lemma_next_common_exists<K>(
    old: Seq<K>,
    new: Seq<K>,
    cursor_old: int,
    cursor_new: int,
    from: int,
)
    requires
        new.no_duplicates(),
        0 <= cursor_old,
        0 <= cursor_new,
        cursor_old <= from <= old.len(),
        forall|i2: int, j2: int|
            cursor_old <= i2 < from && cursor_new <= j2 < new.len() ==> old[i2] != new[j2],
        exists|i: int, j: int| from <= i && cursor_new <= j && #[trigger] is_common(old, new, i, j),
    ensures
        exists|i: int, j: int| is_next_common(old, new, cursor_old, cursor_new, i, j),
    decreases old.len() - from,
{
    let (i, j) = choose|i: int, j: int| from <= i && cursor_new <= j && #[trigger] is_common(old, new, i, j);
    assert(from < old.len());
    if exists|j0: int| cursor_new <= j0 < new.len() && old[from] == #[trigger] new[j0] {
        let j0 = choose|j0: int| cursor_new <= j0 < new.len() && old[from] == #[trigger] new[j0];
        assert forall|j2: int| cursor_new <= j2 < j0 implies old[from] != new[j2] by {
            if old[from] == new[j2] {
                assert(new[j2] == new[j0]);
            }
        }
        assert(is_next_common(old, new, cursor_old, cursor_new, from, j0));
    } else {
        assert(i != from);
        assert(is_common(old, new, i, j));
        lemma_next_common_exists(old, new, cursor_old, cursor_new, from + 1);
    }
}

/// From cursors that split the common pairs (a common pair is before both
/// cursors or after both), each common pair after them has its old position
/// kept, at its new position.
proof fn lemma_common_keys_kept_from<K>(
    old: Seq<K>,
    new: Seq<K>,
    cursor_old: int,
    cursor_new: int,
    preserved: nat,
)
    requires
        0 <= cursor_old <= old.len(),
        0 <= cursor_new <= new.len(),
        new.no_duplicates(),
        common_keys_keep_order(old, new),
        forall|i: int, j: int| #[trigger] is_common(old, new, i, j) ==> (i < cursor_old <==> j < cursor_new),
    ensures
        forall|i: int, j: int|
            cursor_old <= i && #[trigger] is_common(old, new, i, j) ==> cursor_new <= j && apply_slots(
                positions(old.len()),
                diff_from(old, new, cursor_old, cursor_new, preserved),
                cursor_old,
            )[j - cursor_new] == Some(i),
    decreases old.len() - cursor_old,
{
    let idx = positions(old.len());
    let d = diff_from(old, new, cursor_old, cursor_new, preserved);
    if exists|i: int, j: int| is_next_common(old, new, cursor_old, cursor_new, i, j) {
        let (i0, j0) = choose|i: int, j: int| is_next_common(old, new, cursor_old, cursor_new, i, j);
        assert(is_common(old, new, i0, j0));
        // Every common pair after the cursors is (i0, j0) or after it in both lists.
        assert forall|i: int, j: int| cursor_old <= i && #[trigger] is_common(old, new, i, j) implies
            (i == i0 && j == j0) || (i0 < i && j0 < j) by {
            assert(cursor_new <= j);
            if i < i0 {
                assert(old[i] != new[j]);
            } else if i == i0 {
                assert(new[j] == new[j0]);
            } else {
                assert(is_common(old, new, i0, j0));
            }
        }
        let p = if i0 == cursor_old && j0 == cursor_new {
            preserved + 1
        } else {
            1
        };
        let r = diff_from(old, new, i0 + 1, j0 + 1, p);
        assert forall|i: int, j: int| #[trigger] is_common(old, new, i, j) implies (i < i0 + 1 <==> j < j0
            + 1) by {
            if cursor_old <= i {
                assert((i == i0 && j == j0) || (i0 < i && j0 < j));
            } else {
                assert(j < cursor_new);
            }
        }
        lemma_common_keys_kept_from(old, new, i0 + 1, j0 + 1, p);
        lemma_diff_from_applies(old, new, i0 + 1, j0 + 1, p);
        lemma_apply_slots_shift(idx, r, i0);
        lemma_slots_follow_keys(idx, |k: int| old[k], r, i0 + 1);
        assert(idx.map_values(|k: int| old[k]) =~= old);
        assert(apply_slots(idx, r, i0 + 1).len() == new.len() - (j0 + 1));
        let after = apply_slots(idx, r, i0);
        assert(after == seq![Some(i0)] + apply_slots(idx, r, i0 + 1));
        if i0 == cursor_old && j0 == cursor_new {
            assert(d == r);
            assert forall|i: int, j: int| cursor_old <= i && #[trigger] is_common(old, new, i, j) implies
                cursor_new <= j && apply_slots(idx, d, cursor_old)[j - cursor_new] == Some(i) by {
                if i != i0 {
                    assert(apply_slots(idx, r, i0 + 1)[j - (j0 + 1)] == Some(i));
                }
            }
        } else {
            let s = step(cursor_old, preserved, i0 - cursor_old, new.subrange(cursor_new, j0));
            assert(d == seq![s] + r);
            assert(d.drop_first() =~= r);
            assert(d[0] == s);
            assert(splice_end(s) == i0);
            let gap = (j0 - cursor_new) as nat;
            assert(kept(idx.subrange(cursor_old, cursor_old)) =~= Seq::<Option<int>>::empty());
            assert(apply_slots(idx, d, cursor_old) =~= fresh::<int>(gap) + after);
            assert forall|i: int, j: int| cursor_old <= i && #[trigger] is_common(old, new, i, j) implies
                cursor_new <= j && apply_slots(idx, d, cursor_old)[j - cursor_new] == Some(i) by {
                if i != i0 {
                    assert(apply_slots(idx, r, i0 + 1)[j - (j0 + 1)] == Some(i));
                    assert(after[j - j0] == Some(i));
                }
            }
        }
    } else {
        assert forall|i: int, j: int| cursor_old <= i && #[trigger] is_common(old, new, i, j) implies
            false by {
            assert(cursor_new <= j);
            assert forall|i2: int, j2: int|
                cursor_old <= i2 < cursor_old && cursor_new <= j2 < new.len() implies old[i2] != new[j2] by {}
            lemma_next_common_exists(old, new, cursor_old, cursor_new, cursor_old);
        }
    }
}

/// Law: with unique keys whose common keys keep their order, every common key
/// keeps its item.
///
/// When neither list holds a key twice, and the keys found in both lists come
/// in the same order in each, applying the diff to the positions of the first
/// list keeps, at each position of the second list whose key is also in the
/// first, the position of that key in the first list: no item is recreated
/// that could have been kept.
pub proof fn lemma_common_keys_are_kept<K>(old: Seq<K>, new: Seq<K>)
    requires
        old.no_duplicates(),
        new.no_duplicates(),
        common_keys_keep_order(old, new),
    ensures
        apply_slots(positions(old.len()), diff(old, new), 0).len() == new.len(),
        forall|i: int, j: int|
            #[trigger] is_common(old, new, i, j) ==> apply_slots(
                positions(old.len()),
                diff(old, new),
                0,
            )[j] == Some(i),
{
    lemma_common_keys_kept_from(old, new, 0, 0, 0);
    lemma_kept_items_keep_their_keys(positions(old.len()), |i: int| old[i], new);
    assert(positions(old.len()).map_values(|i: int| old[i]) =~= old);
}

/// Matches the items of `old_list` with the keys of `new_list`.
///
/// Returns one slot per item of `new_list`: `Some(item)` where an item of
/// `old_list` is kept for that key (the diff of the two key lists decides which),
/// `None` where the key is new. A kept item always has the key of its slot.
pub fn match_list_items<Key: DiffKey, T1, T2>(old_list: Vec<(Key, T1)>, new_list: &[(Key, T2)]) -> (slots: Vec<Option<(Key, T1)>>)
    ensures
        slots@ == apply_slots(old_list@, diff(keys_of(old_list@), keys_of(new_list@)), 0),
        slots@.len() == new_list@.len(),
        forall|j: int|
            0 <= j < new_list@.len() && (#[trigger] slots@[j]) is Some ==> {
                &&& (slots@[j]->0).0@ == new_list@[j].0@
                &&& old_list@.contains(slots@[j]->0)
            },
{
    let mutation = compute_diff(old_list.as_slice(), new_list);
    let ghost old_items = old_list@;
    let ghost key = |pair: (Key, T1)| pair.0@;
    proof {
        assert(keys_of(old_items) =~= old_items.map_values(key));
        lemma_apply_diff_yields_new(keys_of(old_items), keys_of(new_list@));
        lemma_kept_items_keep_their_keys(old_items, key, keys_of(new_list@));
    }
    let slots = apply_mutation(old_list, &mutation);
    proof {
        assert forall|j: int| 0 <= j < new_list@.len() && (#[trigger] slots@[j]) is Some implies {
            &&& (slots@[j]->0).0@ == new_list@[j].0@
            &&& old_items.contains(slots@[j]->0)
        } by {
            assert(key(slots@[j]->0) == keys_of(new_list@)[j]);
        }
    }
    slots
}

/// An optional item, mapped through `f`.
pub open spec fn map_slot<T, U>(slot: Option<T>, f: spec_fn(T) -> U) -> Option<U> {
    match slot {
        Some(item) => Some(f(item)),
        None => None,
    }
}

/// Applying splices commutes with mapping the items.
proof fn lemma_apply_slots_map<T, U, K>(
    old: Seq<T>,
    f: spec_fn(T) -> U,
    steps: Seq<MutationStep<K>>,
    pos: int,
)
    requires
        steps_fit(steps, pos, old.len() as int),
    ensures
        apply_slots(old.map_values(f), steps, pos) == apply_slots(old, steps, pos).map_values(
            |slot: Option<T>| map_slot(slot, f),
        ),
    decreases steps.len(),
{
    let mapped = old.map_values(f);
    if steps.len() == 0 {
        assert(apply_slots(mapped, steps, pos) =~= apply_slots(old, steps, pos).map_values(
            |slot: Option<T>| map_slot(slot, f),
        ));
    } else {
        let first = steps[0];
        let end = splice_end(first);
        lemma_apply_slots_map(old, f, steps.drop_first(), end);
        let head = kept(old.subrange(pos, first.index as int));
        let middle = fresh::<T>(first.inserted_keys.len());
        let tail = apply_slots(old, steps.drop_first(), end);
        assert(apply_slots(old, steps, pos) == head + middle + tail);
        assert(apply_slots(mapped, steps, pos) =~= apply_slots(old, steps, pos).map_values(
            |slot: Option<T>| map_slot(slot, f),
        ));
    }
}

/// Plans the update of the widgets of a keyed list.
///
/// Returns, for each item of `new_list`, the position in `old_list` of the item
/// whose widget is kept for it, or `None` where a widget has to be created. A
/// kept position always holds the same key as the new item, and kept positions
/// increase along the plan: widgets are reused in their old order.
pub fn plan_list_update<Key: DiffKey, T1, T2>(old_list: &[(Key, T1)], new_list: &[(Key, T2)]) -> (plan: Vec<Option<usize>>)
    ensures
        plan@ == apply_slots(
            positions(old_list@.len()).map_values(|i: int| i as usize),
            diff(keys_of(old_list@), keys_of(new_list@)),
            0,
        ),
        plan@.len() == new_list@.len(),
        forall|j: int|
            0 <= j < plan@.len() && (#[trigger] plan@[j]) is Some ==> {
                &&& plan@[j]->0 < old_list@.len()
                &&& old_list@[plan@[j]->0 as int].0@ == new_list@[j].0@
            },
        forall|j1: int, j2: int|
            0 <= j1 < j2 < plan@.len() && (#[trigger] plan@[j1]) is Some && (#[trigger] plan@[j2]) is Some
                ==> plan@[j1]->0 < plan@[j2]->0,
{
    let ghost old_keys = keys_of(old_list@);
    let ghost new_keys = keys_of(new_list@);
    let mut indices: Vec<usize> = Vec::new();
    let mut idx: usize = 0;
    while idx < old_list.len()
        invariant
            idx <= old_list.len(),
            indices@ == positions(idx as nat).map_values(|i: int| i as usize),
        decreases old_list.len() - idx,
    {
        let ghost prev = indices@;
        indices.push(idx);
        proof {
            let next = positions((idx + 1) as nat).map_values(|i: int| i as usize);
            assert forall|k: int| 0 <= k < idx + 1 implies indices@[k] == next[k] by {
                if k < idx {
                    assert(indices@[k] == prev[k]);
                } else {
                    assert((|i: int| i as usize)(idx as int) == idx);
                }
            }
            assert(indices@ =~= next);
        }
        idx = idx + 1;
    }
    let mutation = compute_diff(old_list, new_list);
    proof {
        lemma_apply_diff_yields_new(old_keys, new_keys);
        lemma_kept_items_keep_their_order(old_keys, new_keys);
        lemma_apply_slots_map(positions(old_keys.len()), |i: int| i as usize, mutation@, 0);
        lemma_apply_slots_map(positions(old_keys.len()), |i: int| old_keys[i], mutation@, 0);
        lemma_slots_follow_keys(positions(old_keys.len()), |i: int| old_keys[i], mutation@, 0);
        assert(positions(old_keys.len()).map_values(|i: int| old_keys[i]) =~= old_keys);
    }
    let plan = apply_mutation(indices, &mutation);
    proof {
        let slots = apply_slots(positions(old_keys.len()), mutation@, 0);
        assert forall|j: int| 0 <= j < plan@.len() && (#[trigger] plan@[j]) is Some implies {
            &&& plan@[j]->0 < old_list@.len()
            &&& old_list@[plan@[j]->0 as int].0@ == new_list@[j].0@
        } by {
            assert(plan@[j] == map_slot(slots[j], |i: int| i as usize));
            assert(slots[j] is Some);
            assert(old_keys[slots[j]->0] == new_keys[j]);
        }
        assert forall|j1: int, j2: int|
            0 <= j1 < j2 < plan@.len() && (#[trigger] plan@[j1]) is Some && (#[trigger] plan@[j2]) is Some
            implies plan@[j1]->0 < plan@[j2]->0 by {
            assert(plan@[j1] == map_slot(slots[j1], |i: int| i as usize));
            assert(plan@[j2] == map_slot(slots[j2], |i: int| i as usize));
            assert(slots[j1] is Some && slots[j2] is Some);
        }
    }
    plan
}

} // verus!
