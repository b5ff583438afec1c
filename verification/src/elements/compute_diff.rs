//! Diffing of keyed lists.
//!
//! Given the keys of a list before and after an update, [`compute_diff`] returns a
//! [`ListMutation`]: a sequence of splices that, applied in order to the old list,
//! turn its keys into the new keys. Items whose key is found again are kept, so that
//! their state and widgets survive the update.
use vstd::prelude::*;

verus! {

// ---------------------------------------------------------------------------
// Keys
// ---------------------------------------------------------------------------

/// A key that identifies an item of a list.
///
/// Keys are compared and copied by their view: two keys are the same key when
/// their views are equal.
pub trait DiffKey: Sized + View {
    /// Whether the two keys are the same key.
    fn key_eq(&self, other: &Self) -> (same: bool)
        ensures
            same == (self@ == other@),
    ;

    /// A copy of this key.
    fn key_clone(&self) -> (copy: Self)
        ensures
            copy@ == self@,
    ;
}

impl DiffKey for i32 {
    fn key_eq(&self, other: &Self) -> (same: bool) {
        *self == *other
    }

    fn key_clone(&self) -> (copy: Self) {
        *self
    }
}

impl DiffKey for i64 {
    fn key_eq(&self, other: &Self) -> (same: bool) {
        *self == *other
    }

    fn key_clone(&self) -> (copy: Self) {
        *self
    }
}

impl DiffKey for u32 {
    fn key_eq(&self, other: &Self) -> (same: bool) {
        *self == *other
    }

    fn key_clone(&self) -> (copy: Self) {
        *self
    }
}

impl DiffKey for u64 {
    fn key_eq(&self, other: &Self) -> (same: bool) {
        *self == *other
    }

    fn key_clone(&self) -> (copy: Self) {
        *self
    }
}

impl DiffKey for usize {
    fn key_eq(&self, other: &Self) -> (same: bool) {
        *self == *other
    }

    fn key_clone(&self) -> (copy: Self) {
        *self
    }
}

impl DiffKey for String {
    fn key_eq(&self, other: &Self) -> (same: bool) {
        self.eq(other)
    }

    fn key_clone(&self) -> (copy: Self) {
        self.clone()
    }
}

// ---------------------------------------------------------------------------
// Mutations
// ---------------------------------------------------------------------------

/// One splice of a [`ListMutation`].
///
/// `index` is a position in the old list; `removed_count` items are removed from
/// there, and `inserted_keys` are inserted in their place. `preserved_count_before`
/// is the number of items kept unchanged just before this splice.
#[derive(Default, Clone, Debug, PartialOrd, PartialEq, Ord, Eq, Hash)]
pub struct ListMutationItem<Key> {
    pub index: usize,
    pub preserved_count_before: usize,
    pub removed_count: usize,
    pub inserted_keys: Vec<Key>,
}

/// A sequence of splices, ordered by their position in the old list.
#[derive(Default, Clone, Debug, PartialOrd, PartialEq, Ord, Eq, Hash)]
pub struct ListMutation<Key> {
    pub items: Vec<ListMutationItem<Key>>,
}

/// Mathematical model of a [`ListMutationItem`], over the views of its keys.
pub struct MutationStep<K> {
    pub index: nat,
    pub preserved_count_before: nat,
    pub removed_count: nat,
    pub inserted_keys: Seq<K>,
}

impl<Key: View> View for ListMutationItem<Key> {
    type V = MutationStep<Key::V>;

    open spec fn view(&self) -> MutationStep<Key::V> {
        MutationStep {
            index: self.index as nat,
            preserved_count_before: self.preserved_count_before as nat,
            removed_count: self.removed_count as nat,
            inserted_keys: self.inserted_keys@.map_values(|k: Key| k@),
        }
    }
}

impl<Key: View> View for ListMutation<Key> {
    type V = Seq<MutationStep<Key::V>>;

    open spec fn view(&self) -> Seq<MutationStep<Key::V>> {
        self.items@.map_values(|item: ListMutationItem<Key>| item@)
    }
}

impl<Key> ListMutation<Key> {
    pub fn new(items: Vec<ListMutationItem<Key>>) -> (mutation: Self)
        ensures
            mutation.items == items,
    {
        ListMutation { items }
    }
}

// ---------------------------------------------------------------------------
// Specification of the diff
// ---------------------------------------------------------------------------

/// The views of the keys of a list of `(key, value)` pairs.
pub open spec fn keys_of<Key: View, T>(list: Seq<(Key, T)>) -> Seq<Key::V> {
    list.map_values(|pair: (Key, T)| pair.0@)
}

/// Old position `i` and new position `j` hold the same key.
pub open spec fn is_common<K>(old: Seq<K>, new: Seq<K>, i: int, j: int) -> bool {
    &&& 0 <= i < old.len()
    &&& 0 <= j < new.len()
    &&& old[i] == new[j]
}

/// Some common pair lies at or after the cursors.
pub open spec fn has_common<K>(old: Seq<K>, new: Seq<K>, cursor_old: int, cursor_new: int) -> bool {
    exists|i: int, j: int| cursor_old <= i && cursor_new <= j && #[trigger] is_common(old, new, i, j)
}

/// `(i, j)` is the first common pair at or after the cursors: the one with the
/// smallest old position, and among those the smallest new position.
pub open spec fn is_next_common<K>(
    old: Seq<K>,
    new: Seq<K>,
    cursor_old: int,
    cursor_new: int,
    i: int,
    j: int,
) -> bool {
    &&& cursor_old <= i
    &&& cursor_new <= j
    &&& is_common(old, new, i, j)
    &&& forall|i2: int, j2: int|
        cursor_old <= i2 < i && cursor_new <= j2 < new.len() ==> old[i2] != new[j2]
    &&& forall|j2: int| cursor_new <= j2 < j ==> old[i] != new[j2]
}

/// The splice model with the given fields.
pub open spec fn step<K>(index: int, preserved: nat, removed: int, inserted: Seq<K>) -> MutationStep<K> {
    MutationStep {
        index: index as nat,
        preserved_count_before: preserved,
        removed_count: removed as nat,
        inserted_keys: inserted,
    }
}

/// The splices that turn `old[cursor_old..]` into `new[cursor_new..]`, given that
/// `preserved` items were kept just before the cursors.
///
/// Common pairs are taken greedily, each one being the first common pair after
/// the previous one; the items skipped over in between form one splice. A final
/// splice, always present, removes what is left of `old` and inserts what is left
/// of `new`.
pub open spec fn diff_from<K>(
    old: Seq<K>,
    new: Seq<K>,
    cursor_old: int,
    cursor_new: int,
    preserved: nat,
) -> Seq<MutationStep<K>>
    decreases old.len() - cursor_old,
{
    if exists|i: int, j: int| is_next_common(old, new, cursor_old, cursor_new, i, j) {
        let (i, j) = choose|i: int, j: int| is_next_common(old, new, cursor_old, cursor_new, i, j);
        if i == cursor_old && j == cursor_new {
            diff_from(old, new, i + 1, j + 1, preserved + 1)
        } else {
            seq![step(cursor_old, preserved, i - cursor_old, new.subrange(cursor_new, j))]
                + diff_from(old, new, i + 1, j + 1, 1)
        }
    } else {
        seq![
            step(
                cursor_old,
                preserved,
                old.len() - cursor_old,
                new.subrange(cursor_new, new.len() as int),
            ),
        ]
    }
}

/// The mutation that [`compute_diff`] returns for these key sequences.
pub open spec fn diff<K>(old: Seq<K>, new: Seq<K>) -> Seq<MutationStep<K>> {
    diff_from(old, new, 0, 0, 0)
}

/// Two first common pairs at the same cursors are the same pair.
pub(crate) proof fn lemma_next_common_unique<K>(
    old: Seq<K>,
    new: Seq<K>,
    cursor_old: int,
    cursor_new: int,
    i: int,
    j: int,
    i2: int,
    j2: int,
)
    requires
        is_next_common(old, new, cursor_old, cursor_new, i, j),
        is_next_common(old, new, cursor_old, cursor_new, i2, j2),
    ensures
        i == i2 && j == j2,
{
    if i < i2 {
        assert(old[i] != new[j]);
    } else if i2 < i {
        assert(old[i2] != new[j2]);
    } else if j < j2 {
        assert(old[i] != new[j]);
    } else if j2 < j {
        assert(old[i2] != new[j2]);
    }
}

// ---------------------------------------------------------------------------
// Implementation
// ---------------------------------------------------------------------------

/// Finds the first pair `(idx_old, idx_new)` with `idx_old >= cursor_old`,
/// `idx_new >= cursor_new` and the same key in both lists: the smallest `idx_old`
/// first, then the smallest `idx_new`.
fn find_next_common_item<Key: DiffKey, T1, T2>(
    old_list: &[(Key, T1)],
    new_list: &[(Key, T2)],
    cursor_old: usize,
    cursor_new: usize,
) -> (found: Option<(usize, usize)>)
    ensures
        match found {
            Some((i, j)) => is_next_common(
                keys_of(old_list@),
                keys_of(new_list@),
                cursor_old as int,
                cursor_new as int,
                i as int,
                j as int,
            ),
            None => !has_common(
                keys_of(old_list@),
                keys_of(new_list@),
                cursor_old as int,
                cursor_new as int,
            ),
        },
{
    let ghost ok = keys_of(old_list@);
    let ghost nk = keys_of(new_list@);
    let mut idx_old = cursor_old;
    while idx_old < old_list.len()
        invariant
            ok == keys_of(old_list@),
            nk == keys_of(new_list@),
            cursor_old <= idx_old,
            forall|i2: int, j2: int|
                cursor_old <= i2 < idx_old && cursor_new <= j2 < nk.len() ==> ok[i2] != nk[j2],
        decreases old_list.len() - idx_old,
    {
        let mut idx_new = cursor_new;
        while idx_new < new_list.len()
            invariant
                ok == keys_of(old_list@),
                nk == keys_of(new_list@),
                cursor_old <= idx_old < old_list.len(),
                cursor_new <= idx_new,
                forall|i2: int, j2: int|
                    cursor_old <= i2 < idx_old && cursor_new <= j2 < nk.len() ==> ok[i2] != nk[j2],
                forall|j2: int| cursor_new <= j2 < idx_new ==> ok[idx_old as int] != nk[j2],
            decreases new_list.len() - idx_new,
        {
            if old_list[idx_old].0.key_eq(&new_list[idx_new].0) {
                return Some((idx_old, idx_new));
            }
            idx_new = idx_new + 1;
        }
        idx_old = idx_old + 1;
    }
    proof {
        assert forall|i: int, j: int|
            cursor_old <= i && cursor_new <= j && #[trigger] is_common(ok, nk, i, j) implies false by {
            assert(ok[i] != nk[j]);
        }
    }
    None
}

/// The keys of `list[from..to]`, copied.
fn collect_keys<Key: DiffKey, T>(list: &[(Key, T)], from: usize, to: usize) -> (keys: Vec<Key>)
    requires
        from <= to <= list.len(),
    ensures
        keys@.map_values(|k: Key| k@) == keys_of(list@).subrange(from as int, to as int),
{
    let mut keys: Vec<Key> = Vec::new();
    let mut idx = from;
    while idx < to
        invariant
            from <= idx <= to <= list.len(),
            keys@.map_values(|k: Key| k@) == keys_of(list@).subrange(from as int, idx as int),
        decreases to - idx,
    {
        let ghost prev = keys@;
        let key = list[idx].0.key_clone();
        keys.push(key);
        proof {
            assert(keys@ == prev.push(key));
            assert(keys@.map_values(|k: Key| k@) =~= prev.map_values(|k: Key| k@).push(key@));
            assert(keys_of(list@).subrange(from as int, idx + 1) =~= keys_of(list@).subrange(
                from as int,
                idx as int,
            ).push(key@));
        }
        idx = idx + 1;
    }
    keys
}

/// Computes the mutation that turns the keys of `old_list` into the keys of
/// `new_list`.
///
/// Items are matched greedily: each kept item is the first common pair after the
/// previous kept item. Applying the result to the old list (see
/// [`apply_mutation`]) yields exactly the new keys.
pub fn compute_diff<Key: DiffKey, T1, T2>(
    old_list: &[(Key, T1)],
    new_list: &[(Key, T2)],
) -> (mutation: ListMutation<Key>)
    ensures
        mutation@ == diff(keys_of(old_list@), keys_of(new_list@)),
{
    let ghost ok = keys_of(old_list@);
    let ghost nk = keys_of(new_list@);
    let mut items: Vec<ListMutationItem<Key>> = Vec::new();
    let mut cursor_old: usize = 0;
    let mut cursor_new: usize = 0;
    let mut preserved_count_before: usize = 0;

    loop
        invariant
            ok == keys_of(old_list@),
            nk == keys_of(new_list@),
            cursor_old <= old_list.len(),
            cursor_new <= new_list.len(),
            preserved_count_before <= cursor_old,
            items@.map_values(|item: ListMutationItem<Key>| item@) + diff_from(
                ok,
                nk,
                cursor_old as int,
                cursor_new as int,
                preserved_count_before as nat,
            ) == diff(ok, nk),
        decreases old_list.len() - cursor_old,
    {
        let ghost prev_items = items@.map_values(|item: ListMutationItem<Key>| item@);
        match find_next_common_item(old_list, new_list, cursor_old, cursor_new) {
            Some((next_old, next_new)) => {
                proof {
                    let (ci, cj) = choose|i: int, j: int|
                        is_next_common(ok, nk, cursor_old as int, cursor_new as int, i, j);
                    lemma_next_common_unique(
                        ok,
                        nk,
                        cursor_old as int,
                        cursor_new as int,
                        ci,
                        cj,
                        next_old as int,
                        next_new as int,
                    );
                }
                if cursor_new != next_new || cursor_old != next_old {
                    let inserted_keys = collect_keys(new_list, cursor_new, next_new);
                    let item = ListMutationItem {
                        index: cursor_old,
                        preserved_count_before,
                        removed_count: next_old - cursor_old,
                        inserted_keys,
                    };
                    items.push(item);
                    proof {
                        assert(items@.map_values(|item: ListMutationItem<Key>| item@) =~= prev_items
                            + seq![item@]);
                        assert(item@ == step(
                            cursor_old as int,
                            preserved_count_before as nat,
                            next_old - cursor_old,
                            nk.subrange(cursor_new as int, next_new as int),
                        ));
                    }
                    preserved_count_before = 1;
                } else {
                    preserved_count_before = preserved_count_before + 1;
                }
                cursor_old = next_old + 1;
                cursor_new = next_new + 1;
            },
            None => {
                let inserted_keys = collect_keys(new_list, cursor_new, new_list.len());
                let item = ListMutationItem {
                    index: cursor_old,
                    preserved_count_before,
                    removed_count: old_list.len() - cursor_old,
                    inserted_keys,
                };
                items.push(item);
                proof {
                    assert(!exists|i: int, j: int|
                        is_next_common(ok, nk, cursor_old as int, cursor_new as int, i, j));
                    assert(items@.map_values(|item: ListMutationItem<Key>| item@) =~= prev_items
                        + seq![item@]);
                }
                return ListMutation { items };
            },
        }
    }
}

} // verus!
