//! Glue between widgets and elements: identifiers and the queue of actions that
//! widgets raise and elements consume.
use vstd::prelude::*;

use std::collections::HashMap;

verus! {

broadcast use vstd::std_specs::hash::group_hash_axioms;

/// An identifier for an element.
#[derive(Clone, Copy, Debug, PartialOrd, PartialEq, Ord, Eq, Hash)]
pub struct Id(pub usize);

/// Actions that can be produced by widgets.
#[derive(Clone, Debug, PartialEq)]
pub enum Action {
    Clicked,
    FutureResolved,
    TextChanged(String),
}

/// The application data shared with the widget toolkit: one pending action per
/// element id.
pub struct DruidAppData {
    actions: HashMap<usize, Action>,
}

impl View for DruidAppData {
    type V = Map<usize, Action>;

    closed spec fn view(&self) -> Map<usize, Action> {
        self.actions@
    }
}

/// The pending actions after `action` is queued for `id`.
pub open spec fn queued(actions: Map<usize, Action>, id: usize, action: Action) -> Map<usize, Action> {
    actions.insert(id, action)
}

/// What taking the pending action of `id` returns, and the pending actions left.
pub open spec fn taken(actions: Map<usize, Action>, id: usize) -> (Option<Action>, Map<usize, Action>) {
    (
        if actions.contains_key(id) {
            Some(actions[id])
        } else {
            None
        },
        actions.remove(id),
    )
}

impl DruidAppData {
    /// Application data with no pending action.
    pub fn new() -> (data: Self)
        ensures
            data@ == Map::<usize, Action>::empty(),
    {
        DruidAppData { actions: HashMap::new() }
    }

    /// Records `action` as the pending action of `id`, replacing any earlier one.
    pub fn queue_action(&mut self, id: Id, action: Action)
        ensures
            final(self)@ == queued(old(self)@, id.0, action),
    {
        self.actions.insert(id.0, action);
    }

    /// Takes the pending action of `id`, if there is one.
    pub fn dequeue_action(&mut self, id: Id) -> (action: Option<Action>)
        ensures
            (action, final(self)@) == taken(old(self)@, id.0),
            action == (if old(self)@.contains_key(id.0) {
                Some(old(self)@[id.0])
            } else {
                None::<Action>
            }),
            !final(self)@.contains_key(id.0),
            forall|k: usize|
                k != id.0 ==> (#[trigger] final(self)@.contains_key(k) == old(self)@.contains_key(k)),
            forall|k: usize|
                k != id.0 && old(self)@.contains_key(k) ==> #[trigger] final(self)@[k] == old(self)@[k],
            !old(self)@.contains_key(id.0) ==> final(self)@ == old(self)@,
    {
        if self.actions.contains_key(&id.0) {
            self.actions.remove(&id.0)
        } else {
            proof {
                assert(self.actions@.remove(id.0) =~= self.actions@);
            }
            None
        }
    }

    /// Reports whether `id` has a pending action.
    pub fn has_action(&self, id: Id) -> (pending: bool)
        ensures
            pending == self@.contains_key(id.0),
    {
        self.actions.contains_key(&id.0)
    }
}

impl Clone for DruidAppData {
    fn clone(&self) -> (copy: Self)
        ensures
            copy@ == self@,
    {
        DruidAppData { actions: self.actions.clone() }
    }
}

impl Default for DruidAppData {
    fn default() -> (data: Self)
        ensures
            data@ == Map::<usize, Action>::empty(),
    {
        DruidAppData::new()
    }
}

/// Context passed to elements while they process events.
pub struct GlobalEventCx<'a> {
    pub app_data: &'a mut DruidAppData,
}

impl<'a> GlobalEventCx<'a> {
    pub fn new(app_data: &'a mut DruidAppData) -> (cx: Self)
        ensures
            *cx.app_data == *old(app_data),
    {
        GlobalEventCx { app_data }
    }
}

/// Law: taking the action of an id touches no other id.
///
/// Taking the pending action of `id` returns it if there is one, and leaves
/// `id` with no pending action; every other id keeps its pending action, if
/// any, unchanged. When `id` has no pending action, nothing changes at all.
pub proof fn lemma_take_keeps_other_ids(before: Map<usize, Action>, id: usize)
    ensures
        taken(before, id).0 == (if before.contains_key(id) {
            Some(before[id])
        } else {
            None::<Action>
        }),
        !taken(before, id).1.contains_key(id),
        forall|k: usize|
            k != id ==> (#[trigger] taken(before, id).1.contains_key(k) == before.contains_key(k)),
        forall|k: usize|
            k != id && before.contains_key(k) ==> #[trigger] taken(before, id).1[k] == before[k],
        !before.contains_key(id) ==> taken(before, id).1 == before,
{
    if !before.contains_key(id) {
        assert(before.remove(id) =~= before);
    }
}

/// Law: taking the actions of two different ids, one after the other, gives
/// each the action that was pending for it before either was taken.
pub proof fn lemma_takes_of_different_ids_commute(before: Map<usize, Action>, first: usize, second: usize)
    requires
        first != second,
    ensures
        taken(taken(before, first).1, second).0 == (if before.contains_key(second) {
            Some(before[second])
        } else {
            None::<Action>
        }),
        taken(taken(before, first).1, second).1 == taken(taken(before, second).1, first).1,
{
    lemma_take_keeps_other_ids(before, first);
    assert(before.remove(first).remove(second) =~= before.remove(second).remove(first));
}

/// Law: a queued action is taken back exactly once.
///
/// Queueing `action` for `id` and then taking the action of `id` returns
/// `action`, and leaves the pending actions of the other ids as they were
/// before the queueing; taking the action of `id` again then returns nothing.
pub proof fn lemma_queue_then_dequeue(before: Map<usize, Action>, id: usize, action: Action)
    ensures
        taken(queued(before, id, action), id).0 == Some(action),
        taken(queued(before, id, action), id).1 == before.remove(id),
        taken(taken(queued(before, id, action), id).1, id).0 is None,
{
    assert(queued(before, id, action).remove(id) =~= before.remove(id));
}

} // verus!
