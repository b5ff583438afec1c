//! Conversions used when the events of a child element are handed to its
//! parent component.
use vstd::prelude::*;
use vstd::std_specs::convert::{FromSpec, TryIntoSpec};

verus! {

/// What a callback returns: an optional event (`Option<T>`) or nothing (`()`).
pub trait OptionOrUnit<T>: Sized {
    /// The optional event that the returned value stands for.
    spec fn spec_to_option(self) -> Option<T>;

    fn to_option(self) -> (event: Option<T>)
        ensures
            event == self.spec_to_option(),
    ;
}

impl<T> OptionOrUnit<T> for Option<T> {
    open spec fn spec_to_option(self) -> Option<T> {
        self
    }

    fn to_option(self) -> (event: Option<T>) {
        self
    }
}

impl<T> OptionOrUnit<T> for () {
    open spec fn spec_to_option(self) -> Option<T> {
        None
    }

    fn to_option(self) -> (event: Option<T>) {
        None
    }
}

/// An event type of a parent component, into which the events of a child
/// convert (`From`), and back (`TryInto`).
pub trait ParentEvent<Child>: Sized {
    fn from_child_event(child: Child) -> Self;

    fn into_child_event(self) -> Option<Child>;
}

impl<Parent, Child> ParentEvent<Child> for Parent where
    Parent: core::convert::TryInto<Child>,
    Parent: core::convert::From<Child>,
 {
    fn from_child_event(child: Child) -> (parent: Self)
        ensures
            <Parent as FromSpec<Child>>::obeys_from_spec() ==> parent == <Parent as FromSpec<
                Child,
            >>::from_spec(child),
    {
        Self::from(child)
    }

    fn into_child_event(self) -> (child: Option<Child>)
        ensures
            <Parent as TryIntoSpec<Child>>::obeys_try_into_spec() ==> child == match <Parent as TryIntoSpec<
                Child,
            >>::try_into_spec(self) {
                Ok(c) => Some(c),
                Err(_) => None,
            },
    {
        self.try_into().ok()
    }
}

/// Callback that passes every event on, unchanged, and leaves the state alone.
pub fn bubble_event_up<State, Event>(_state: &mut State, event: Event) -> (passed: Option<Event>)
    ensures
        passed == Some(event),
        *final(_state) == *old(_state),
{
    Some(event)
}

} // verus!
