//! Marker types shared by components and elements.
use vstd::prelude::*;

verus! {

/// Placeholder type for elements that don't raise events.
///
/// It has no values, like `!`: its only field is of std's uninhabited `Infallible`.
#[derive(Debug, Clone, Copy, PartialEq, Eq, Hash)]
pub struct NoEvent(core::convert::Infallible);

/// Placeholder type for elements that don't require their component's local state.
#[derive(Default, Debug, Clone, PartialEq, Eq, Hash)]
pub struct NoState;

/// Marker type used by component scaffolding.
///
/// It stores no state; it is only passed around as a concise way to bind the
/// event type and the local state type of a component.
pub struct Metadata<ComponentEvent, ComponentState> {
    _marker: core::marker::PhantomData<(ComponentEvent, ComponentState)>,
}

impl<ComponentEvent, ComponentState> Metadata<ComponentEvent, ComponentState> {
    /// Creates the (only) metadata value for these two types.
    pub fn new() -> (md: Self)
        ensures
            md == Self::spec_new(),
    {
        Metadata { _marker: core::marker::PhantomData }
    }

    /// The only value of this type.
    pub closed spec fn spec_new() -> Self {
        Metadata { _marker: core::marker::PhantomData }
    }
}

impl<ComponentEvent, ComponentState> Clone for Metadata<ComponentEvent, ComponentState> {
    fn clone(&self) -> (md: Self)
        ensures
            md == *self,
    {
        Metadata { _marker: core::marker::PhantomData }
    }
}

impl<ComponentEvent, ComponentState> Copy for Metadata<ComponentEvent, ComponentState> {}

impl<ComponentEvent, ComponentState> Default for Metadata<ComponentEvent, ComponentState> {
    fn default() -> (md: Self)
        ensures
            md == Self::spec_new(),
    {
        Metadata { _marker: core::marker::PhantomData }
    }
}

} // verus!
