//! Contexts handed to components and to event handlers.
use vstd::prelude::*;

use crate::metadata::Metadata;

verus! {

/// Context passed to a component when it is built.
///
/// `local_state` is the local state of the component instance, or `None` when the
/// component's root element isn't a component output, which is what holds a
/// local state.
pub struct CompCtx<'a, ComponentState> {
    pub called_use_metadata: bool,
    pub local_state: Option<&'a ComponentState>,
}

impl<'a, ComponentState> CompCtx<'a, ComponentState> {
    /// Returns the metadata of the component, and records that it was handed out.
    ///
    /// It can only be called once per component: a second call is an error. After
    /// a call, `called_use_metadata` is set, which the next call requires unset.
    pub fn use_metadata<ComponentEvent>(&mut self) -> (md: Metadata<ComponentEvent, ComponentState>)
        requires
            !old(self).called_use_metadata,
        ensures
            md == Metadata::<ComponentEvent, ComponentState>::spec_new(),
            final(self).called_use_metadata,
            final(self).local_state == old(self).local_state,
    {
        self.called_use_metadata = true;
        Metadata::new()
    }

    /// Returns the local state of the current component instance.
    ///
    /// It is an error to call it for a component whose root element isn't a
    /// component output (one whose context holds no local state).
    pub fn get_local_state<ComponentEvent>(
        &self,
        md: Metadata<ComponentEvent, ComponentState>,
    ) -> (state: &'a ComponentState)
        requires
            self.local_state is Some,
        ensures
            *state == *self.local_state->0,
    {
        match self.local_state {
            Some(state) => state,
            None => vstd::pervasive::unreached(),
        }
    }
}

/// Context passed to event handlers: the queue of events that the component
/// emits, and the component's local state.
pub struct ProcessEventCtx<'e, 's, ComponentEvent, ComponentState> {
    pub event_queue: &'e mut Vec<ComponentEvent>,
    pub state: &'s mut ComponentState,
}

impl<'e, 's, ComponentEvent, ComponentState> ProcessEventCtx<'e, 's, ComponentEvent, ComponentState> {
    /// The queue of events that the component emits.
    pub fn event_queue(&mut self, md: Metadata<ComponentEvent, ComponentState>) -> (queue: &mut Vec<
        ComponentEvent,
    >)
        ensures
            *queue == *old(self).event_queue,
            *final(self).event_queue == *final(queue),
            *final(self).state == *old(self).state,
            *final(final(self).event_queue) == *final(old(self).event_queue),
            *final(final(self).state) == *final(old(self).state),
    {
        self.event_queue
    }

    /// The local state of the component.
    pub fn state(&mut self, md: Metadata<ComponentEvent, ComponentState>) -> (state: &mut ComponentState)
        ensures
            *state == *old(self).state,
            *final(self).state == *final(state),
            *final(self).event_queue == *old(self).event_queue,
            *final(final(self).state) == *final(old(self).state),
            *final(final(self).event_queue) == *final(old(self).event_queue),
    {
        self.state
    }
}


} // verus!
