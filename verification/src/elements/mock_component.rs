//! A component with a single button and some local state, used to test element
//! identity and the stability of local state.
use vstd::prelude::*;

use crate::glue::{taken, Action, DruidAppData, Id};

verus! {

/// Mocks a component with a single button, and some local state.
#[derive(Default, Clone, Debug, PartialEq, Eq, Hash)]
pub struct MockComponent {
    pub reserved_widget_id: Option<Id>,
}

/// What a [`MockComponent`] builds.
#[derive(Default, Clone, Debug, PartialEq, Eq, Hash)]
pub struct MockComponentData {
    pub reserved_widget_id: Option<Id>,
    pub clicks: u32,
}

/// Local state of [`MockComponent`].
#[derive(Clone, Debug, PartialEq, Eq, Hash)]
pub struct MockState {
    pub value: String,
    pub clicks: u32,
}

impl MockComponent {
    pub fn new() -> (component: Self)
        ensures
            component.reserved_widget_id is None,
    {
        MockComponent { reserved_widget_id: None }
    }

    /// The button created by this element always has the given id. If two widgets
    /// are created with the same id, unpredictable behavior may ensue.
    pub fn with_reserved_id(self, widget_id: Id) -> (component: Self)
        ensures
            component.reserved_widget_id == Some(widget_id),
    {
        MockComponent { reserved_widget_id: Some(widget_id), ..self }
    }

    /// Builds the component: the state is kept as it was, and the built data
    /// records its click count.
    pub fn build(self, prev_state: MockState) -> (built: (MockComponentData, MockState))
        ensures
            built.0 == (MockComponentData {
                reserved_widget_id: self.reserved_widget_id,
                clicks: prev_state.clicks,
            }),
            built.1 == prev_state,
    {
        let clicks = prev_state.clicks;
        (MockComponentData { reserved_widget_id: self.reserved_widget_id, clicks }, prev_state)
    }
}

impl MockComponentData {
    pub fn new(clicks: u32) -> (data: Self)
        ensures
            data == (MockComponentData { reserved_widget_id: None, clicks }),
    {
        MockComponentData { reserved_widget_id: None, clicks }
    }

    /// Consumes the pending action of the component's button `id`: a click adds
    /// one to the click count of `state`; any other action is dropped.
    pub fn process_event(&self, state: &mut MockState, app_data: &mut DruidAppData, id: Id)
        requires
            taken(old(app_data)@, id.0).0 == Some(Action::Clicked) ==> old(state).clicks < u32::MAX,
        ensures
            final(app_data)@ == taken(old(app_data)@, id.0).1,
            final(state).value == old(state).value,
            final(state).clicks == if taken(old(app_data)@, id.0).0 == Some(Action::Clicked) {
                old(state).clicks + 1
            } else {
                old(state).clicks as int
            },
    {
        if let Some(Action::Clicked) = app_data.dequeue_action(id) {
            state.clicks = state.clicks + 1;
        }
    }
}

impl MockState {
    pub fn new(text: &str) -> (state: MockState)
        ensures
            state.value@ == text@,
            state.clicks == 0,
    {
        MockState { value: text.to_owned(), clicks: 0 }
    }
}

impl Default for MockState {
    fn default() -> (state: MockState)
        ensures
            state.value@ == "default-value"@,
            state.clicks == 0,
    {
        MockState { value: "default-value".to_owned(), clicks: 0 }
    }
}

} // verus!
