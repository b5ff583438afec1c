//! Events of clickable areas.
use vstd::prelude::*;

use crate::glue::{taken, Action, DruidAppData, Id};

verus! {

/// Event emitted when a clickable area is clicked.
#[derive(Debug, Clone, Default, PartialEq)]
pub struct ClickEvent;

/// Consumes the pending action of the clickable widget `id`: a click becomes a
/// [`ClickEvent`]; any other action is dropped.
pub fn clickable_local_event(app_data: &mut DruidAppData, id: Id) -> (event: Option<ClickEvent>)
    ensures
        final(app_data)@ == taken(old(app_data)@, id.0).1,
        event == match taken(old(app_data)@, id.0).0 {
            Some(Action::Clicked) => Some(ClickEvent),
            _ => None,
        },
{
    match app_data.dequeue_action(id) {
        Some(Action::Clicked) => Some(ClickEvent),
        _ => None,
    }
}

} // verus!
