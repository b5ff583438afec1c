//! Events of buttons.
use vstd::prelude::*;

use crate::glue::{taken, Action, DruidAppData, Id};

verus! {

/// Event emitted when a button is clicked.
#[derive(Debug, Clone, Default, PartialEq)]
pub struct ButtonClick;

/// Consumes the pending action of the button `id`: a click becomes a
/// [`ButtonClick`]; any other action is dropped.
pub fn button_local_event(app_data: &mut DruidAppData, id: Id) -> (event: Option<ButtonClick>)
    ensures
        final(app_data)@ == taken(old(app_data)@, id.0).1,
        event == match taken(old(app_data)@, id.0).0 {
            Some(Action::Clicked) => Some(ButtonClick),
            _ => None,
        },
{
    match app_data.dequeue_action(id) {
        Some(Action::Clicked) => Some(ButtonClick),
        _ => None,
    }
}

} // verus!
