//! Events of checkboxes.
use vstd::prelude::*;

use crate::glue::{taken, Action, DruidAppData, Id};

verus! {

/// Event emitted when a checkbox is clicked; holds the box's value after the click.
#[derive(Debug, Clone, Default, PartialEq)]
pub struct Toggled {
    pub new_value: bool,
}

/// Consumes the pending action of the checkbox `id`, whose widget now holds
/// `value`: a click becomes [`Toggled`] with that value; any other action is
/// dropped.
pub fn checkbox_local_event(app_data: &mut DruidAppData, id: Id, value: bool) -> (event: Option<
    Toggled,
>)
    ensures
        final(app_data)@ == taken(old(app_data)@, id.0).1,
        event == match taken(old(app_data)@, id.0).0 {
            Some(Action::Clicked) => Some(Toggled { new_value: value }),
            _ => None,
        },
{
    match app_data.dequeue_action(id) {
        Some(Action::Clicked) => Some(Toggled { new_value: value }),
        _ => None,
    }
}

} // verus!
