//! Events of text boxes.
use vstd::prelude::*;

use crate::glue::{taken, Action, DruidAppData, Id};

verus! {

/// Event emitted when text is entered or edited in a text box; holds the new
/// content of the box.
#[derive(Debug, Clone, Default, PartialEq)]
pub struct TextChanged {
    pub new_content: String,
}

/// Consumes the pending action of the text box `id`: a text change becomes
/// [`TextChanged`] with the new text; any other action is dropped.
pub fn textbox_local_event(app_data: &mut DruidAppData, id: Id) -> (event: Option<TextChanged>)
    ensures
        final(app_data)@ == taken(old(app_data)@, id.0).1,
        event == match taken(old(app_data)@, id.0).0 {
            Some(Action::TextChanged(text)) => Some(TextChanged { new_content: text }),
            _ => None,
        },
{
    match app_data.dequeue_action(id) {
        Some(Action::TextChanged(text)) => Some(TextChanged { new_content: text }),
        _ => None,
    }
}

} // verus!
