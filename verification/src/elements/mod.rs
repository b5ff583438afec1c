//! Elements, and the logic that updates them.

pub mod apply_mutation;
pub mod button;
pub mod checkbox;
pub mod clickable;
pub mod compute_diff;
pub mod empty;
pub mod mock_component;
pub mod textbox;
pub mod with_event;

pub use apply_mutation::{apply_mutation, match_list_items, plan_list_update};
pub use button::{button_local_event, ButtonClick};
pub use checkbox::{checkbox_local_event, Toggled};
pub use clickable::{clickable_local_event, ClickEvent};
pub use compute_diff::{compute_diff, DiffKey, ListMutation, ListMutationItem};
pub use empty::{EmptyElement, EmptyElementData};
pub use mock_component::{MockComponent, MockComponentData, MockState};
pub use textbox::{textbox_local_event, TextChanged};
pub use with_event::{bubble_event_up, OptionOrUnit, ParentEvent};

