//! The element that stands for no widget at all.
use vstd::prelude::*;

verus! {

/// A placeholder element.
///
/// This does **not** represent a blank area or a zero-sized widget: it represents
/// the *absence* of a widget. A container holding it lays out exactly as if it
/// were not there.
///
/// ## Events
///
/// Doesn't emit events.
#[derive(Clone, Debug, Default, PartialEq, Eq, Hash)]
pub struct EmptyElement;

/// What an [`EmptyElement`] builds.
#[derive(Clone, Debug, Default, PartialEq, Eq, Hash)]
pub struct EmptyElementData;

impl EmptyElement {
    pub fn new() -> (element: EmptyElement)
        ensures
            element == EmptyElement,
    {
        EmptyElement
    }

    /// Builds the element; it keeps no state.
    pub fn build(self, _prev_state: ()) -> (built: (EmptyElementData, ()))
        ensures
            built == (EmptyElementData, ()),
    {
        (EmptyElementData, ())
    }
}

} // verus!
