//! Widget sequences that elements build.
use vstd::prelude::*;

verus! {

/// The sequence of widgets with no widget in it.
pub struct EmptySequence;

} // verus!
