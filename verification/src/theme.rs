use vstd::prelude::*;

verus! {

/// The look of the tab bar: the active tab white, the others grey.
#[derive(Debug, Clone, Copy, PartialEq, Eq, Structural)]
pub struct TabStyle;

} // verus!
