use vstd::prelude::*;

verus! {

/// A square button of the keypad's size, showing a text or an icon.
#[derive(Debug, Clone, Copy, PartialEq, Eq, Structural)]
pub struct SquareButton;

} // verus!
