use vstd::prelude::*;

verus! {

/// The look of a plain clickable area: a button drawn without decoration.
#[derive(Debug, Clone, Copy, PartialEq, Eq, Structural)]
pub struct Clickable;

} // verus!
