use vstd::prelude::*;

verus! {

/// What an item is held as: on sale, or in the stock list.
pub trait ItemKind: Clone {
}

/// An item on sale: sold by value, or by the piece with an amount.
#[derive(Debug, Clone, Copy, PartialEq, Eq, Structural)]
pub enum Sales {
    Special,
    Regular { num: i32 },
}

impl ItemKind for Sales {
}

/// An item in the stock list: its position in the list, and whether it is
/// in stock.
#[derive(Debug, Clone, Copy, PartialEq, Eq, Structural)]
pub struct Stock {
    pub idx: usize,
    pub available: bool,
}

impl ItemKind for Stock {
}

} // verus!
