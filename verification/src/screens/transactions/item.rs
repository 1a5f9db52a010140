use vstd::prelude::*;

verus! {

/// A line of a receipt as the older screens hold it: an item sold by the
/// piece with its unit price and amount, or an item sold by value with the
/// sum it was sold for.
#[derive(Debug)]
pub enum Item {
    Regular { name: String, price: i32, num: i32 },
    Special { name: String, price: i32 },
}

/// The view of a line: name, price, and the amount for one sold by the piece
/// (none for one sold by value).
pub type LineView = (Seq<char>, i32, Option<i32>);

impl View for Item {
    type V = LineView;

    open spec fn view(&self) -> LineView {
        match self {
            Item::Regular { name, price, num } => (name@, *price, Some(*num)),
            Item::Special { name, price } => (name@, *price, None),
        }
    }
}

/// The amount of a line: its amount where sold by the piece, its price
/// where sold by value.
pub open spec fn line_num(l: LineView) -> i32 {
    match l.2 {
        Some(n) => n,
        None => l.1,
    }
}

/// What a line is worth: amount times price where sold by the piece, its
/// price where sold by value.
pub open spec fn line_total(l: LineView) -> int {
    match l.2 {
        Some(n) => n * l.1,
        None => l.1 as int,
    }
}

impl Clone for Item {
    /// A copy of the line.
    fn clone(&self) -> (c: Self)
        ensures
            c@ == self@,
    {
        match self {
            Item::Regular { name, price, num } => Item::Regular { name: name.clone(), price: *price, num: *num },
            Item::Special { name, price } => Item::Special { name: name.clone(), price: *price },
        }
    }
}

impl Item {
    /// The line's name.
    pub fn name(&self) -> (n: String)
        ensures
            n@ == self@.0,
    {
        match self {
            Item::Regular { name, .. } | Item::Special { name, .. } => name.clone(),
        }
    }

    /// The line's price.
    pub fn price(&self) -> (p: i32)
        ensures
            p == self@.1,
    {
        match self {
            Item::Regular { price, .. } | Item::Special { price, .. } => *price,
        }
    }

    /// The line's amount (see `line_num`).
    pub fn num(&self) -> (n: i32)
        ensures
            n == line_num(self@),
    {
        match self {
            Item::Regular { num, .. } => *num,
            Item::Special { price, .. } => *price,
        }
    }

    /// What the line is worth (see `line_total`).
    pub fn price_total(&self) -> (t: i32)
        requires
            i32::MIN <= line_total(self@) <= i32::MAX,
        ensures
            t == line_total(self@),
    {
        match self {
            Item::Regular { price, num, .. } => *num * *price,
            Item::Special { price, .. } => *price,
        }
    }
}

} // verus!
