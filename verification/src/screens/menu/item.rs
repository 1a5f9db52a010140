use vstd::prelude::*;
use crate::screens::transactions::item::{Item as Line, LineView, line_total};

verus! {

/// An item of the older menu screen: name, unit price, and whether it is
/// sold by value.
#[derive(Debug)]
pub struct Item {
    pub name: String,
    pub price: i32,
    pub special: bool,
}

impl Item {
    /// A menu item.
    pub fn new(name: &str, price: i32, special: bool) -> (i: Item)
        ensures
            i.name@ == name@,
            i.price == price,
            i.special == special,
    {
        Item { name: name.to_owned(), price, special }
    }

    /// The receipt line for selling `num` of the item: for one sold by
    /// value, a line worth `num` times its price; otherwise `num` pieces at
    /// its price.
    pub fn sell(&self, num: i32) -> (l: Line)
        requires
            self.special ==> i32::MIN <= self.price * num <= i32::MAX,
        ensures
            l@ == (if self.special {
                (self.name@, (self.price * num) as i32, None::<i32>)
            } else {
                (self.name@, self.price, Some(num))
            }),
    {
        if self.special {
            Line::Special { name: self.name.clone(), price: self.price * num }
        } else {
            Line::Regular { name: self.name.clone(), price: self.price, num }
        }
    }
}

/// Selling `num` of an item gives a line worth its price times `num`.
pub proof fn lemma_sell_total(name: Seq<char>, price: i32, special: bool, num: i32)
    requires
        special ==> i32::MIN <= price * num <= i32::MAX,
    ensures
        line_total(
            if special {
                (name, (price * num) as i32, None::<i32>)
            } else {
                (name, price, Some(num))
            },
        ) == price * num,
{
    assert(num * price == price * num) by (nonlinear_arith);
}

} // verus!
