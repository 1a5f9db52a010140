//! Menu items as the screens hold them: sold by the piece, sold by value,
//! or listed with a stock flag.
use vstd::prelude::*;
use vstd::std_specs::cmp::PartialEqSpec;
pub use crate::items::Category;

verus! {

/// How an item is held: sold by value, sold by the piece with an amount, or
/// listed with a stock flag.
#[derive(Debug, Clone, Copy, PartialEq, Eq, Structural)]
pub enum ItemKind {
    Special,
    Regular { num: i32 },
    InStock(bool),
}

/// An item as a screen holds it.
#[derive(Debug)]
pub struct Item {
    pub name: String,
    pub price: i32,
    pub category: Category,
    kind: ItemKind,
}

/// The view of an item: name, price, category, kind.
pub type ItemView = (Seq<char>, i32, Category, ItemKind);

impl View for Item {
    type V = ItemView;

    closed spec fn view(&self) -> ItemView {
        (self.name@, self.price, self.category, self.kind)
    }
}

/// What an item held on a receipt is worth: amount times price for one sold
/// by the piece, its price otherwise.
pub open spec fn price_total_of(i: ItemView) -> int {
    match i.3 {
        ItemKind::Regular { num } => num * i.1,
        _ => i.1 as int,
    }
}

/// Whether two items count as the same on a receipt: same name, and same
/// price unless the first is sold by value.
pub open spec fn same_item(a: ItemView, b: ItemView) -> bool {
    a.0 == b.0 && (a.1 == b.1 || a.3 is Special)
}

/// Whether two items can be added up: the same item, both sold by value or
/// both by the piece, without overflow.
pub open spec fn addable(a: ItemView, b: ItemView) -> bool {
    &&& same_item(a, b)
    &&& match (a.3, b.3) {
        (ItemKind::Special, ItemKind::Special) => i32::MIN <= a.1 + b.1 <= i32::MAX,
        (ItemKind::Regular { num }, ItemKind::Regular { num: num2 }) => i32::MIN <= num + num2 <= i32::MAX,
        _ => false,
    }
}

/// The sum of two items that can be added up: the first one's name and
/// category; for items sold by value, the prices add up; for items sold by
/// the piece, the amounts do.
pub open spec fn sum_of(a: ItemView, b: ItemView) -> ItemView {
    (
        a.0,
        if a.3 is Special { (a.1 + b.1) as i32 } else { a.1 },
        a.2,
        match (a.3, b.3) {
            (ItemKind::Regular { num }, ItemKind::Regular { num: num2 }) => ItemKind::Regular { num: (num + num2) as i32 },
            _ => ItemKind::Special,
        },
    )
}

impl Clone for Item {
    /// A copy of the item.
    fn clone(&self) -> (c: Self)
        ensures
            c@ == self@,
    {
        Item { name: self.name.clone(), price: self.price, category: self.category, kind: self.kind }
    }
}

impl Item {
    /// A menu item: sold by value where `special`, otherwise sold by the
    /// piece with none on the receipt yet.
    pub fn new_menu(name: String, price: i32, category: Category, special: bool) -> (i: Item)
        ensures
            i@ == (name@, price, category, if special { ItemKind::Special } else { ItemKind::Regular { num: 0 } }),
    {
        Item { name, price, category, kind: if special { ItemKind::Special } else { ItemKind::Regular { num: 0 } } }
    }

    /// A sold item: sold by value where `special`, otherwise `amount` pieces;
    /// its category does not matter and is `Other`.
    pub fn new_sales(name: String, price: i32, special: bool, amount: i32) -> (i: Item)
        ensures
            i@ == (name@, price, Category::Other, if special { ItemKind::Special } else { ItemKind::Regular { num: amount } }),
    {
        Item {
            name,
            price,
            category: Category::Other,
            kind: if special { ItemKind::Special } else { ItemKind::Regular { num: amount } },
        }
    }

    /// An item listed with its stock flag.
    pub fn new_stock(name: String, price: i32, category: Category, available: bool) -> (i: Item)
        ensures
            i@ == (name@, price, category, ItemKind::InStock(available)),
    {
        Item { name, price, category, kind: ItemKind::InStock(available) }
    }

    /// Whether the item is sold by value.
    pub fn is_special(&self) -> (b: bool)
        ensures
            b == (self@.3 is Special),
    {
        match self.kind {
            ItemKind::Special => true,
            _ => false,
        }
    }

    /// The amount, for an item sold by the piece.
    pub fn has_amount(&self) -> (a: Option<i32>)
        ensures
            a == (match self@.3 {
                ItemKind::Regular { num } => Some(num),
                _ => None::<i32>,
            }),
    {
        match self.kind {
            ItemKind::Regular { num } => Some(num),
            _ => None,
        }
    }

    /// Sets the amount of an item sold by the piece.
    pub fn set_amount(&mut self, num: i32)
        requires
            old(self)@.3 is Regular,
        ensures
            final(self)@ == (old(self)@.0, old(self)@.1, old(self)@.2, ItemKind::Regular { num }),
    {
        self.kind = ItemKind::Regular { num };
    }

    /// What the item is worth on a receipt (see `price_total_of`).
    pub fn price_total(&self) -> (t: i32)
        requires
            i32::MIN <= price_total_of(self@) <= i32::MAX,
        ensures
            t == price_total_of(self@),
    {
        match self.kind {
            ItemKind::Regular { num } => num * self.price,
            _ => self.price,
        }
    }

    /// Whether the item is in stock: all but items listed as out of stock.
    pub fn is_in_stock(&self) -> (b: bool)
        ensures
            b == (self@.3 != ItemKind::InStock(false)),
    {
        match self.kind {
            ItemKind::InStock(false) => false,
            _ => true,
        }
    }

    /// Sets the stock flag of an item listed with one; other items stay.
    pub fn in_stock(&mut self, a: bool)
        ensures
            old(self)@.3 is InStock ==> final(self)@ == (old(self)@.0, old(self)@.1, old(self)@.2, ItemKind::InStock(a)),
            !(old(self)@.3 is InStock) ==> final(self)@ == old(self)@,
    {
        if let ItemKind::InStock(_) = self.kind {
            self.kind = ItemKind::InStock(a);
        }
    }
}

impl PartialEq for Item {
    /// Whether the items count as the same on a receipt (see `same_item`).
    fn eq(&self, rhs: &Self) -> (b: bool) {
        self.name == rhs.name && (self.price == rhs.price || self.is_special())
    }
}

impl vstd::std_specs::cmp::PartialEqSpecImpl for Item {
    open spec fn obeys_eq_spec() -> bool {
        true
    }

    open spec fn eq_spec(&self, rhs: &Item) -> bool {
        same_item(self@, rhs@)
    }
}

impl Item {
    /// Two of the same item made one, with their amounts (or, for items sold
    /// by value, their prices) added up.
    pub fn add(self, rhs: Self) -> (r: Self)
        requires
            addable(self@, rhs@),
        ensures
            r@ == sum_of(self@, rhs@),
    {
        let special = self.is_special();
        let price = if special { self.price + rhs.price } else { self.price };
        let kind = match (self.kind, rhs.kind) {
            (ItemKind::Regular { num }, ItemKind::Regular { num: num2 }) => ItemKind::Regular { num: num + num2 },
            _ => ItemKind::Special,
        };
        Item { name: self.name, price, category: self.category, kind }
    }
}

impl Item {
    /// Adds the other item to this one (see `add`).
    pub fn add_assign(&mut self, rhs: Self)
        requires
            addable(old(self)@, rhs@),
        ensures
            final(self)@ == sum_of(old(self)@, rhs@),
    {
        *self = self.clone().add(rhs);
    }
}

/// What two items added up are worth is what each is worth, added.
pub proof fn lemma_add_price_total(a: ItemView, b: ItemView)
    requires
        addable(a, b),
    ensures
        price_total_of(sum_of(a, b)) == price_total_of(a) + price_total_of(b),
{
    match (a.3, b.3) {
        (ItemKind::Regular { num }, ItemKind::Regular { num: num2 }) => {
            assert(a.1 == b.1);
            assert((num + num2) * a.1 == num * a.1 + num2 * a.1) by (nonlinear_arith);
        },
        _ => {},
    }
}

/// Two screen items are the same item only if they have the same name; with
/// the same name they are the same where the prices agree, or where the
/// first is sold by value; an item sold by the piece is never the same as
/// one at another price. `==` on items says exactly this.
pub proof fn lemma_same_item_by_name(a: Item, b: Item)
    ensures
        a@.0 != b@.0 ==> !a.eq_spec(&b),
        a@.0 == b@.0 && a@.1 == b@.1 ==> a.eq_spec(&b),
        a@.0 == b@.0 && a@.3 is Special ==> a.eq_spec(&b),
        !(a@.3 is Special) && a@.1 != b@.1 ==> !a.eq_spec(&b),
        a.eq_spec(&b) == same_item(a@, b@),
        a@.0 != b@.0 ==> !same_item(a@, b@),
        a@.0 == b@.0 && a@.1 == b@.1 ==> same_item(a@, b@),
        a@.0 == b@.0 && a@.3 is Special ==> same_item(a@, b@),
        !(a@.3 is Special) && a@.1 != b@.1 ==> !same_item(a@, b@),
{
}

} // verus!
