//! Menu items typed by how they are held: `Item<Sales>` on sale, and
//! `Item<Stock>` in the stock list.
use vstd::prelude::*;
use vstd::std_specs::cmp::PartialEqSpec;
pub use crate::items::Category;

pub mod kind;

pub use kind::{ItemKind, Sales, Stock};

verus! {

/// A menu item held as `K`.
#[derive(Debug)]
pub struct Item<K: ItemKind> {
    pub name: String,
    pub price: i32,
    pub category: Category,
    pub kind: K,
}

/// An item prepared for display: its fields, and the message it sends when
/// pressed, if any.
pub struct ItemWidget<K: ItemKind, M> {
    name: String,
    price: i32,
    category: Category,
    kind: K,
    msg: Option<M>,
}

/// The view of an item widget: name, price, category, kind, message.
pub type ItemWidgetView<K, M> = (Seq<char>, i32, Category, K, Option<M>);

impl<K: ItemKind, M> View for ItemWidget<K, M> {
    type V = ItemWidgetView<K, M>;

    closed spec fn view(&self) -> ItemWidgetView<K, M> {
        (self.name@, self.price, self.category, self.kind, self.msg)
    }
}

impl<K: ItemKind> Clone for Item<K> {
    /// A copy of the item; the kind is copied by its own `clone`.
    fn clone(&self) -> (c: Self)
        ensures
            c.name@ == self.name@,
            c.price == self.price,
            c.category == self.category,
            cloned(self.kind, c.kind),
    {
        Item { name: self.name.clone(), price: self.price, category: self.category, kind: self.kind.clone() }
    }
}

/// What an item on sale is worth: amount times price for one sold by the
/// piece, its price for one sold by value.
pub open spec fn sales_total(price: i32, kind: Sales) -> int {
    match kind {
        Sales::Regular { num } => num * price,
        Sales::Special => price as int,
    }
}

impl Item<Sales> {
    /// A menu item: sold by value where `special`, otherwise by the piece
    /// with none sold yet.
    pub fn new_menu(name: String, price: i32, category: Category, special: bool) -> (i: Self)
        ensures
            i.name@ == name@,
            i.price == price,
            i.category == category,
            i.kind == if special { Sales::Special } else { Sales::Regular { num: 0 } },
    {
        Item { name, price, category, kind: if special { Sales::Special } else { Sales::Regular { num: 0 } } }
    }

    /// A sold item: sold by value where `special`, otherwise `amount`
    /// pieces; its category does not matter and is `Other`.
    pub fn new_sales(name: String, price: i32, special: bool, amount: i32) -> (i: Self)
        ensures
            i.name@ == name@,
            i.price == price,
            i.category == Category::Other,
            i.kind == if special { Sales::Special } else { Sales::Regular { num: amount } },
    {
        Item {
            name,
            price,
            category: Category::Other,
            kind: if special { Sales::Special } else { Sales::Regular { num: amount } },
        }
    }

    /// Whether the item is sold by value.
    pub fn is_special(&self) -> (b: bool)
        ensures
            b == (self.kind is Special),
    {
        match self.kind {
            Sales::Special => true,
            _ => false,
        }
    }

    /// The amount, for an item sold by the piece.
    pub fn has_amount(&self) -> (a: Option<i32>)
        ensures
            a == (match self.kind {
                Sales::Regular { num } => Some(num),
                _ => None::<i32>,
            }),
    {
        match self.kind {
            Sales::Regular { num } => Some(num),
            _ => None,
        }
    }

    /// Sets the amount of an item sold by the piece.
    pub fn set_amount(&mut self, num: i32)
        requires
            old(self).kind is Regular,
        ensures
            final(self).name == old(self).name,
            final(self).price == old(self).price,
            final(self).category == old(self).category,
            final(self).kind == (Sales::Regular { num }),
    {
        self.kind = Sales::Regular { num };
    }

    /// What the item is worth (see `sales_total`).
    pub fn price_total(&self) -> (t: i32)
        requires
            i32::MIN <= sales_total(self.price, self.kind) <= i32::MAX,
        ensures
            t == sales_total(self.price, self.kind),
    {
        match self.kind {
            Sales::Regular { num } => num * self.price,
            Sales::Special => self.price,
        }
    }

    /// Two of the same item made one: for items sold by value the prices add
    /// up, for items sold by the piece the amounts do; the first item's name
    /// and category stay.
    pub fn add(self, rhs: Self) -> (r: Self)
        requires
            self.name@ == rhs.name@ && (self.price == rhs.price || self.kind is Special),
            match (self.kind, rhs.kind) {
                (Sales::Special, Sales::Special) => i32::MIN <= self.price + rhs.price <= i32::MAX,
                (Sales::Regular { num }, Sales::Regular { num: num2 }) => i32::MIN <= num + num2 <= i32::MAX,
                _ => false,
            },
        ensures
            r.name@ == self.name@,
            r.category == self.category,
            r.price == if self.kind is Special { (self.price + rhs.price) as i32 } else { self.price },
            r.kind == match (self.kind, rhs.kind) {
                (Sales::Regular { num }, Sales::Regular { num: num2 }) => Sales::Regular { num: (num + num2) as i32 },
                _ => Sales::Special,
            },
    {
        let price = if self.is_special() { self.price + rhs.price } else { self.price };
        let kind = match (self.kind, rhs.kind) {
            (Sales::Regular { num }, Sales::Regular { num: num2 }) => Sales::Regular { num: num + num2 },
            _ => Sales::Special,
        };
        Item { name: self.name, price, category: self.category, kind }
    }
}

impl PartialEq for Item<Sales> {
    /// Whether the items count as the same: same name, and same price unless
    /// the first is sold by value.
    fn eq(&self, rhs: &Self) -> (b: bool) {
        self.name == rhs.name && (self.price == rhs.price || self.is_special())
    }
}

impl vstd::std_specs::cmp::PartialEqSpecImpl for Item<Sales> {
    open spec fn obeys_eq_spec() -> bool {
        true
    }

    open spec fn eq_spec(&self, rhs: &Item<Sales>) -> bool {
        self.name@ == rhs.name@ && (self.price == rhs.price || self.kind is Special)
    }
}

impl Item<Stock> {
    /// An item of the stock list, at position 0 until placed.
    pub fn new_stock(name: String, price: i32, category: Category, available: bool) -> (i: Self)
        ensures
            i.name@ == name@,
            i.price == price,
            i.category == category,
            i.kind == (Stock { idx: 0, available }),
    {
        Item { name, price, category, kind: Stock { idx: 0, available } }
    }

    /// The item placed at position `idx` of the list.
    pub fn with_index(self, idx: usize) -> (i: Self)
        ensures
            i.name == self.name,
            i.price == self.price,
            i.category == self.category,
            i.kind == (Stock { idx, available: self.kind.available }),
    {
        let mut s = self;
        s.kind.idx = idx;
        s
    }

    /// Whether the item is in stock.
    pub fn is_in_stock(&self) -> (b: bool)
        ensures
            b == self.kind.available,
    {
        self.kind.available
    }

    /// Sets whether the item is in stock.
    pub fn in_stock(&mut self, a: bool)
        ensures
            final(self).name == old(self).name,
            final(self).price == old(self).price,
            final(self).category == old(self).category,
            final(self).kind == (Stock { idx: old(self).kind.idx, available: a }),
    {
        self.kind.available = a;
    }
}

impl<K: ItemKind> Item<K> {
    /// The item prepared for display, sending nothing when pressed.
    pub fn as_widget<M>(&self) -> (w: ItemWidget<K, M>)
        ensures
            w@.0 == self.name@,
            w@.1 == self.price,
            w@.2 == self.category,
            cloned(self.kind, w@.3),
            w@.4 is None,
    {
        let c = self.clone();
        ItemWidget { name: c.name, price: c.price, category: c.category, kind: c.kind, msg: None }
    }

    /// The item prepared for display, sending the message `msg` makes from
    /// a copy of the item when pressed.
    pub fn on_press<F, M>(&self, msg: F) -> (w: ItemWidget<K, M>)
        where
            F: FnOnce(Self) -> M,
        requires
            forall|c: Self| msg.requires((c,)),
        ensures
            w@.0 == self.name@,
            w@.1 == self.price,
            w@.2 == self.category,
            cloned(self.kind, w@.3),
            w@.4 is Some,
            exists|c: Self| c.name@ == self.name@ && c.price == self.price
                && c.category == self.category && cloned(self.kind, c.kind) && #[trigger] msg.ensures((c,), w@.4->0),
    {
        let mut comp = self.as_widget();
        let c = self.clone();
        let ghost cg = c;
        let m = msg(c);
        assert(msg.ensures((cg,), m));
        comp.msg = Some(m);
        assert(comp@.4->0 == m);
        assert(cg.name@ == self.name@ && cg.price == self.price && cg.category == self.category && cloned(self.kind, cg.kind));
        comp
    }
}

/// Two items on sale are the same item only if they have the same name;
/// with the same name they are the same where the prices agree, or where
/// the first is sold by value; an item sold by the piece is never the same as
/// one at another price.
pub proof fn lemma_sales_item_eq_by_name(a: Item<Sales>, b: Item<Sales>)
    ensures
        a.name@ != b.name@ ==> !a.eq_spec(&b),
        a.name@ == b.name@ && a.price == b.price ==> a.eq_spec(&b),
        a.name@ == b.name@ && a.kind is Special ==> a.eq_spec(&b),
        !(a.kind is Special) && a.price != b.price ==> !a.eq_spec(&b),
{
}

} // verus!
