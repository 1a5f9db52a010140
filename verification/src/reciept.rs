use vstd::prelude::*;
use indexmap::IndexMap;
use crate::lines::{
    has_key, keys_distinct, key_index, map_put, reciept_entries, reciept_new, reciept_len, reciept_get,
    reciept_insert,
};
use crate::payment::Payment;
pub use crate::screens::transactions::item::{Item, LineView, line_num, line_total};

verus! {

/// An older receipt: its lines keyed by name, its running total, and how it
/// is paid.
#[derive(Debug)]
pub struct Reciept {
    pub items: IndexMap<String, Item>,
    pub sum: i32,
    pub payment: Payment,
}

/// The line that `incoming` makes when added to the line `existing` of the
/// same name: amounts add up for a line sold by the piece, prices for one
/// sold by value; the name, and for pieces the unit price, stay.
pub open spec fn merged_line(existing: LineView, incoming: LineView) -> LineView {
    match existing.2 {
        Some(n) => (existing.0, existing.1, Some((n + line_num(incoming)) as i32)),
        None => (existing.0, (existing.1 + line_num(incoming)) as i32, None),
    }
}

/// Whether adding `incoming` to the line `existing` stays within `i32`.
pub open spec fn merge_fits(existing: LineView, incoming: LineView) -> bool {
    match existing.2 {
        Some(n) => i32::MIN <= n + line_num(incoming) <= i32::MAX,
        None => i32::MIN <= existing.1 + line_num(incoming) <= i32::MAX,
    }
}

/// The lines after `l` is added: merged into the line of the same name
/// where there is one, appended otherwise.
pub open spec fn reciept_add(s: Seq<(Seq<char>, LineView)>, l: LineView) -> Seq<(Seq<char>, LineView)> {
    if has_key(s, l.0) {
        map_put(s, l.0, merged_line(s[key_index(s, l.0)].1, l))
    } else {
        map_put(s, l.0, l)
    }
}

impl Reciept {
    /// No name occurs on two lines.
    pub open spec fn wf(&self) -> bool {
        keys_distinct(reciept_entries(self.items))
    }

    /// An empty receipt paid by Swish.
    pub fn new() -> (r: Self)
        ensures
            reciept_entries(r.items) == Seq::<(Seq<char>, LineView)>::empty(),
            r.sum == 0,
            r.payment == Payment::Swish,
            r.wf(),
    {
        Self::new_from(reciept_new(), 0, Payment::Swish)
    }

    /// A receipt with the given lines, total and payment method.
    pub fn new_from(items: IndexMap<String, Item>, sum: i32, payment: Payment) -> (r: Self)
        ensures
            reciept_entries(r.items) == reciept_entries(items),
            r.sum == sum,
            r.payment == payment,
    {
        Reciept { items, sum, payment }
    }

    /// The number of lines.
    pub fn len(&self) -> (n: usize)
        ensures
            n == reciept_entries(self.items).len(),
    {
        reciept_len(&self.items)
    }

    /// Adds a line: the total grows by what the line is worth, and the line
    /// is merged into the one of the same name or appended (see
    /// `reciept_add`).
    pub fn add(&mut self, item: Item)
        requires
            old(self).wf(),
            i32::MIN <= line_total(item@) <= i32::MAX,
            i32::MIN <= old(self).sum + line_total(item@) <= i32::MAX,
            has_key(reciept_entries(old(self).items), item@.0) ==> merge_fits(
                reciept_entries(old(self).items)[key_index(reciept_entries(old(self).items), item@.0)].1,
                item@,
            ),
        ensures
            final(self).wf(),
            final(self).sum == old(self).sum + line_total(item@),
            final(self).payment == old(self).payment,
            reciept_entries(final(self).items) == reciept_add(reciept_entries(old(self).items), item@),
    {
        let ghost s = reciept_entries(self.items);
        let ghost l = item@;
        self.sum = self.sum + item.price_total();
        let name = item.name();
        let existing = match reciept_get(&self.items, &name) {
            Some(it) => Some(it.clone()),
            None => None,
        };
        match existing {
            Some(it) => {
                proof {
                    let j = choose|j: int| 0 <= j < s.len() && s[j] == (l.0, it@);
                    assert(s[j].0 == l.0);
                    assert(s[key_index(s, l.0)].0 == l.0);
                    assert(key_index(s, l.0) == j);
                }
                let merged = match it {
                    Item::Regular { name: n, price, num } => Item::Regular { name: n, price, num: num + item.num() },
                    Item::Special { name: n, price } => Item::Special { name: n, price: price + item.num() },
                };
                reciept_insert(&mut self.items, name, merged);
            },
            None => {
                reciept_insert(&mut self.items, name, item);
            },
        }
        proof {
            let t = reciept_entries(self.items);
            if has_key(s, l.0) {
                let i = key_index(s, l.0);
                assert(s[i].0 == l.0);
                assert forall|a: int, b: int| 0 <= a < t.len() && 0 <= b < t.len() && #[trigger] t[a].0 == #[trigger] t[b].0 implies a == b by {
                    assert(t.len() == s.len());
                }
            } else {
                assert(t == s.push((l.0, l)));
                assert forall|a: int, b: int| 0 <= a < t.len() && 0 <= b < t.len() && #[trigger] t[a].0 == #[trigger] t[b].0 implies a == b by {
                    if a < s.len() && b < s.len() {
                        assert(s[a].0 == s[b].0);
                    } else if a < s.len() {
                        assert(s[a].0 == l.0);
                    } else if b < s.len() {
                        assert(s[b].0 == l.0);
                    }
                }
            }
        }
    }
}

} // verus!

verus! {

/// What all lines are worth together.
pub open spec fn reciept_worth(s: Seq<(Seq<char>, LineView)>) -> int
    decreases s.len(),
{
    if s.len() == 0 {
        0
    } else {
        reciept_worth(s.drop_last()) + line_total(s.last().1)
    }
}

/// Whether a line added to one of the same name is of the same sort: both
/// sold by value, or both by the piece at the same unit price.
pub open spec fn compatible(existing: LineView, incoming: LineView) -> bool {
    match (existing.2, incoming.2) {
        (Some(_), Some(_)) => existing.1 == incoming.1,
        (None, None) => true,
        _ => false,
    }
}

proof fn lemma_reciept_worth_update(s: Seq<(Seq<char>, LineView)>, i: int, x: (Seq<char>, LineView))
    requires
        0 <= i < s.len(),
    ensures
        reciept_worth(s.update(i, x)) == reciept_worth(s) - line_total(s[i].1) + line_total(x.1),
    decreases s.len(),
{
    let t = s.update(i, x);
    if i == s.len() - 1 {
        assert(t.drop_last() =~= s.drop_last());
    } else {
        lemma_reciept_worth_update(s.drop_last(), i, x);
        assert(t.drop_last() =~= s.drop_last().update(i, x));
    }
}

/// Adding a line raises what the lines are worth by what the added line is
/// worth, as it raises the receipt's total, where the line is merged into
/// one of the same sort: a receipt whose total was the worth of its lines
/// keeps it so.
pub proof fn lemma_reciept_add_worth(s: Seq<(Seq<char>, LineView)>, l: LineView)
    requires
        has_key(s, l.0) ==> compatible(s[key_index(s, l.0)].1, l) && merge_fits(s[key_index(s, l.0)].1, l),
    ensures
        reciept_worth(reciept_add(s, l)) == reciept_worth(s) + line_total(l),
{
    if has_key(s, l.0) {
        let i = key_index(s, l.0);
        let e = s[i].1;
        lemma_reciept_worth_update(s, i, (l.0, merged_line(e, l)));
        match (e.2, l.2) {
            (Some(n), Some(m)) => {
                assert((n + m) * e.1 == n * e.1 + m * e.1) by (nonlinear_arith);
            },
            _ => {},
        }
    } else {
        assert(reciept_add(s, l).drop_last() =~= s);
    }
}

} // verus!
