//! The set of items a sales summary lists, kept in an `indexmap::IndexSet`.
use vstd::prelude::*;
use indexmap::IndexSet;
use std::cmp::Ordering;
use crate::items::{Item, ItemView};
use crate::summary::specials_last;

verus! {

#[verifier::external_type_specification]
#[verifier::external_body]
#[verifier::reject_recursive_types(T)]
#[verifier::reject_recursive_types(S)]
pub struct ExIndexSet<T, S>(IndexSet<T, S>);

/// The items a set holds, in the set's order.
pub uninterp spec fn set_items(s: IndexSet<Item>) -> Seq<ItemView>;

/// The order in which the summary lists items: those sold by the piece
/// before those sold by value, and otherwise as they stand.
pub open spec fn special_order_spec(a: ItemView, b: ItemView) -> Ordering {
    if !a.3 && b.3 {
        Ordering::Less
    } else if a.3 && !b.3 {
        Ordering::Greater
    } else {
        Ordering::Equal
    }
}

/// Compares two items by `special_order_spec`.
pub fn special_order(a: &Item, b: &Item) -> (o: Ordering)
    ensures
        o == special_order_spec(a@, b@),
{
    match (a.is_special(), b.is_special()) {
        (false, true) => Ordering::Less,
        (true, false) => Ordering::Greater,
        _ => Ordering::Equal,
    }
}

/// `IndexSet::new`: an empty set.
#[verifier::external_body]
pub(crate) fn set_new() -> (s: IndexSet<Item>)
    ensures
        set_items(s) == Seq::<ItemView>::empty(),
{
    IndexSet::new()
}

/// `IndexSet::len`: the number of items in the set.
#[verifier::external_body]
pub(crate) fn set_len(s: &IndexSet<Item>) -> (n: usize)
    ensures
        n == set_items(*s).len(),
{
    s.len()
}

/// `IndexSet::get_index`: the item at position `i`.
#[verifier::external_body]
pub(crate) fn set_at(s: &IndexSet<Item>, i: usize) -> (item: &Item)
    requires
        i < set_items(*s).len(),
    ensures
        item@ == set_items(*s)[i as int],
{
    s.get_index(i).unwrap()
}

/// `IndexSet::insert`: an item equal to one in the set (items compare with
/// their derived equality, field by field) leaves the set as it is and gives
/// `false`; a new item is appended last and gives `true`.
#[verifier::external_body]
pub(crate) fn set_insert(s: &mut IndexSet<Item>, item: Item) -> (added: bool)
    ensures
        added == !set_items(*old(s)).contains(item@),
        set_items(*old(s)).contains(item@) ==> set_items(*final(s)) == set_items(*old(s)),
        !set_items(*old(s)).contains(item@) ==> set_items(*final(s)) == set_items(*old(s)).push(item@),
{
    s.insert(item)
}

/// `IndexSet::sort_by` with `special_order`: the sort is stable, so the
/// items sold by the piece come first and those sold by value last, each in
/// the order they stood.
#[verifier::external_body]
pub(crate) fn set_sort_pieces_first(s: &mut IndexSet<Item>)
    ensures
        set_items(*final(s)) == specials_last(set_items(*old(s))),
{
    s.sort_by(|a, b| special_order(a, b));
}

} // verus!
