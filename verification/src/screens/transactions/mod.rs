//! The receipts screen: recent receipts, one of them selected, printed on
//! request.
use vstd::prelude::*;
use indexmap::IndexMap;
use crate::lines::{has_key, key_index, keys_distinct, recents_entries, recents_index_of, recents_at, recents_len};
use crate::receipts::{Receipt, ReceiptView};
use crate::time::Timestamp;

pub mod item;

verus! {

/// The receipts screen: the recent receipts, keyed by time.
pub struct Transactions {
    receipts: IndexMap<Timestamp, Receipt>,
}

/// What the receipts screen keeps between events: the receipt selected, and
/// how many pages of three receipts it is scrolled.
pub struct State {
    selected: Option<Receipt>,
    offset: usize,
}

/// What the receipts screen receives.
#[derive(Debug, Clone, Copy, PartialEq, Eq, Structural)]
pub enum Event {
    ScrollLeft,
    ScrollRight,
    Select(Timestamp),
    Deselect,
    Print,
}

/// The view of the screen's state: the selected receipt, and the offset.
pub type StateView = (Option<ReceiptView>, usize);

impl View for State {
    type V = StateView;

    closed spec fn view(&self) -> StateView {
        (
            match self.selected {
                Some(r) => Some(r@),
                None => None,
            },
            self.offset,
        )
    }
}

impl Default for State {
    /// Nothing selected, not scrolled.
    fn default() -> (s: Self)
        ensures
            s@ == (None::<ReceiptView>, 0usize),
    {
        State { selected: None, offset: 0 }
    }
}

impl State {
    /// How many pages of three receipts the screen is scrolled.
    pub fn offset(&self) -> (o: usize)
        ensures
            o == self@.1,
    {
        self.offset
    }
}

impl View for Transactions {
    type V = Seq<(Timestamp, ReceiptView)>;

    closed spec fn view(&self) -> Seq<(Timestamp, ReceiptView)> {
        recents_entries(self.receipts)
    }
}

/// The receipt selected for the time `t`: the one kept under it, if any.
pub open spec fn selected_for(rs: Seq<(Timestamp, ReceiptView)>, t: Timestamp) -> Option<ReceiptView> {
    if has_key(rs, t) {
        Some(rs[key_index(rs, t)].1)
    } else {
        None
    }
}

/// The last page the screen scrolls to, for `n` receipts shown three at a
/// time.
pub open spec fn scroll_bound(n: nat) -> int {
    if n == 0 {
        0
    } else {
        (n - 1) / 3
    }
}

impl Transactions {
    /// The screen over the given receipts.
    pub fn new(receipts: IndexMap<Timestamp, Receipt>) -> (t: Self)
        ensures
            t@ == recents_entries(receipts),
    {
        Transactions { receipts }
    }

    /// Handles an event: scrolling left stops at the first page and right at
    /// the last (an offset within `scroll_bound` stays within it); selecting picks the receipt of the given time (none where
    /// there is none); printing hands the selected receipt over to be
    /// printed and clears the selection.
    pub fn update(&mut self, state: &mut State, event: Event) -> (print: Option<Receipt>)
        requires
            keys_distinct(old(self)@),
            forall|i: int| 0 <= i < old(self)@.len() ==> keys_distinct((#[trigger] old(self)@[i]).1.0),
        ensures
            final(self)@ == old(self)@,
            old(state)@.1 <= scroll_bound(old(self)@.len()) ==> final(state)@.1 <= scroll_bound(old(self)@.len()),
            match event {
                Event::ScrollLeft => final(state)@ == (
                    old(state)@.0,
                    if old(state)@.1 > 0 { (old(state)@.1 - 1) as usize } else { old(state)@.1 },
                ) && print is None,
                Event::ScrollRight => {
                    &&& final(state)@.0 == old(state)@.0
                    &&& final(state)@.1 == if old(self)@.len() > 0 && old(state)@.1 < scroll_bound(old(self)@.len()) {
                        old(state)@.1 + 1
                    } else {
                        old(state)@.1 as int
                    }
                    &&& print is None
                },
                Event::Select(t) => final(state)@ == (selected_for(old(self)@, t), old(state)@.1) && print is None,
                Event::Deselect => final(state)@ == (None::<ReceiptView>, old(state)@.1) && print is None,
                Event::Print => {
                    &&& final(state)@ == (None::<ReceiptView>, old(state)@.1)
                    &&& match old(state)@.0 {
                        Some(r) => print matches Some(p) && p@ == r,
                        None => print is None,
                    }
                },
            },
    {
        let n = recents_len(&self.receipts);
        match event {
            Event::ScrollLeft => {
                if state.offset > 0 {
                    state.offset = state.offset - 1;
                }
                None
            },
            Event::ScrollRight => {
                if n != 0 && state.offset < (n - 1) / 3 {
                    state.offset = state.offset + 1;
                }
                None
            },
            Event::Select(time) => {
                let ghost rs = recents_entries(self.receipts);
                state.selected = match recents_index_of(&self.receipts, &time) {
                    Some(i) => {
                        let (_, r) = recents_at(&self.receipts, i);
                        proof {
                            assert(rs[i as int].0 == time);
                            assert(rs[key_index(rs, time)].0 == time);
                            assert(keys_distinct(rs[i as int].1.0));
                        }
                        Some(r.clone())
                    },
                    None => None,
                };
                None
            },
            Event::Deselect => {
                state.selected = None;
                None
            },
            Event::Print => {
                let r = state.selected.take();
                r
            },
        }
    }
}

} // verus!
