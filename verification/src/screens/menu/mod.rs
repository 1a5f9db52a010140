//! The sales screen: the menu, the keypad's multiplier and the receipt being
//! rung up.
use vstd::prelude::*;
use crate::items::{Item, ItemView};
use crate::receipts::{add_amount, fits_amount, Payment, Receipt, ReceiptView};
use crate::time::Timestamp;

pub mod item;

verus! {

/// The sales screen: the items on sale.
pub struct Menu {
    menu: Vec<Item>,
}

/// What the sales screen keeps between events: the multiplier for the next
/// item, the receipt being rung up, and whether it is to be printed.
pub struct State {
    multiplier: u32,
    receipt: Receipt,
    print: bool,
}

/// What the sales screen receives.
#[derive(Debug, Clone, Copy, PartialEq, Eq, Structural)]
pub enum Event {
    Multiplier(u32),
    SellItem(usize),
    ClearReceipt,
    TogglePrint(bool),
    Sell(Payment),
}

/// What the sales screen asks for: a finished receipt to be printed (where
/// asked) and stored.
#[derive(Debug)]
pub enum Action {
    Sell { receipt: Receipt, print: bool },
}

/// The view of the state: multiplier, receipt, print flag.
pub type StateView = (u32, ReceiptView, bool);

impl View for State {
    type V = StateView;

    closed spec fn view(&self) -> StateView {
        (self.multiplier, self.receipt@, self.print)
    }
}

/// An empty receipt at the epoch, paid by Swish.
pub open spec fn empty_receipt() -> ReceiptView {
    (Seq::<(ItemView, i32)>::empty(), Timestamp { secs: 0, nanos: 0 }, Payment::Swish)
}

impl State {
    /// The receipt being rung up is well formed.
    pub closed spec fn wf(&self) -> bool {
        self.receipt.wf()
    }
}

impl Default for State {
    /// Multiplier 1, an empty receipt, not printing.
    fn default() -> (s: Self)
        ensures
            s@ == (1u32, empty_receipt(), false),
            s.wf(),
    {
        State { multiplier: 1, receipt: Receipt::default(), print: false }
    }
}

impl View for Menu {
    type V = Seq<ItemView>;

    closed spec fn view(&self) -> Seq<ItemView> {
        self.menu@.map_values(|i: Item| i@)
    }
}

impl Menu {
    /// The screen over the given items.
    pub fn new(menu: Vec<Item>) -> (m: Self)
        ensures
            m@ == menu@.map_values(|i: Item| i@),
    {
        Menu { menu }
    }

    /// Handles an event: the keypad sets the multiplier; selling an item adds
    /// the multiplier's amount of it to the receipt and sets the multiplier
    /// back to 1; clearing empties the receipt; the print flag follows its
    /// checkbox. Selling a receipt that has lines asks for it to be stored
    /// (and printed, where the flag says so), paid with `payment` at time
    /// `now`, and starts an empty one; an empty receipt is not sold.
    pub fn update(&mut self, state: &mut State, event: Event, now: Timestamp) -> (a: Option<Action>)
        requires
            old(state).wf(),
            event matches Event::SellItem(i) ==> i < old(self)@.len() && fits_amount(
                old(state)@.1.0,
                old(self)@[i as int],
                old(state)@.0 as i32,
            ),
        ensures
            final(self)@ == old(self)@,
            final(state).wf(),
            match event {
                Event::Multiplier(m) => a is None && final(state)@ == (m, old(state)@.1, old(state)@.2),
                Event::SellItem(i) => a is None && final(state)@ == (
                    1u32,
                    (add_amount(old(state)@.1.0, old(self)@[i as int], old(state)@.0 as i32), old(state)@.1.1, old(state)@.1.2),
                    old(state)@.2,
                ),
                Event::ClearReceipt => a is None && final(state)@ == (old(state)@.0, empty_receipt(), old(state)@.2),
                Event::TogglePrint(b) => a is None && final(state)@ == (old(state)@.0, old(state)@.1, b),
                Event::Sell(p) => if old(state)@.1.0.len() != 0 {
                    &&& final(state)@ == (old(state)@.0, empty_receipt(), old(state)@.2)
                    &&& a matches Some(Action::Sell { receipt, print }) && receipt@ == (old(state)@.1.0, now, p)
                        && receipt.wf() && print == old(state)@.2
                } else {
                    a is None && final(state)@ == old(state)@
                },
            },
    {
        match event {
            Event::Multiplier(m) => {
                state.multiplier = m;
                None
            },
            Event::ClearReceipt => {
                state.receipt = Receipt::default();
                None
            },
            Event::SellItem(i) => {
                let item = self.menu[i].clone();
                state.receipt.insert(item, state.multiplier as i32);
                state.multiplier = 1;
                None
            },
            Event::TogglePrint(b) => {
                state.print = b;
                None
            },
            Event::Sell(p) => {
                if !state.receipt.is_empty() {
                    let mut receipt = Receipt::default();
                    std::mem::swap(&mut receipt, &mut state.receipt);
                    let receipt = receipt.with_payment(p).with_time(now);
                    Some(Action::Sell { receipt, print: state.print })
                } else {
                    None
                }
            },
        }
    }
}

} // verus!
