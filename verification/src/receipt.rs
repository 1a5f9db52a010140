use vstd::prelude::*;
use crate::receipts::{Receipt as RawReceipt, ReceiptView};

verus! {

/// A receipt as shown on screen: the receipt, and the message it sends when
/// pressed, if any.
pub struct Receipt<M> {
    receipt: RawReceipt,
    msg: Option<M>,
}

impl<M> View for Receipt<M> {
    type V = (ReceiptView, Option<M>);

    closed spec fn view(&self) -> (ReceiptView, Option<M>) {
        (self.receipt@, self.msg)
    }
}

impl<M> Receipt<M> {
    /// The receipt shown, sending nothing when pressed.
    pub fn from_receipt(receipt: RawReceipt) -> (r: Self)
        ensures
            r@ == (receipt@, None::<M>),
    {
        Receipt { receipt, msg: None }
    }

    /// The receipt shown, sending `msg` when pressed.
    pub fn on_press(self, msg: M) -> (r: Self)
        ensures
            r@ == (self@.0, Some(msg)),
    {
        Receipt { msg: Some(msg), ..self }
    }

    /// Handles a press: the message, where one is set and it was pressed.
    pub fn update(&mut self, pressed: bool) -> (r: Option<M>)
        where
            M: Clone,
        ensures
            final(self)@ == old(self)@,
            pressed && old(self)@.1 is Some ==> (r matches Some(c) && cloned(old(self)@.1->0, c)),
            !(pressed && old(self)@.1 is Some) ==> r is None,
    {
        if pressed {
            match &self.msg {
                Some(m) => Some(m.clone()),
                None => None,
            }
        } else {
            None
        }
    }
}

} // verus!
