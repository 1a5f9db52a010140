use vstd::prelude::*;
use crate::time::Date;

verus! {

/// A date field's chosen day.
pub struct DatePicker {
    date: Date,
}

impl View for DatePicker {
    type V = Date;

    closed spec fn view(&self) -> Date {
        self.date
    }
}

impl DatePicker {
    /// A field showing `today`.
    pub fn new(today: Date) -> (d: Self)
        ensures
            d@ == today,
    {
        DatePicker { date: today }
    }

    /// The field now showing `d`.
    pub fn update(&mut self, d: Date)
        ensures
            final(self)@ == d,
    {
        self.date = d;
    }

    /// The day shown.
    pub fn value(&self) -> (d: Date)
        ensures
            d == self@,
    {
        self.date
    }
}

} // verus!
