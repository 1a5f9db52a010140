//! The sales summary screen: the period shown, and its export.
use vstd::prelude::*;
use crate::error::Error;
use crate::summary::{Summary, SummaryView};
use crate::time::Date;

verus! {

/// Which of the period's two days a date picker is choosing.
#[derive(Debug, Clone, Copy, PartialEq, Eq, Structural)]
pub enum Picker {
    From,
    To,
}

/// The sales summary screen: the first and last day shown, and their
/// summary.
pub struct Sales {
    from: Date,
    to: Date,
    summary: Summary,
}

/// What the sales screen receives.
#[derive(Debug, Clone, Copy, PartialEq, Eq, Structural)]
pub enum Event {
    Save,
    OpenDate(Picker),
    UpdateDate(Date),
    CloseDate,
}

/// What the sales screen asks for: the summary to be saved, an error to be
/// shown, or the summary of a period to be loaded.
#[derive(Debug)]
pub enum Action {
    Save,
    Error(Error),
    Load { from: Date, to: Date },
}

/// The view of the screen: first day, last day, summary.
pub type SalesView = (Date, Date, SummaryView);

impl View for Sales {
    type V = SalesView;

    closed spec fn view(&self) -> SalesView {
        (self.from, self.to, self.summary@)
    }
}

impl Sales {
    /// The screen showing `summary`, the sales from day `from` to day `to`.
    pub fn new(from: Date, to: Date, summary: Summary) -> (s: Self)
        ensures
            s@ == (from, to, summary@),
    {
        Sales { from, to, summary }
    }

    /// The summary shown.
    pub fn summary(&self) -> (s: &Summary)
        ensures
            s@ == self@.2,
    {
        &self.summary
    }

    /// Handles an event: saving asks for the summary to be saved, or shows
    /// an error where nothing was sold; opening a picker remembers which;
    /// a picked date becomes the first or last day, as the open picker says,
    /// and closes it; closing a picker closes it. After a date is picked or
    /// a picker closed, the period shown is loaded again.
    pub fn update(&mut self, state: &mut Option<Picker>, event: Event) -> (a: Option<Action>)
        ensures
            final(self)@.2 == old(self)@.2,
            match event {
                Event::Save => {
                    &&& final(self)@ == old(self)@
                    &&& *final(state) == *old(state)
                    &&& if old(self)@.2.2.len() != 0 {
                        a matches Some(Action::Save)
                    } else {
                        a matches Some(Action::Error(Error::Other(m))) && m@ == "Ingen försäljning att spara"@
                    }
                },
                Event::OpenDate(p) => final(self)@ == old(self)@ && *final(state) == Some(p) && a is None,
                Event::UpdateDate(d) => {
                    &&& final(self)@.0 == if *old(state) == Some(Picker::From) { d } else { old(self)@.0 }
                    &&& final(self)@.1 == if *old(state) == Some(Picker::To) { d } else { old(self)@.1 }
                    &&& *final(state) == None::<Picker>
                    &&& a matches Some(Action::Load { from, to }) && from == final(self)@.0 && to == final(self)@.1
                },
                Event::CloseDate => {
                    &&& final(self)@ == old(self)@
                    &&& *final(state) == None::<Picker>
                    &&& a matches Some(Action::Load { from, to }) && from == old(self)@.0 && to == old(self)@.1
                },
            },
    {
        match event {
            Event::Save => {
                if !self.summary.is_empty() {
                    return Some(Action::Save);
                } else {
                    return Some(Action::Error(Error::from("Ingen försäljning att spara")));
                }
            },
            Event::OpenDate(p) => {
                *state = Some(p);
                return None;
            },
            Event::UpdateDate(d) => {
                match *state {
                    Some(Picker::From) => {
                        self.from = d;
                    },
                    Some(Picker::To) => {
                        self.to = d;
                    },
                    None => {},
                }
                *state = None;
            },
            Event::CloseDate => {
                *state = None;
            },
        }
        Some(Action::Load { from: self.from, to: self.to })
    }
}

} // verus!
