use vstd::prelude::*;
use crate::calc::{calc_step, typed_after, Message};

verus! {

/// The multiplier keypad widget: the multiplier shown, and what it tells its
/// owner when the multiplier is set. Its state is the number being typed (0
/// while none is).
pub struct Calc<F> {
    multi: u32,
    on_set: F,
}

/// What the keypad receives from its buttons.
#[derive(Debug, Clone, Copy, PartialEq, Eq, Structural)]
pub enum Event {
    Clear,
    Update(u32),
    Save,
}

/// The keypad message a button sends.
pub open spec fn message_of(e: Event) -> Message {
    match e {
        Event::Clear => Message::Clear,
        Event::Update(v) => Message::Update(v),
        Event::Save => Message::Save,
    }
}

impl<F> View for Calc<F> {
    type V = (u32, F);

    closed spec fn view(&self) -> (u32, F) {
        (self.multi, self.on_set)
    }
}

impl<F> Calc<F> {
    /// A keypad showing `multi`, or 1 where `multi` is 0.
    pub fn new(multi: u32, on_set: F) -> (c: Self)
        ensures
            c@ == (if multi > 0 { multi } else { 1u32 }, on_set),
    {
        Calc { multi: if multi > 0 { multi } else { 1 }, on_set }
    }

    /// Handles a button: `Clear` drops the typed number, or sets the
    /// multiplier back to 1 and reports it where none is typed; a digit is
    /// appended to the typed number (a leading 0 is ignored; the number is
    /// capped at 100); `Save` makes the typed number the multiplier and
    /// reports it, where one is typed.
    pub fn update<M>(&mut self, state: &mut u32, event: Event) -> (r: Option<M>)
        where
            F: Fn(u32) -> M,
        requires
            *old(state) <= 100,
            forall|x: u32| old(self)@.1.requires((x,)),
            event matches Event::Update(v) ==> *old(state) * 10 + v <= u32::MAX,
        ensures
            *final(state) <= 100,
            final(self)@.1 == old(self)@.1,
            (final(self)@.0, *final(state)) == calc_step((old(self)@.0, *old(state)), message_of(event)),
            match event {
                Event::Clear => if *old(state) == 0 {
                    &&& final(self)@.0 == 1
                    &&& *final(state) == 0
                    &&& r matches Some(m) && old(self)@.1.ensures((1u32,), m)
                } else {
                    &&& final(self)@.0 == old(self)@.0
                    &&& *final(state) == 0
                    &&& r is None
                },
                Event::Update(v) => {
                    &&& final(self)@.0 == old(self)@.0
                    &&& *final(state) == if v == 0 && *old(state) == 0 {
                        0
                    } else {
                        typed_after(*old(state), v)
                    }
                    &&& r is None
                },
                Event::Save => if *old(state) != 0 {
                    &&& final(self)@.0 == *old(state)
                    &&& *final(state) == 0
                    &&& r matches Some(m) && old(self)@.1.ensures((*old(state),), m)
                } else {
                    &&& final(self)@.0 == old(self)@.0
                    &&& *final(state) == 0
                    &&& r is None
                },
            },
    {
        match event {
            Event::Clear => {
                if *state == 0 {
                    self.multi = 1;
                    assert(old(self)@.1.requires((1u32,)));
                    Some((self.on_set)(1))
                } else {
                    *state = 0;
                    None
                }
            },
            Event::Update(v) => {
                if !(v == 0 && *state == 0) {
                    let n = *state * 10 + v;
                    *state = if n == 0 {
                        1
                    } else if n <= 100 {
                        n
                    } else {
                        100
                    };
                }
                None
            },
            Event::Save => {
                if *state != 0 {
                    self.multi = *state;
                    *state = 0;
                    assert(old(self)@.1.requires((self.multi,)));
                    Some((self.on_set)(self.multi))
                } else {
                    None
                }
            },
        }
    }
}

} // verus!
