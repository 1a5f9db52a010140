use vstd::prelude::*;

verus! {

/// The multiplier keypad: the multiplier in use, and the number being typed
/// (0 while none is).
pub struct Calc(pub u32, u32);

/// What the keypad is told.
#[derive(Debug, Clone, Copy, PartialEq, Eq, Structural)]
pub enum Message {
    Clear,
    Update(u32),
    Save,
}

/// The number typed after digit `v` is pressed: 1 where both are 0, capped
/// at 100.
pub open spec fn typed_after(typed: u32, v: u32) -> u32 {
    let n = typed * 10 + v;
    if n == 0 {
        1
    } else if n <= 100 {
        n as u32
    } else {
        100
    }
}

/// The keypad after a message: `Clear` drops the typed number, or resets the
/// multiplier to 1 where none is typed; a digit is appended to the typed
/// number (a leading 0 is ignored); `Save` makes the typed number the
/// multiplier, where one is typed.
pub open spec fn calc_step(state: (u32, u32), m: Message) -> (u32, u32) {
    let (multi, typed) = state;
    match m {
        Message::Clear => if typed == 0 {
            (1, typed)
        } else {
            (multi, 0)
        },
        Message::Update(v) => if v == 0 && typed == 0 {
            state
        } else {
            (multi, typed_after(typed, v))
        },
        Message::Save => if typed != 0 {
            (typed, 0)
        } else {
            state
        },
    }
}

impl View for Calc {
    type V = (u32, u32);

    closed spec fn view(&self) -> (u32, u32) {
        (self.0, self.1)
    }
}

impl Calc {
    /// The typed number stays within 0..=100.
    pub closed spec fn wf(&self) -> bool {
        self.1 <= 100
    }

    /// A keypad with multiplier 1 and nothing typed.
    pub fn new() -> (c: Self)
        ensures
            c@ == (1u32, 0u32),
            c.wf(),
    {
        Calc(1, 0)
    }

    /// The number being typed (0 while none is).
    pub fn typed(&self) -> (t: u32)
        ensures
            t == self@.1,
    {
        self.1
    }

    /// Applies a message (see `calc_step`).
    pub fn update(&mut self, message: Message)
        requires
            old(self).wf(),
            message matches Message::Update(v) ==> old(self)@.1 * 10 + v <= u32::MAX,
        ensures
            final(self).wf(),
            final(self)@ == calc_step(old(self)@, message),
    {
        match message {
            Message::Clear => {
                if self.1 == 0 {
                    self.0 = 1;
                } else {
                    self.1 = 0;
                }
            },
            Message::Update(v) => {
                if !(v == 0 && self.1 == 0) {
                    let n = self.1 * 10 + v;
                    self.1 = if n == 0 {
                        1
                    } else if n <= 100 {
                        n
                    } else {
                        100
                    };
                }
            },
            Message::Save => {
                if self.1 != 0 {
                    self.0 = self.1;
                    self.1 = 0;
                }
            },
        }
    }
}

/// The keypad's multiplier is never 0 once it is not, and the typed number
/// never exceeds 100.
pub proof fn lemma_calc_step_bounds(state: (u32, u32), m: Message)
    requires
        state.0 >= 1,
        state.1 <= 100,
    ensures
        calc_step(state, m).0 >= 1,
        calc_step(state, m).1 <= 100,
{
}

/// Pressing a digit appends it to the typed number, capped at 100: unless
/// both the digit and the typed number are 0 (a leading 0 is ignored), the
/// typed number becomes `typed * 10 + v`, or 100 where that is larger; the
/// multiplier stays.
pub proof fn lemma_calc_digit(multi: u32, typed: u32, v: u32)
    requires
        typed <= 100,
        v <= 9,
    ensures
        v == 0 && typed == 0 ==> calc_step((multi, typed), Message::Update(v)) == (multi, typed),
        !(v == 0 && typed == 0) && typed * 10 + v <= 100 ==> calc_step((multi, typed), Message::Update(v))
            == (multi, (typed * 10 + v) as u32),
        !(v == 0 && typed == 0) && typed * 10 + v > 100 ==> calc_step((multi, typed), Message::Update(v))
            == (multi, 100u32),
{
}

/// The number typed after a digit is the typed number with the digit
/// appended, capped at 100, wherever that is not 0.
pub proof fn lemma_typed_after(typed: u32, v: u32)
    requires
        typed <= 100,
        v <= 9,
        typed * 10 + v >= 1,
    ensures
        typed * 10 + v <= 100 ==> typed_after(typed, v) == typed * 10 + v,
        typed * 10 + v > 100 ==> typed_after(typed, v) == 100,
{
}

/// Saving makes a typed number the multiplier and clears it; with nothing
/// typed it changes nothing. Clearing drops a typed number, and with nothing
/// typed sets the multiplier back to 1.
pub proof fn lemma_calc_save_clear(multi: u32, typed: u32)
    ensures
        typed != 0 ==> calc_step((multi, typed), Message::Save) == (typed, 0u32),
        typed == 0 ==> calc_step((multi, typed), Message::Save) == (multi, typed),
        typed != 0 ==> calc_step((multi, typed), Message::Clear) == (multi, 0u32),
        typed == 0 ==> calc_step((multi, typed), Message::Clear) == (1u32, 0u32),
{
}

/// Typing a two-digit number and saving it makes it the multiplier: digit
/// `d1` (not 0) then digit `d2`, then Save, on a keypad with nothing typed.
pub proof fn lemma_calc_two_digits(multi: u32, d1: u32, d2: u32)
    requires
        1 <= d1 <= 9,
        d2 <= 9,
    ensures
        calc_step(
            calc_step(calc_step((multi, 0u32), Message::Update(d1)), Message::Update(d2)),
            Message::Save,
        ) == ((d1 * 10 + d2) as u32, 0u32),
{
    lemma_calc_digit(multi, 0, d1);
    lemma_calc_digit(multi, d1, d2);
    lemma_calc_save_clear(multi, (d1 * 10 + d2) as u32);
}

} // verus!
