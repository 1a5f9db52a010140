use vstd::prelude::*;
use std::ops::RangeInclusive;
use vstd::std_specs::range::RangeInclusiveView;

verus! {

/// Whether `c` is an ASCII decimal digit.
pub open spec fn is_digit(c: char) -> bool {
    '0' <= c <= '9'
}

/// The value of a string of ASCII decimal digits.
pub open spec fn digits_value(s: Seq<char>) -> int
    decreases s.len(),
{
    if s.len() == 0 {
        0
    } else {
        digits_value(s.drop_last()) * 10 + (s.last() as int - '0' as int)
    }
}

/// What `str::parse::<i32>` gives for a text: an optional `+` or `-` sign
/// followed by one or more ASCII digits, whose value fits in an `i32`;
/// nothing for any other text.
pub open spec fn parse_i32(s: Seq<char>) -> Option<i32> {
    let neg = s.len() > 0 && s[0] == '-';
    let signed = s.len() > 0 && (s[0] == '-' || s[0] == '+');
    let body = if signed { s.skip(1) } else { s };
    let v = if neg { -digits_value(body) } else { digits_value(body) };
    if body.len() > 0 && (forall|i: int| 0 <= i < body.len() ==> is_digit(#[trigger] body[i]))
        && i32::MIN <= v <= i32::MAX {
        Some(v as i32)
    } else {
        None
    }
}

/// `<i32 as FromStr>::from_str` through `str::parse`: the value of an
/// optional sign followed by decimal digits, as its documentation states;
/// any other text, or a value out of range, is an error.
#[verifier::external_body]
fn parse_number(s: &str) -> (r: Option<i32>)
    ensures
        r == parse_i32(s@),
{
    s.parse::<i32>().ok()
}

/// A number field: what it tells its owner when a valid number is typed,
/// the numbers it accepts, and the number it holds (none while it is empty).
pub struct NumberInput<F> {
    on_change: F,
    range: RangeInclusive<i32>,
    state: Option<i32>,
}

/// What the field receives: the text now typed in it.
#[derive(Debug, Clone)]
pub enum Event {
    Input(String),
}

/// The view of a number field: its message maker, its accepted range, and
/// the number it holds.
pub type NumberInputView<F> = (F, RangeInclusiveView<i32>, Option<i32>);

impl<F> View for NumberInput<F> {
    type V = NumberInputView<F>;

    closed spec fn view(&self) -> NumberInputView<F> {
        (self.on_change, self.range@, self.state)
    }
}

/// Whether the range view accepts `n`.
pub open spec fn range_accepts(r: RangeInclusiveView<i32>, n: i32) -> bool {
    r.start <= n && if r.exhausted {
        n < r.end
    } else {
        n <= r.end
    }
}

impl<F> NumberInput<F> {
    /// A field accepting numbers in `range` and holding `value`.
    pub fn new(range: RangeInclusive<i32>, on_change: F, value: i32) -> (n: Self)
        ensures
            n@ == (on_change, range@, Some(value)),
    {
        Self { on_change, range, state: Some(value) }
    }

    /// Handles typed text: an empty field holds nothing; a text that reads
    /// as a number in the range is held and reported; any other text is
    /// ignored.
    pub fn update<M>(&mut self, event: Event) -> (r: Option<M>)
        where
            F: Fn(i32) -> M,
        requires
            forall|x: i32| old(self)@.0.requires((x,)),
        ensures
            final(self)@.0 == old(self)@.0,
            final(self)@.1 == old(self)@.1,
            match event {
                Event::Input(s) => if s@.len() == 0 {
                    final(self)@.2 is None && r is None
                } else {
                    match parse_i32(s@) {
                        Some(n) => if range_accepts(old(self)@.1, n) {
                            &&& final(self)@.2 == Some(n)
                            &&& r matches Some(m) && old(self)@.0.ensures((n,), m)
                        } else {
                            final(self)@.2 == old(self)@.2 && r is None
                        },
                        None => final(self)@.2 == old(self)@.2 && r is None,
                    }
                },
            },
    {
        match event {
            Event::Input(s) => {
                if s.as_str().is_empty() {
                    self.state = None;
                    None
                } else {
                    match parse_number(s.as_str()) {
                        Some(n) => {
                            if self.range.contains(&n) {
                                self.state = Some(n);
                                assert(old(self)@.0.requires((n,)));
                                Some((self.on_change)(n))
                            } else {
                                None
                            }
                        },
                        None => None,
                    }
                }
            },
        }
    }
}

} // verus!
