use vstd::prelude::*;
use crate::error::Error;

verus! {

/// How a sale is paid, as the screens know it.
#[derive(Debug, Clone, Copy, PartialEq, Eq, Hash, Structural)]
pub enum Payment {
    Cash,
    Swish,
    Paypal,
}

impl Default for Payment {
    /// Sales are paid by Swish unless said otherwise.
    fn default() -> (p: Self)
        ensures
            p == Payment::Swish,
    {
        Payment::Swish
    }
}

/// The name a payment method is shown and stored by.
pub open spec fn payment_label(p: Payment) -> Seq<char> {
    match p {
        Payment::Swish => "Swish"@,
        Payment::Cash => "Cash"@,
        Payment::Paypal => "PayPal"@,
    }
}

/// The payment method a lowercase name stands for, if any.
pub open spec fn payment_from_lowercase(t: Seq<char>) -> Option<Payment> {
    if t == "cash"@ {
        Some(Payment::Cash)
    } else if t == "swish"@ {
        Some(Payment::Swish)
    } else if t == "paypal"@ {
        Some(Payment::Paypal)
    } else {
        None
    }
}

/// What `str::to_lowercase` gives for a text.
pub uninterp spec fn lowercase(s: Seq<char>) -> Seq<char>;

/// The ASCII lowercase of a character: `A`..`Z` become `a`..`z`, others
/// stay.
pub open spec fn ascii_lower(c: char) -> char {
    if 'A' <= c <= 'Z' {
        ((c as int) + 32) as char
    } else {
        c
    }
}

/// Whether every character of `s` is ASCII.
pub open spec fn all_ascii(s: Seq<char>) -> bool {
    forall|i: int| 0 <= i < s.len() ==> (#[trigger] s[i]) as int <= 0x7f
}

/// `str::to_lowercase`: the text in lowercase by Unicode's rules, a function
/// of the text alone; for ASCII text, each letter `A`..`Z` becomes
/// `a`..`z` and every other character stays. What it gives for other text
/// is not stated here.
#[verifier::external_body]
fn to_lowercase(s: &str) -> (r: String)
    ensures
        r@ == lowercase(s@),
        all_ascii(s@) ==> r@ == s@.map_values(|c: char| ascii_lower(c)),
{
    s.to_lowercase()
}

impl From<Payment> for String {
    /// The name the payment method is shown and stored by.
    fn from(p: Payment) -> (s: String)
        ensures
            s@ == payment_label(p),
    {
        match p {
            Payment::Swish => String::from_str("Swish"),
            Payment::Cash => String::from_str("Cash"),
            Payment::Paypal => String::from_str("PayPal"),
        }
    }
}

impl vstd::std_specs::convert::FromSpecImpl<Payment> for String {
    open spec fn obeys_from_spec() -> bool {
        false
    }

    open spec fn from_spec(v: Payment) -> String {
        arbitrary()
    }
}

impl TryFrom<String> for Payment {
    type Error = Error;

    /// Reads a payment method's name, in any case.
    fn try_from(s: String) -> (r: Result<Self, Self::Error>)
        ensures
            match payment_from_lowercase(lowercase(s@)) {
                Some(p) => r == Ok::<Payment, Error>(p),
                None => r matches Err(Error::Other(m)) && m@ == "Invalid Payment Method"@,
            },
            all_ascii(s@) ==> lowercase(s@) == s@.map_values(|c: char| ascii_lower(c)),
    {
        let lower = to_lowercase(s.as_str());
        if crate::text::str_equals(lower.as_str(), "cash") {
            Ok(Payment::Cash)
        } else if crate::text::str_equals(lower.as_str(), "swish") {
            Ok(Payment::Swish)
        } else if crate::text::str_equals(lower.as_str(), "paypal") {
            Ok(Payment::Paypal)
        } else {
            Err(Error::from("Invalid Payment Method"))
        }
    }
}

impl vstd::std_specs::convert::TryFromSpecImpl<String> for Payment {
    open spec fn obeys_try_from_spec() -> bool {
        false
    }

    open spec fn try_from_spec(v: String) -> Result<Payment, Error> {
        arbitrary()
    }
}

/// The screens name payment methods `Swish`, `Cash` and `PayPal`, and read
/// back the lowercase names `cash`, `swish` and `paypal` as those methods,
/// and nothing else.
pub proof fn lemma_payment_labels(t: Seq<char>)
    ensures
        payment_label(Payment::Swish) == seq!['S', 'w', 'i', 's', 'h'],
        payment_label(Payment::Cash) == seq!['C', 'a', 's', 'h'],
        payment_label(Payment::Paypal) == seq!['P', 'a', 'y', 'P', 'a', 'l'],
        payment_from_lowercase(seq!['c', 'a', 's', 'h']) == Some(Payment::Cash),
        payment_from_lowercase(seq!['s', 'w', 'i', 's', 'h']) == Some(Payment::Swish),
        payment_from_lowercase(seq!['p', 'a', 'y', 'p', 'a', 'l']) == Some(Payment::Paypal),
        t != seq!['c', 'a', 's', 'h'] && t != seq!['s', 'w', 'i', 's', 'h'] && t != seq!['p', 'a', 'y', 'p', 'a', 'l'] ==> payment_from_lowercase(t) is None,
{
    reveal_strlit("Swish");
    reveal_strlit("Cash");
    reveal_strlit("PayPal");
    reveal_strlit("cash");
    reveal_strlit("swish");
    reveal_strlit("paypal");
    assert("Swish"@ =~= seq!['S', 'w', 'i', 's', 'h']);
    assert("Cash"@ =~= seq!['C', 'a', 's', 'h']);
    assert("PayPal"@ =~= seq!['P', 'a', 'y', 'P', 'a', 'l']);
    assert("cash"@ =~= seq!['c', 'a', 's', 'h']);
    assert("swish"@ =~= seq!['s', 'w', 'i', 's', 'h']);
    assert("paypal"@ =~= seq!['p', 'a', 'y', 'p', 'a', 'l']);
}

/// Every payment method's name is ASCII and, lowercased, reads back as the
/// method itself: `try_from` undoes `String::from`.
pub proof fn lemma_payment_label_round_trip(p: Payment)
    ensures
        all_ascii(payment_label(p)),
        payment_from_lowercase(payment_label(p).map_values(|c: char| ascii_lower(c))) == Some(p),
{
    reveal_strlit("Swish");
    reveal_strlit("Cash");
    reveal_strlit("PayPal");
    reveal_strlit("swish");
    reveal_strlit("cash");
    reveal_strlit("paypal");
    let l = payment_label(p).map_values(|c: char| ascii_lower(c));
    match p {
        Payment::Swish => {
            assert(l =~= "swish"@);
        },
        Payment::Cash => {
            assert(l =~= "cash"@);
        },
        Payment::Paypal => {
            assert(l =~= "paypal"@);
        },
    }
    assert("swish"@.len() != "cash"@.len());
    assert("paypal"@.len() != "cash"@.len());
    assert("paypal"@.len() != "swish"@.len());
}

} // verus!
