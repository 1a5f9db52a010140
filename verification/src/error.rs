use vstd::prelude::*;

verus! {

/// What can go wrong in the register's screens, where the library decides it.
#[derive(Debug, Clone)]
pub enum Error {
    Other(String),
}

impl From<&str> for Error {
    /// An error with the given message.
    fn from(s: &str) -> (e: Self)
        ensures
            e matches Error::Other(m) && m@ == s@,
    {
        Error::Other(s.to_owned())
    }
}

impl vstd::std_specs::convert::FromSpecImpl<&str> for Error {
    open spec fn obeys_from_spec() -> bool {
        false
    }

    open spec fn from_spec(v: &str) -> Error {
        arbitrary()
    }
}

} // verus!
