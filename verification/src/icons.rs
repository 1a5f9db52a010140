use vstd::prelude::*;

verus! {

/// The icons the screens show, drawn from the icon font.
#[derive(Debug, Clone, Copy, PartialEq, Eq, Structural)]
pub enum Icon {
    Trash,
    Menu,
    Settings,
    Cross,
    Receipt,
    Print,
    Left,
    Right,
    Money,
    Lock,
    Info,
}

/// The icon font's code point of each icon.
pub open spec fn icon_char(i: Icon) -> char {
    match i {
        Icon::Trash => '\u{e872}',
        Icon::Menu => '\u{e561}',
        Icon::Settings => '\u{e8b8}',
        Icon::Cross => '\u{e5cd}',
        Icon::Receipt => '\u{ef6e}',
        Icon::Print => '\u{e8ad}',
        Icon::Left => '\u{e408}',
        Icon::Right => '\u{e409}',
        Icon::Money => '\u{ef63}',
        Icon::Lock => '\u{e897}',
        Icon::Info => '\u{e88e}',
    }
}

impl From<Icon> for char {
    /// The icon's code point in the icon font.
    fn from(i: Icon) -> (c: char)
        ensures
            c == icon_char(i),
    {
        match i {
            Icon::Trash => '\u{e872}',
            Icon::Menu => '\u{e561}',
            Icon::Settings => '\u{e8b8}',
            Icon::Cross => '\u{e5cd}',
            Icon::Receipt => '\u{ef6e}',
            Icon::Print => '\u{e8ad}',
            Icon::Left => '\u{e408}',
            Icon::Right => '\u{e409}',
            Icon::Money => '\u{ef63}',
            Icon::Lock => '\u{e897}',
            Icon::Info => '\u{e88e}',
        }
    }
}

impl vstd::std_specs::convert::FromSpecImpl<Icon> for char {
    open spec fn obeys_from_spec() -> bool {
        true
    }

    open spec fn from_spec(v: Icon) -> char {
        icon_char(v)
    }
}

/// `char::to_string`: the text made of the one character.
#[verifier::external_body]
fn char_to_string(c: char) -> (s: String)
    ensures
        s@ == seq![c],
{
    c.to_string()
}

impl From<Icon> for String {
    /// The icon's code point as a text.
    fn from(i: Icon) -> (s: String)
        ensures
            s@ == seq![icon_char(i)],
    {
        char_to_string(char::from(i))
    }
}

impl vstd::std_specs::convert::FromSpecImpl<Icon> for String {
    open spec fn obeys_from_spec() -> bool {
        false
    }

    open spec fn from_spec(v: Icon) -> String {
        arbitrary()
    }
}

} // verus!
