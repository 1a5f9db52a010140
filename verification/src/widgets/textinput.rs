use vstd::prelude::*;

verus! {

/// A text field's content.
pub struct TextInput {
    text: String,
}

impl View for TextInput {
    type V = Seq<char>;

    closed spec fn view(&self) -> Seq<char> {
        self.text@
    }
}

impl TextInput {
    /// An empty field.
    pub fn new() -> (t: Self)
        ensures
            t@ == Seq::<char>::empty(),
    {
        TextInput { text: String::new() }
    }

    /// The field now holding `s`.
    pub fn update(&mut self, s: String)
        ensures
            final(self)@ == s@,
    {
        self.text = s;
    }

    /// What the field holds.
    pub fn value(&self) -> (s: String)
        ensures
            s@ == self@,
    {
        self.text.clone()
    }
}

} // verus!
