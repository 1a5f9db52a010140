use vstd::prelude::*;

verus! {

/// A row of elements shown a few at a time, with buttons to step back and
/// forward: the messages those buttons send, the elements, and how many are
/// shown at once.
pub struct ButtonScroller<M, E> {
    fwd: Option<M>,
    back: Option<M>,
    inner: Vec<E>,
    view_size: usize,
}

/// The view of a scroller: forward message, back message, elements, and how
/// many are shown at once.
pub type ButtonScrollerView<M, E> = (Option<M>, Option<M>, Seq<E>, usize);

impl<M, E> View for ButtonScroller<M, E> {
    type V = ButtonScrollerView<M, E>;

    closed spec fn view(&self) -> ButtonScrollerView<M, E> {
        (self.fwd, self.back, self.inner@, self.view_size)
    }
}

impl<M, E> ButtonScroller<M, E> {
    /// A scroller with no elements and no buttons' messages.
    pub fn new() -> (s: Self)
        ensures
            s@ == (None::<M>, None::<M>, Seq::<E>::empty(), 0usize),
    {
        Self::new_from(Vec::new())
    }

    /// A scroller over `inner`, with no buttons' messages.
    pub fn new_from(inner: Vec<E>) -> (s: Self)
        ensures
            s@ == (None::<M>, None::<M>, inner@, 0usize),
    {
        Self { fwd: None, back: None, inner, view_size: 0 }
    }

    /// The scroller showing `view_size` elements at once.
    pub fn view_size(self, view_size: usize) -> (s: Self)
        ensures
            s@ == (self@.0, self@.1, self@.2, view_size),
    {
        Self { view_size, ..self }
    }

    /// The scroller with its forward button sending `msg`.
    pub fn on_foward(self, msg: M) -> (s: Self)
        ensures
            s@ == (Some(msg), self@.1, self@.2, self@.3),
    {
        Self { fwd: Some(msg), ..self }
    }

    /// The scroller with its back button sending `msg`.
    pub fn on_back(self, msg: M) -> (s: Self)
        ensures
            s@ == (self@.0, Some(msg), self@.2, self@.3),
    {
        Self { back: Some(msg), ..self }
    }
}

} // verus!
