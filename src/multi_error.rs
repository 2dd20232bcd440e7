//! A container of one or more errors, kept in the order they were met.
use vstd::prelude::*;
use vstd::std_specs::iter::IteratorSpec;

verus! {

/// Every error that a sequence of results produced, in encounter order.
#[derive(Debug)]
pub struct MultiError<E> {
    errors: Vec<E>,
}

impl<E> View for MultiError<E> {
    type V = Seq<E>;

    closed spec fn view(&self) -> Seq<E> {
        self.errors@
    }
}

impl<E> MultiError<E> {
    /// Wraps the given errors, keeping their order.
    pub fn new(errors: Vec<E>) -> (r: MultiError<E>)
        ensures
            r@ == errors@,
    {
        MultiError { errors }
    }

    /// The number of errors held.
    pub fn len(&self) -> (r: usize)
        ensures
            r == self@.len(),
    {
        self.errors.len()
    }

    /// The first error, which stands for the whole container when it is
    /// described or displayed.
    pub fn first(&self) -> (r: &E)
        requires
            self@.len() > 0,
        ensures
            *r == self@[0],
    {
        &self.errors[0]
    }

    /// Hands out the errors one at a time, in encounter order.
    pub fn into_iter(self) -> (r: std::vec::IntoIter<E>)
        ensures
            r.remaining() == self@,
    {
        self.errors.into_iter()
    }

    /// Gives up the errors, in encounter order.
    pub fn into_vec(self) -> (r: Vec<E>)
        ensures
            r@ == self@,
    {
        self.errors
    }
}

} // verus!
