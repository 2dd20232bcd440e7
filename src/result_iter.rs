//! Pull-based sequences of results, the adapter that ends them at their first
//! failure, and the two ways of aggregating them.
use crate::multi_error::MultiError;
use crate::outcome::{
    errors_of, fail_fast_outcome, fail_slow_outcome, lemma_errors_of_append,
    lemma_payloads_of_append, payloads_of, truncated,
};
use std::collections::VecDeque;
use std::marker::PhantomData;
use vstd::prelude::*;

verus! {

/// A finite sequence of results that hands out its elements one at a time.
pub trait ResultSource<T, E>: Sized {
    /// The elements that the sequence has still to hand out, in order.
    spec fn remaining(&self) -> Seq<Result<T, E>>;

    /// Hands out the next element, or `None` once the sequence is exhausted.
    fn next_result(&mut self) -> (r: Option<Result<T, E>>)
        ensures
            old(self).remaining().len() == 0 ==> r is None && final(self).remaining()
                == old(self).remaining(),
            old(self).remaining().len() > 0 ==> r == Some(old(self).remaining()[0])
                && final(self).remaining() == old(self).remaining().drop_first(),
    ;
}

/// The operations that end a sequence of results at its first failure or
/// aggregate it; every sequence of results has them.
pub trait ResultIterExt<T, E>: ResultSource<T, E> {
    /// A sequence that hands out the elements of this one up to and including
    /// its first failure, and then nothing more.
    fn end_if_err(self) -> (r: EndIfErrIter<T, E, Self>)
        ensures
            r.remaining() == truncated(self.remaining()),
    ;

    /// Drains the sequence. Returns every payload when no element failed,
    /// otherwise every error, in encounter order.
    fn fail_slow_if_err(self) -> (r: Result<Vec<T>, MultiError<E>>)
        ensures
            match r {
                Ok(v) => fail_slow_outcome(self.remaining()) == Ok::<Seq<T>, Seq<E>>(v@),
                Err(m) => fail_slow_outcome(self.remaining()) == Err::<Seq<T>, Seq<E>>(m@),
            },
    ;

    /// Drains the sequence up to its first failure. Returns every payload when
    /// no element failed, otherwise the first error.
    fn fail_fast_if_err(self) -> (r: Result<Vec<T>, E>)
        ensures
            match r {
                Ok(v) => fail_fast_outcome(self.remaining()) == Ok::<Seq<T>, E>(v@),
                Err(e) => fail_fast_outcome(self.remaining()) == Err::<Seq<T>, E>(e),
            },
    ;
}

impl<T, E, S: ResultSource<T, E>> ResultIterExt<T, E> for S {
    fn end_if_err(self) -> (r: EndIfErrIter<T, E, Self>) {
        EndIfErrIter { inner: self, state: State::Continue, marker: PhantomData }
    }

    fn fail_slow_if_err(self) -> (r: Result<Vec<T>, MultiError<E>>) {
        let ghost all = self.remaining();
        let mut rest = self;
        let mut goodies: Vec<T> = Vec::new();
        let mut baddies: Vec<E> = Vec::new();
        let mut still_ok = true;
        let ghost mut seen: Seq<Result<T, E>> = Seq::empty();
        loop
            invariant
                all == seen + rest.remaining(),
                baddies@ == errors_of(seen),
                still_ok == (baddies@.len() == 0),
                still_ok ==> goodies@ == payloads_of(seen),
            ensures
                all == seen,
                baddies@ == errors_of(seen),
                baddies@.len() == 0 ==> goodies@ == payloads_of(seen),
            decreases rest.remaining().len(),
        {
            match rest.next_result() {
                None => {
                    assert(seen + rest.remaining() =~= seen);
                    break;
                },
                Some(el) => {
                    proof {
                        lemma_errors_of_append(seen, seq![el]);
                        lemma_payloads_of_append(seen, seq![el]);
                        reveal_with_fuel(errors_of, 2);
                        reveal_with_fuel(payloads_of, 2);
                        assert(seq![el].drop_first() =~= Seq::<Result<T, E>>::empty());
                        assert(all == (seen + seq![el]) + rest.remaining());
                        seen = seen + seq![el];
                    }
                    match el {
                        Ok(a) => {
                            // Once an error is seen the payloads can only be
                            // discarded, so they are no longer kept.
                            if still_ok {
                                goodies.push(a);
                            }
                        },
                        Err(b) => {
                            still_ok = false;
                            baddies.push(b);
                        },
                    }
                },
            }
        }
        if baddies.len() == 0 {
            Ok(goodies)
        } else {
            Err(MultiError::new(baddies))
        }
    }

    fn fail_fast_if_err(self) -> (r: Result<Vec<T>, E>) {
        match self.end_if_err().fail_slow_if_err() {
            Ok(v) => Ok(v),
            Err(m) => {
                // The truncated sequence held exactly one failure.
                let mut errors = m.into_vec();
                Err(errors.swap_remove(0))
            },
        }
    }
}

/// Whether the adapter still passes elements on.
enum State {
    Continue,
    End,
}

/// The elements of an inner sequence up to and including its first failure.
pub struct EndIfErrIter<T, E, I> {
    inner: I,
    state: State,
    marker: PhantomData<(T, E)>,
}

impl<T, E, I: ResultSource<T, E>> ResultSource<T, E> for EndIfErrIter<T, E, I> {
    closed spec fn remaining(&self) -> Seq<Result<T, E>> {
        match self.state {
            State::Continue => truncated(self.inner.remaining()),
            State::End => Seq::empty(),
        }
    }

    fn next_result(&mut self) -> (r: Option<Result<T, E>>) {
        match self.state {
            State::Continue => {
                let ghost s = self.inner.remaining();
                let r = self.inner.next_result();
                match r {
                    Some(n) => {
                        if n.is_err() {
                            self.state = State::End;
                        }
                        assert(s.drop_first() == self.inner.remaining());
                        Some(n)
                    },
                    None => None,
                }
            },
            State::End => None,
        }
    }
}

/// A deque hands out its elements from the front.
impl<T, E> ResultSource<T, E> for VecDeque<Result<T, E>> {
    open spec fn remaining(&self) -> Seq<Result<T, E>> {
        self@
    }

    fn next_result(&mut self) -> (r: Option<Result<T, E>>) {
        self.pop_front()
    }
}

/// A vector hands out its elements from the front; each pull shifts the rest,
/// so a `VecDeque` is the cheaper source for long sequences.
impl<T, E> ResultSource<T, E> for Vec<Result<T, E>> {
    open spec fn remaining(&self) -> Seq<Result<T, E>> {
        self@
    }

    fn next_result(&mut self) -> (r: Option<Result<T, E>>) {
        if self.len() == 0 {
            None
        } else {
            Some(self.remove(0))
        }
    }
}

} // verus!
