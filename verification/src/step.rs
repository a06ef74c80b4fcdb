//! What a request hands back to the scheduler that runs the callers.

use vstd::prelude::*;
use crate::error::QueueError;

verus! {

/// An instruction to make one suspended caller runnable again, with the
/// result its request ends in.
///
/// For a consumer that is woken with `Ok`, the message it receives is the one
/// given to the `put` that woke it.
#[derive(Clone, Copy, Debug, PartialEq, Eq)]
pub struct Wake {
    /// The caller whose wait is over.
    pub caller: u64,
    /// What its `put` or `get` returns.
    pub result: Result<(), QueueError>,
}

/// How a request that did not fail went.
#[derive(Debug, PartialEq, Eq)]
pub enum Step<T> {
    /// The request was carried out at once. It released at most one waiter.
    Done { value: T, wake: Option<Wake> },
    /// The caller has joined a wait-list and must be suspended until a
    /// [`Wake`] names it.
    Blocked,
}

impl<T: View> View for Step<T> {
    type V = Step<T::V>;

    open spec fn view(&self) -> Step<T::V> {
        match *self {
            Step::Done { value, wake } => Step::Done { value: value@, wake },
            Step::Blocked => Step::Blocked,
        }
    }
}

/// The result of a request with the payload, if any, taken by its view.
pub open spec fn result_view<T: View>(r: Result<T, QueueError>) -> Result<T::V, QueueError> {
    match r {
        Ok(value) => Ok(value@),
        Err(e) => Err(e),
    }
}

} // verus!
