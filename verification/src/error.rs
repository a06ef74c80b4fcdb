//! The closed set of ways in which a queue request can fail.

use vstd::prelude::*;

verus! {

/// Why a request on a message queue did not succeed.
///
/// Every variant is an ordinary, recoverable outcome; none of them leaves the
/// queue in a broken state.
#[derive(Clone, Copy, Debug, PartialEq, Eq, Structural)]
pub enum QueueError {
    /// The caller was suspended and its deadline passed before it was served.
    Timeout,
    /// The queue was full and the caller asked not to wait.
    Full,
    /// The queue was empty and the caller asked not to wait.
    Empty,
    /// The queue was purged while the caller was suspended.
    Purged,
    /// The ring buffer could not be allocated.
    NoMem,
}

} // verus!
