//! How long a caller is prepared to wait.

use vstd::prelude::*;

verus! {

/// The waiting policy of a `put` or `get`.
#[derive(Clone, Copy, Debug, PartialEq, Eq, Structural)]
pub enum Timeout {
    /// Try once and never suspend.
    Immediate,
    /// Wait until served or purged.
    Forever,
    /// Wait for at most this many ticks.
    After(u64),
}

impl Timeout {
    /// The tick at which a wait that starts at `now` gives up; `None` when it
    /// never does. A deadline beyond the last tick the clock can show is never
    /// reached, so it counts as none. A caller that does not wait has nothing
    /// to wait for from the start.
    pub open spec fn spec_deadline(self, now: u64) -> Option<u64> {
        match self {
            Timeout::Immediate => Some(now),
            Timeout::Forever => None,
            Timeout::After(ticks) => if now + ticks <= u64::MAX {
                Some((now + ticks) as u64)
            } else {
                None
            },
        }
    }

    /// The tick at which a wait that starts at `now` gives up, if it ever
    /// does.
    #[verifier::when_used_as_spec(spec_deadline)]
    pub fn deadline(self, now: u64) -> (r: Option<u64>)
        ensures
            r == self.spec_deadline(now),
    {
        match self {
            Timeout::Immediate => Some(now),
            Timeout::Forever => None,
            Timeout::After(ticks) => now.checked_add(ticks),
        }
    }
}

} // verus!
