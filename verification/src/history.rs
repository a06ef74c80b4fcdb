//! Sequences of requests, for laws that speak of more than one step.

use vstd::prelude::*;
use crate::model::QueueView;
use crate::step::Step;
use crate::timeout::Timeout;

verus! {

/// One `put` or `get`, with everything the request is given.
pub enum Request {
    Put { msg: Seq<u8>, timeout: Timeout, caller: u64, now: u64 },
    Get { timeout: Timeout, caller: u64, now: u64 },
}

impl QueueView {
    /// The queue after `request`.
    pub open spec fn after(self, request: Request) -> QueueView {
        match request {
            Request::Put { msg, timeout, caller, now } => self.put_next(msg, timeout, caller, now),
            Request::Get { timeout, caller, now } => self.get_next(timeout, caller, now),
        }
    }

    /// `request` needs no waiting: a `put` of a message of the right size
    /// finds room, a `get` finds a message.
    pub open spec fn serves(self, request: Request) -> bool {
        match request {
            Request::Put { msg, .. } => msg.len() == self.message_size && self.messages.len()
                < self.capacity,
            Request::Get { .. } => self.messages.len() > 0,
        }
    }

    /// The queue after `requests`, made one after the other.
    pub open spec fn run(self, requests: Seq<Request>) -> QueueView
        decreases requests.len(),
    {
        if requests.len() == 0 {
            self
        } else {
            self.run(requests.drop_last()).after(requests.last())
        }
    }

    /// None of `requests`, made one after the other, needs waiting.
    pub open spec fn serves_all(self, requests: Seq<Request>) -> bool
        decreases requests.len(),
    {
        requests.len() == 0 || (self.serves_all(requests.drop_last()) && self.run(
            requests.drop_last(),
        ).serves(requests.last()))
    }

    /// What `request` returns to its caller at once, if it is a `get` that
    /// returns a message.
    pub open spec fn hands_out(self, request: Request) -> Option<Seq<u8>> {
        match request {
            Request::Put { .. } => None,
            Request::Get { timeout, .. } => match self.get_result(timeout) {
                Ok(Step::Done { value, .. }) => Some(value),
                _ => None,
            },
        }
    }

    /// The messages that the `get`s among `requests` return, in order.
    pub open spec fn received(self, requests: Seq<Request>) -> Seq<Seq<u8>>
        decreases requests.len(),
    {
        if requests.len() == 0 {
            Seq::empty()
        } else {
            let before = self.received(requests.drop_last());
            match self.run(requests.drop_last()).hands_out(requests.last()) {
                Some(msg) => before.push(msg),
                None => before,
            }
        }
    }
}

/// The messages that the `put`s among `requests` offer, in order.
pub open spec fn offered(requests: Seq<Request>) -> Seq<Seq<u8>>
    decreases requests.len(),
{
    if requests.len() == 0 {
        Seq::empty()
    } else {
        let before = offered(requests.drop_last());
        match requests.last() {
            Request::Put { msg, .. } => before.push(msg),
            Request::Get { .. } => before,
        }
    }
}

/// A `put` of each message of `msgs` in turn, by callers that do not wait.
pub open spec fn puts(msgs: Seq<Seq<u8>>) -> Seq<Request> {
    Seq::new(
        msgs.len(),
        |i: int| Request::Put { msg: msgs[i], timeout: Timeout::Immediate, caller: 0, now: 0 },
    )
}

/// `count` requests `get` in a row, by callers that do not wait.
pub open spec fn gets(count: nat) -> Seq<Request> {
    Seq::new(count, |i: int| Request::Get { timeout: Timeout::Immediate, caller: 0, now: 0 })
}

/// The last of some `put`s comes after the `put`s of the messages before.
pub proof fn lemma_puts_step(msgs: Seq<Seq<u8>>)
    requires
        msgs.len() > 0,
    ensures
        puts(msgs).drop_last() == puts(msgs.drop_last()),
        puts(msgs).last() == (Request::Put {
            msg: msgs.last(),
            timeout: Timeout::Immediate,
            caller: 0,
            now: 0,
        }),
{
}

/// The last of some `get`s comes after one `get` fewer.
pub proof fn lemma_gets_step(count: nat)
    requires
        count > 0,
    ensures
        gets(count).drop_last() == gets((count - 1) as nat),
        gets(count).last() == (Request::Get { timeout: Timeout::Immediate, caller: 0, now: 0 }),
{
}

} // verus!
