//! The queue as a mathematical state machine.
//!
//! A [`QueueView`] is what a queue is, apart from how it is laid out in
//! memory: the stored messages in the order they arrived and the callers that
//! wait on it, longest wait first. Each request is a pair of functions on that
//! state: one gives the state afterwards, the other what the request returns.

use vstd::prelude::*;
use crate::error::QueueError;
use crate::step::{Step, Wake};
use crate::timeout::Timeout;

verus! {

/// One suspended caller.
pub struct WaiterView {
    /// Who waits.
    pub caller: u64,
    /// The tick at which the wait gives up, if it ever does.
    pub deadline: Option<u64>,
    /// The message a producer wants stored; empty for a consumer.
    pub message: Seq<u8>,
}

impl WaiterView {
    /// This is a wait of `caller`, and its deadline has come at `now`.
    pub open spec fn due(self, caller: u64, now: u64) -> bool {
        &&& self.caller == caller
        &&& self.deadline matches Some(tick)
        &&& tick <= now
    }
}

/// `i` is the position of the longest wait in `list` that is due.
pub open spec fn is_first_due(list: Seq<WaiterView>, caller: u64, now: u64, i: int) -> bool {
    &&& 0 <= i < list.len()
    &&& list[i].due(caller, now)
    &&& forall|j: int| 0 <= j < i ==> !(#[trigger] list[j]).due(caller, now)
}

/// The position of the longest wait in `list` that is due, if one is.
pub open spec fn first_due(list: Seq<WaiterView>, caller: u64, now: u64) -> Option<int> {
    if exists|i: int| is_first_due(list, caller, now, i) {
        Some(choose|i: int| is_first_due(list, caller, now, i))
    } else {
        None
    }
}

/// No other position is the first that is due.
pub proof fn lemma_first_due(list: Seq<WaiterView>, caller: u64, now: u64, i: int)
    requires
        is_first_due(list, caller, now, i),
    ensures
        first_due(list, caller, now) == Some(i),
{
}

/// Among the waits that are due there is a first: at `j` or before.
pub proof fn lemma_least_due(list: Seq<WaiterView>, caller: u64, now: u64, j: int) -> (i: int)
    requires
        0 <= j < list.len(),
        list[j].due(caller, now),
    ensures
        i <= j,
        is_first_due(list, caller, now, i),
    decreases j,
{
    if exists|k: int| 0 <= k < j && (#[trigger] list[k]).due(caller, now) {
        let k = choose|k: int| 0 <= k < j && (#[trigger] list[k]).due(caller, now);
        lemma_least_due(list, caller, now, k)
    } else {
        j
    }
}

/// Where `first_due` finds nothing, no wait is due.
pub proof fn lemma_first_due_none(list: Seq<WaiterView>, caller: u64, now: u64)
    requires
        first_due(list, caller, now).is_none(),
    ensures
        forall|j: int| 0 <= j < list.len() ==> !(#[trigger] list[j]).due(caller, now),
{
    assert forall|j: int| 0 <= j < list.len() implies !(#[trigger] list[j]).due(caller, now) by {
        if list[j].due(caller, now) {
            let i = lemma_least_due(list, caller, now, j);
        }
    }
}

/// The wake-ups that release every waiter of `list` with `Purged`, in the
/// order of the list.
pub open spec fn purged(list: Seq<WaiterView>) -> Seq<Wake> {
    Seq::new(
        list.len(),
        |i: int| Wake { caller: list[i].caller, result: Err(QueueError::Purged) },
    )
}

/// The abstract state of a message queue.
#[verifier::ext_equal]
pub struct QueueView {
    /// The most messages the queue can store; fixed at creation.
    pub capacity: nat,
    /// The length of every message in bytes; fixed at creation.
    pub message_size: nat,
    /// The slot of the oldest stored message.
    pub head: nat,
    /// The stored messages, oldest first.
    pub messages: Seq<Seq<u8>>,
    /// The callers that wait for space, longest wait first.
    pub producers: Seq<WaiterView>,
    /// The callers that wait for a message, longest wait first.
    pub consumers: Seq<WaiterView>,
}

impl QueueView {
    /// What holds of every queue between two requests.
    ///
    /// Nobody waits for what is there: producers wait only on a full queue,
    /// consumers only on an empty one.
    pub open spec fn wf(self) -> bool {
        &&& 0 < self.capacity
        &&& 0 < self.message_size
        &&& self.head < self.capacity
        &&& self.messages.len() <= self.capacity
        &&& forall|i: int|
            0 <= i < self.messages.len() ==> (#[trigger] self.messages[i]).len()
                == self.message_size
        &&& self.producers.len() > 0 ==> self.messages.len() == self.capacity
        &&& self.consumers.len() > 0 ==> self.messages.len() == 0
        &&& forall|i: int|
            0 <= i < self.producers.len() ==> (#[trigger] self.producers[i]).message.len()
                == self.message_size
        &&& forall|i: int|
            0 <= i < self.consumers.len() ==> (#[trigger] self.consumers[i]).message.len() == 0
    }

    /// A new queue: nothing stored, nobody waiting.
    pub open spec fn empty(capacity: nat, message_size: nat) -> QueueView {
        QueueView {
            capacity,
            message_size,
            head: 0,
            messages: Seq::empty(),
            producers: Seq::empty(),
            consumers: Seq::empty(),
        }
    }

    /// The number of stored messages.
    pub open spec fn len(self) -> nat {
        self.messages.len()
    }

    /// Nothing is stored.
    pub open spec fn is_empty(self) -> bool {
        self.messages.len() == 0
    }

    /// As many messages are stored as the queue can store.
    pub open spec fn is_full(self) -> bool {
        self.messages.len() == self.capacity
    }

    /// The slot that the next stored message goes to.
    pub open spec fn tail(self) -> nat {
        (self.head + self.messages.len()) % self.capacity
    }

    /// Every message that is in the queue's keeping, in the order in which
    /// the messages will leave: those stored, then those of the producers that
    /// wait.
    pub open spec fn backlog(self) -> Seq<Seq<u8>> {
        self.messages + Seq::new(self.producers.len(), |i: int| self.producers[i].message)
    }

    /// `msg` stored at the tail.
    pub open spec fn enqueue(self, msg: Seq<u8>) -> QueueView {
        QueueView { messages: self.messages.push(msg), ..self }
    }

    /// The oldest message taken from the head, which moves on by one slot.
    pub open spec fn dequeue(self) -> QueueView {
        QueueView {
            head: (self.head + 1) % self.capacity,
            messages: self.messages.drop_first(),
            ..self
        }
    }

    /// The queue after `put`.
    ///
    /// With room, the message is stored at the tail; if a consumer waits, the
    /// longest-waiting one takes it from the head at once and leaves its
    /// wait-list. Without room, the queue is unchanged for a caller that does
    /// not wait, and gains the caller as its newest producer otherwise.
    pub open spec fn put_next(self, msg: Seq<u8>, timeout: Timeout, caller: u64, now: u64)
        -> QueueView {
        if self.messages.len() < self.capacity {
            let stored = self.enqueue(msg);
            if self.consumers.len() > 0 {
                QueueView { consumers: self.consumers.drop_first(), ..stored.dequeue() }
            } else {
                stored
            }
        } else if timeout is Immediate {
            self
        } else {
            QueueView {
                producers: self.producers.push(
                    WaiterView { caller, deadline: timeout.deadline(now), message: msg },
                ),
                ..self
            }
        }
    }

    /// What `put` returns.
    pub open spec fn put_result(self, timeout: Timeout) -> Result<Step<()>, QueueError> {
        if self.messages.len() < self.capacity {
            Ok(
                Step::Done {
                    value: (),
                    wake: if self.consumers.len() > 0 {
                        Some(Wake { caller: self.consumers[0].caller, result: Ok(()) })
                    } else {
                        None
                    },
                },
            )
        } else if timeout is Immediate {
            Err(QueueError::Full)
        } else {
            Ok(Step::Blocked)
        }
    }

    /// The queue after `get`.
    ///
    /// With a message stored, the oldest leaves from the head; if a producer
    /// waits, the message of the longest-waiting one is stored in the freed
    /// slot and it leaves its wait-list. With none stored, the queue is
    /// unchanged for a caller that does not wait, and gains the caller as its
    /// newest consumer otherwise.
    pub open spec fn get_next(self, timeout: Timeout, caller: u64, now: u64) -> QueueView {
        if self.messages.len() > 0 {
            let taken = self.dequeue();
            if self.producers.len() > 0 {
                QueueView {
                    producers: self.producers.drop_first(),
                    ..taken.enqueue(self.producers[0].message)
                }
            } else {
                taken
            }
        } else if timeout is Immediate {
            self
        } else {
            QueueView {
                consumers: self.consumers.push(
                    WaiterView { caller, deadline: timeout.deadline(now), message: Seq::empty() },
                ),
                ..self
            }
        }
    }

    /// What `get` returns.
    pub open spec fn get_result(self, timeout: Timeout) -> Result<Step<Seq<u8>>, QueueError> {
        if self.messages.len() > 0 {
            Ok(
                Step::Done {
                    value: self.messages[0],
                    wake: if self.producers.len() > 0 {
                        Some(Wake { caller: self.producers[0].caller, result: Ok(()) })
                    } else {
                        None
                    },
                },
            )
        } else if timeout is Immediate {
            Err(QueueError::Empty)
        } else {
            Ok(Step::Blocked)
        }
    }

    /// What `peek` returns; it leaves the queue as it is.
    pub open spec fn peek_result(self) -> Result<Seq<u8>, QueueError> {
        if self.messages.len() > 0 {
            Ok(self.messages[0])
        } else {
            Err(QueueError::Empty)
        }
    }

    /// The queue after a purge: as new.
    pub open spec fn purge_next(self) -> QueueView {
        QueueView::empty(self.capacity, self.message_size)
    }

    /// What a purge returns: a wake-up with `Purged` for every waiter,
    /// producers first, each list longest wait first.
    pub open spec fn purge_wakes(self) -> Seq<Wake> {
        purged(self.producers) + purged(self.consumers)
    }

    /// The queue after `expire`: without the longest due wait of `caller`,
    /// looked for among the producers first.
    pub open spec fn expire_next(self, caller: u64, now: u64) -> QueueView {
        match first_due(self.producers, caller, now) {
            Some(i) => QueueView { producers: self.producers.remove(i), ..self },
            None => match first_due(self.consumers, caller, now) {
                Some(i) => QueueView { consumers: self.consumers.remove(i), ..self },
                None => self,
            },
        }
    }

    /// What `expire` returns: a wake-up with `Timeout` if a due wait of
    /// `caller` was found.
    pub open spec fn expire_result(self, caller: u64, now: u64) -> Option<Wake> {
        if first_due(self.producers, caller, now).is_some() || first_due(
            self.consumers,
            caller,
            now,
        ).is_some() {
            Some(Wake { caller, result: Err(QueueError::Timeout) })
        } else {
            None
        }
    }
}

} // verus!
