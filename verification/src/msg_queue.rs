//! The message queue: a ring of stored messages and the two lists of callers
//! that wait on it.

use vstd::prelude::*;
use vstd::slice::slice_to_vec;
use crate::error::QueueError;
use crate::model::{QueueView, WaiterView, first_due, lemma_first_due, purged};
use crate::ring::{Ring, lemma_wrap_is_remainder};
use crate::step::{Step, Wake, result_view};
use crate::timeout::Timeout;

verus! {

/// The record of one suspended caller.
struct Waiter {
    caller: u64,
    deadline: Option<u64>,
    message: Vec<u8>,
}

impl View for Waiter {
    type V = WaiterView;

    closed spec fn view(&self) -> WaiterView {
        WaiterView { caller: self.caller, deadline: self.deadline, message: self.message@ }
    }
}

/// A wait-list as the model sees it.
spec fn waiters(list: Seq<Waiter>) -> Seq<WaiterView> {
    Seq::new(list.len(), |i: int| list[i]@)
}

/// The position of the longest wait of `caller` in `list` that is due at
/// `now`.
fn find_due(list: &Vec<Waiter>, caller: u64, now: u64) -> (found: Option<usize>)
    ensures
        match found {
            Some(i) => first_due(waiters(list@), caller, now) == Some(i as int),
            None => first_due(waiters(list@), caller, now).is_none(),
        },
{
    let mut i: usize = 0;
    while i < list.len()
        invariant
            i <= list@.len(),
            forall|j: int| 0 <= j < i ==> !(#[trigger] waiters(list@)[j]).due(caller, now),
        decreases list@.len() - i,
    {
        let due = list[i].caller == caller && match list[i].deadline {
            Some(tick) => tick <= now,
            None => false,
        };
        if due {
            proof {
                lemma_first_due(waiters(list@), caller, now, i as int);
            }
            return Some(i);
        }
        i += 1;
    }
    None
}

/// Empties `list` and appends to `wakes` a wake-up with `Purged` for each of
/// its waiters, in order.
fn release_all(list: &mut Vec<Waiter>, wakes: &mut Vec<Wake>)
    ensures
        final(list)@.len() == 0,
        final(wakes)@ == old(wakes)@ + purged(waiters(old(list)@)),
{
    let mut i: usize = 0;
    while i < list.len()
        invariant
            i <= list@.len(),
            list@ == old(list)@,
            wakes@ == old(wakes)@ + purged(waiters(list@)).take(i as int),
        decreases list@.len() - i,
    {
        wakes.push(Wake { caller: list[i].caller, result: Err(QueueError::Purged) });
        i += 1;
    }
    list.clear();
}

/// A buffer of `size` zero bytes, or `None` where the memory cannot be had. An
/// empty buffer asks for none, more than `isize::MAX` bytes cannot be had, and
/// in between the allocator is asked and [`filled`] acts on its answer.
fn zeroed(size: usize) -> (allocated: Option<Vec<u8>>)
    ensures
        allocated matches Some(buffer) ==> buffer@ == zeros(size as nat),
        size == 0 ==> allocated.is_some(),
        size > isize::MAX ==> allocated.is_none(),
{
    if size == 0 {
        return Some(Vec::new());
    }
    if size > isize::MAX as usize {
        return None;
    }
    let mut buffer: Vec<u8> = Vec::new();
    let reserved = buffer.try_reserve(size).is_ok();
    filled(buffer, reserved, size)
}

/// `size` zero bytes.
spec fn zeros(size: nat) -> Seq<u8> {
    Seq::new(size, |i: int| 0u8)
}

/// What becomes of the empty `buffer` for which the allocator was asked for
/// `size` bytes: where it `reserved` them the buffer is filled with zeros,
/// where it refused there is no buffer.
fn filled(buffer: Vec<u8>, reserved: bool, size: usize) -> (allocated: Option<Vec<u8>>)
    requires
        buffer@.len() == 0,
    ensures
        match allocated {
            Some(full) => reserved && full@ == zeros(size as nat),
            None => !reserved,
        },
{
    if !reserved {
        return None;
    }
    let mut buffer = buffer;
    let mut count: usize = 0;
    while count < size
        invariant
            count <= size,
            buffer@ == zeros(count as nat),
        decreases size - count,
    {
        buffer.push(0u8);
        count += 1;
    }
    Some(buffer)
}

/// A bounded queue of messages of one fixed size.
///
/// The queue never suspends anybody itself. A `put` or `get` that cannot be
/// served and may wait answers [`Step::Blocked`] and records the caller; a
/// later request that serves, purges or expires that wait answers with the
/// [`Wake`] for it. Whoever runs the callers acts on both.
pub struct MsgQueue {
    ring: Ring,
    producers: Vec<Waiter>,
    consumers: Vec<Waiter>,
}

impl View for MsgQueue {
    type V = QueueView;

    closed spec fn view(&self) -> QueueView {
        QueueView {
            capacity: self.ring.spec_capacity(),
            message_size: self.ring.spec_message_size(),
            head: self.ring.spec_head(),
            messages: self.ring.messages(),
            producers: waiters(self.producers@),
            consumers: waiters(self.consumers@),
        }
    }
}

impl MsgQueue {
    /// The ring buffer is laid out as its indices say.
    pub closed spec fn laid_out(&self) -> bool {
        self.ring.wf()
    }

    /// The queue is in a state that its constructors and requests produce.
    pub open spec fn wf(&self) -> bool {
        &&& self.laid_out()
        &&& self@.wf()
    }

    /// An empty queue of `max_msgs` messages of `msg_size` bytes over a buffer
    /// that the caller has set aside for it.
    pub fn with_buffer(buffer: Vec<u8>, max_msgs: u32, msg_size: usize) -> (queue: MsgQueue)
        requires
            0 < max_msgs,
            0 < msg_size,
            buffer@.len() == max_msgs * msg_size,
        ensures
            queue.wf(),
            queue@ == QueueView::empty(max_msgs as nat, msg_size as nat),
    {
        let queue = MsgQueue {
            ring: Ring::with_buffer(buffer, max_msgs as usize, msg_size),
            producers: Vec::new(),
            consumers: Vec::new(),
        };
        queue
    }

    /// An empty queue of `max_msgs` messages of `msg_size` bytes over a newly
    /// allocated buffer.
    ///
    /// Fails with `NoMem` when the buffer cannot be had: always when it would
    /// be larger than an allocation can be, and otherwise whenever the
    /// allocator refuses.
    pub fn init(max_msgs: u32, msg_size: usize) -> (r: Result<MsgQueue, QueueError>)
        requires
            0 < max_msgs,
            0 < msg_size,
        ensures
            match r {
                Ok(queue) => queue.wf() && queue@ == QueueView::empty(
                    max_msgs as nat,
                    msg_size as nat,
                ),
                Err(e) => e == QueueError::NoMem,
            },
            max_msgs * msg_size > isize::MAX ==> r is Err,
    {
        let size: usize = match (max_msgs as usize).checked_mul(msg_size) {
            Some(size) => size,
            None => {
                return Err(QueueError::NoMem);
            },
        };
        match zeroed(size) {
            Some(buffer) => Ok(MsgQueue::with_buffer(buffer, max_msgs, msg_size)),
            None => Err(QueueError::NoMem),
        }
    }

    /// The most messages the queue can store.
    pub fn capacity(&self) -> (n: usize)
        requires
            self.wf(),
        ensures
            n == self@.capacity,
    {
        self.ring.capacity()
    }

    /// The length in bytes of every message.
    pub fn message_size(&self) -> (n: usize)
        requires
            self.wf(),
        ensures
            n == self@.message_size,
    {
        self.ring.message_size()
    }

    /// The number of messages stored now.
    pub fn len(&self) -> (n: usize)
        requires
            self.wf(),
        ensures
            n == self@.len(),
    {
        self.ring.len()
    }

    /// Whether nothing is stored.
    pub fn is_empty(&self) -> (b: bool)
        requires
            self.wf(),
        ensures
            b == self@.is_empty(),
    {
        self.ring.len() == 0
    }

    /// Whether as many messages are stored as the queue can store.
    pub fn is_full(&self) -> (b: bool)
        requires
            self.wf(),
        ensures
            b == self@.is_full(),
    {
        self.ring.len() == self.ring.capacity()
    }

    /// Offers `msg` to the queue on behalf of `caller` at tick `now`.
    ///
    /// With room, the message is stored and the answer is `Done`; if a
    /// consumer was waiting, the longest-waiting one receives this message and
    /// the answer carries its wake-up. Without room, the answer is `Full` for
    /// an immediate timeout and `Blocked` otherwise, and the caller then waits
    /// as the newest producer, until `now` plus its duration if it gave one.
    pub fn put(&mut self, msg: &[u8], timeout: Timeout, caller: u64, now: u64) -> (r: Result<
        Step<()>,
        QueueError,
    >)
        requires
            old(self).wf(),
            msg@.len() == old(self)@.message_size,
        ensures
            final(self).wf(),
            final(self)@ == old(self)@.put_next(msg@, timeout, caller, now),
            r == old(self)@.put_result(timeout),
            old(self)@.is_full() && timeout is Immediate ==> r == Err::<Step<()>, _>(
                QueueError::Full,
            ) && final(self)@ == old(self)@,
    {
        if self.ring.len() < self.ring.capacity() {
            self.ring.push(msg);
            if self.consumers.len() > 0 {
                let waiter = self.consumers.remove(0);
                self.ring.drop_front();
                proof {
                    lemma_wrap_is_remainder(old(self)@.head as int + 1, old(self)@.capacity as int);
                    assert(self@.consumers =~= old(self)@.consumers.drop_first());
                }
                Ok(Step::Done { value: (), wake: Some(Wake { caller: waiter.caller, result: Ok(()) }) })
            } else {
                Ok(Step::Done { value: (), wake: None })
            }
        } else {
            match timeout {
                Timeout::Immediate => Err(QueueError::Full),
                _ => {
                    let waiter = Waiter {
                        caller,
                        deadline: timeout.deadline(now),
                        message: slice_to_vec(msg),
                    };
                    self.producers.push(waiter);
                    proof {
                        assert(self@.producers =~= old(self)@.producers.push(
                            WaiterView { caller, deadline: timeout.deadline(now), message: msg@ },
                        ));
                    }
                    Ok(Step::Blocked)
                },
            }
        }
    }

    /// Asks for the oldest message on behalf of `caller` at tick `now`.
    ///
    /// With a message stored, the answer is `Done` with a copy of the oldest,
    /// which leaves the queue; if a producer was waiting, the message of the
    /// longest-waiting one is stored in the freed slot and the answer carries
    /// its wake-up. With none stored, the answer is `Empty` for an immediate
    /// timeout and `Blocked` otherwise, and the caller then waits as the
    /// newest consumer, until `now` plus its duration if it gave one.
    pub fn get(&mut self, timeout: Timeout, caller: u64, now: u64) -> (r: Result<
        Step<Vec<u8>>,
        QueueError,
    >)
        requires
            old(self).wf(),
        ensures
            final(self).wf(),
            final(self)@ == old(self)@.get_next(timeout, caller, now),
            result_view(r) == old(self)@.get_result(timeout),
            old(self)@.is_empty() && timeout is Immediate ==> r == Err::<Step<Vec<u8>>, _>(
                QueueError::Empty,
            ) && final(self)@ == old(self)@,
    {
        if self.ring.len() > 0 {
            let msg = self.ring.front();
            self.ring.drop_front();
            proof {
                lemma_wrap_is_remainder(old(self)@.head as int + 1, old(self)@.capacity as int);
            }
            if self.producers.len() > 0 {
                let waiter = self.producers.remove(0);
                self.ring.push(waiter.message.as_slice());
                proof {
                    assert(self@.producers =~= old(self)@.producers.drop_first());
                }
                Ok(Step::Done { value: msg, wake: Some(Wake { caller: waiter.caller, result: Ok(()) }) })
            } else {
                Ok(Step::Done { value: msg, wake: None })
            }
        } else {
            match timeout {
                Timeout::Immediate => Err(QueueError::Empty),
                _ => {
                    let waiter = Waiter {
                        caller,
                        deadline: timeout.deadline(now),
                        message: Vec::new(),
                    };
                    self.consumers.push(waiter);
                    proof {
                        assert(self@.consumers =~= old(self)@.consumers.push(
                            WaiterView {
                                caller,
                                deadline: timeout.deadline(now),
                                message: Seq::empty(),
                            },
                        ));
                    }
                    Ok(Step::Blocked)
                },
            }
        }
    }

    /// A copy of the oldest message, which stays in the queue; `Empty` when
    /// nothing is stored. Nobody is suspended and nobody is woken.
    pub fn peek(&self) -> (r: Result<Vec<u8>, QueueError>)
        requires
            self.wf(),
        ensures
            result_view(r) == self@.peek_result(),
    {
        if self.ring.len() > 0 {
            Ok(self.ring.front())
        } else {
            Err(QueueError::Empty)
        }
    }

    /// Discards every stored message and releases every waiter.
    ///
    /// The queue is afterwards as it was when created. The answer holds a
    /// wake-up with `Purged` for each caller that was waiting: the producers
    /// first, each list longest wait first.
    pub fn purge(&mut self) -> (wakes: Vec<Wake>)
        requires
            old(self).wf(),
        ensures
            final(self).wf(),
            final(self)@ == old(self)@.purge_next(),
            wakes@ == old(self)@.purge_wakes(),
    {
        let mut wakes: Vec<Wake> = Vec::new();
        self.ring.clear();
        release_all(&mut self.producers, &mut wakes);
        release_all(&mut self.consumers, &mut wakes);
        wakes
    }

    /// Ends a wait of `caller` whose deadline has come at tick `now`.
    ///
    /// If `caller` has such a wait, the longest of them leaves its wait-list
    /// and the answer is its wake-up with `Timeout`. Otherwise nothing changes
    /// and the answer is `None`: the caller is not waiting, waits without a
    /// deadline, or its deadline lies after `now`. The stored messages are
    /// never touched.
    pub fn expire(&mut self, caller: u64, now: u64) -> (wake: Option<Wake>)
        requires
            old(self).wf(),
        ensures
            final(self).wf(),
            final(self)@ == old(self)@.expire_next(caller, now),
            wake == old(self)@.expire_result(caller, now),
            final(self)@.messages == old(self)@.messages,
    {
        match find_due(&self.producers, caller, now) {
            Some(i) => {
                self.producers.remove(i);
                proof {
                    assert(self@.producers =~= old(self)@.producers.remove(i as int));
                }
                Some(Wake { caller, result: Err(QueueError::Timeout) })
            },
            None => match find_due(&self.consumers, caller, now) {
                Some(i) => {
                    self.consumers.remove(i);
                    proof {
                        assert(self@.consumers =~= old(self)@.consumers.remove(i as int));
                    }
                    Some(Wake { caller, result: Err(QueueError::Timeout) })
                },
                None => None,
            },
        }
    }
}

} // verus!
