//! What holds of every queue, proved of the model that the requests of
//! [`MsgQueue`](crate::msg_queue::MsgQueue) are specified by.

use vstd::prelude::*;
use vstd::arithmetic::div_mod::{lemma_add_mod_noop_right, lemma_small_mod};
use crate::error::QueueError;
use crate::history::{Request, gets, lemma_gets_step, lemma_puts_step, offered, puts};
use crate::model::{QueueView, lemma_first_due, lemma_first_due_none};
use crate::step::{Step, Wake};
use crate::timeout::Timeout;

verus! {

/// A `put` leaves a well-formed queue well-formed, with the capacity and the
/// message size it had.
pub proof fn lemma_put_keeps_wf(
    q: QueueView,
    msg: Seq<u8>,
    timeout: Timeout,
    caller: u64,
    now: u64,
)
    requires
        q.wf(),
        msg.len() == q.message_size,
    ensures
        q.put_next(msg, timeout, caller, now).wf(),
        q.put_next(msg, timeout, caller, now).capacity == q.capacity,
        q.put_next(msg, timeout, caller, now).message_size == q.message_size,
{
}

/// A `get` leaves a well-formed queue well-formed, with the capacity and the
/// message size it had.
pub proof fn lemma_get_keeps_wf(q: QueueView, timeout: Timeout, caller: u64, now: u64)
    requires
        q.wf(),
    ensures
        q.get_next(timeout, caller, now).wf(),
        q.get_next(timeout, caller, now).capacity == q.capacity,
        q.get_next(timeout, caller, now).message_size == q.message_size,
{
}

/// A purge leaves a well-formed queue well-formed, with the capacity and the
/// message size it had.
pub proof fn lemma_purge_keeps_wf(q: QueueView)
    requires
        q.wf(),
    ensures
        q.purge_next().wf(),
        q.purge_next().capacity == q.capacity,
        q.purge_next().message_size == q.message_size,
{
}

/// An `expire` leaves a well-formed queue well-formed and touches nothing but
/// one wait-list.
pub proof fn lemma_expire_keeps_wf(q: QueueView, caller: u64, now: u64)
    requires
        q.wf(),
    ensures
        q.expire_next(caller, now).wf(),
        q.expire_next(caller, now).capacity == q.capacity,
        q.expire_next(caller, now).message_size == q.message_size,
        q.expire_next(caller, now).head == q.head,
        q.expire_next(caller, now).messages == q.messages,
{
}

/// The indices stay inside the ring. Storing a message moves the tail on by
/// one slot and leaves the head; taking one moves the head on by one slot and
/// leaves the tail; both wrap to slot 0 after the last slot. A purge sets
/// both to slot 0.
pub proof fn lemma_indices(q: QueueView, msg: Seq<u8>)
    requires
        q.wf(),
    ensures
        q.head < q.capacity,
        q.tail() < q.capacity,
        q.enqueue(msg).head == q.head,
        q.enqueue(msg).tail() == (q.tail() + 1) % q.capacity,
        q.dequeue().head == (q.head + 1) % q.capacity,
        q.len() > 0 ==> q.dequeue().tail() == q.tail(),
        q.purge_next().head == 0,
        q.purge_next().tail() == 0,
{
    let capacity = q.capacity as int;
    let head = q.head as int;
    let len = q.messages.len() as int;
    lemma_add_mod_noop_right(1, head + len, capacity);
    if len > 0 {
        lemma_add_mod_noop_right(len - 1, head + 1, capacity);
    }
    lemma_small_mod(0, q.capacity);
}

/// The count of stored messages stays in `0..=capacity` and moves by at most
/// one message per `put` or `get`.
pub proof fn lemma_count_moves_by_one(
    q: QueueView,
    msg: Seq<u8>,
    timeout: Timeout,
    caller: u64,
    now: u64,
)
    requires
        q.wf(),
        msg.len() == q.message_size,
    ensures
        q.len() <= q.put_next(msg, timeout, caller, now).len() <= q.len() + 1,
        q.put_next(msg, timeout, caller, now).len() <= q.capacity,
        q.len() - 1 <= q.get_next(timeout, caller, now).len() <= q.len(),
{
}

/// A caller that does not wait leaves a full queue as it found it, with
/// `Full`, and an empty queue as it found it, with `Empty`.
pub proof fn lemma_immediate_refusal(q: QueueView, msg: Seq<u8>, caller: u64, now: u64)
    requires
        q.wf(),
    ensures
        q.is_full() ==> q.put_result(Timeout::Immediate) == Err::<Step<()>, _>(QueueError::Full)
            && q.put_next(msg, Timeout::Immediate, caller, now) == q,
        q.is_empty() ==> q.get_result(Timeout::Immediate) == Err::<Step<Seq<u8>>, _>(
            QueueError::Empty,
        ) && q.get_next(Timeout::Immediate, caller, now) == q,
{
}

/// A message put into an empty queue on which nobody waits is the message
/// that the next `get` returns, byte for byte, and the queue is empty again.
pub proof fn lemma_round_trip(
    q: QueueView,
    msg: Seq<u8>,
    put_timeout: Timeout,
    get_timeout: Timeout,
    producer: u64,
    consumer: u64,
    now: u64,
    later: u64,
)
    requires
        q.wf(),
        q.is_empty(),
        q.consumers.len() == 0,
        msg.len() == q.message_size,
    ensures
        q.put_result(put_timeout) == Ok::<_, QueueError>(Step::Done { value: (), wake: None }),
        q.put_next(msg, put_timeout, producer, now).get_result(get_timeout) == Ok::<_, QueueError>(
            Step::Done { value: msg, wake: None },
        ),
        q.put_next(msg, put_timeout, producer, now).get_next(
            get_timeout,
            consumer,
            later,
        ).is_empty(),
{
}

/// First in, first out. On a queue on which nobody waits, after any sequence
/// of `put` and `get` that needs no waiting, what was stored at the start
/// followed by what was put is what was got followed by what is stored now.
/// So the messages leave in the order in which they came, none is lost or
/// repeated, and the count is the count at the start plus the number put
/// minus the number got. Every prefix of such a sequence is such a sequence,
/// so this holds at every point of it.
pub proof fn lemma_fifo(q: QueueView, requests: Seq<Request>)
    requires
        q.wf(),
        q.producers.len() == 0,
        q.consumers.len() == 0,
        q.serves_all(requests),
    ensures
        q.run(requests).wf(),
        q.run(requests).capacity == q.capacity,
        q.run(requests).message_size == q.message_size,
        q.run(requests).producers.len() == 0,
        q.run(requests).consumers.len() == 0,
        q.messages + offered(requests) == q.received(requests) + q.run(requests).messages,
        q.run(requests).len() == q.len() + offered(requests).len() - q.received(requests).len(),
    decreases requests.len(),
{
    if requests.len() > 0 {
        let earlier = requests.drop_last();
        let before = q.run(earlier);
        lemma_fifo(q, earlier);
        if let Request::Put { msg, .. } = requests.last() {
            assert((q.received(earlier) + before.messages).push(msg) =~= q.received(earlier)
                + before.messages.push(msg));
        }
    }
}

/// From a new queue the count is the number put minus the number got, and
/// what was got is the beginning of what was put.
pub proof fn lemma_fifo_from_empty(capacity: nat, message_size: nat, requests: Seq<Request>)
    requires
        0 < capacity,
        0 < message_size,
        QueueView::empty(capacity, message_size).serves_all(requests),
    ensures
        ({
            let q = QueueView::empty(capacity, message_size);
            &&& q.run(requests).len() == offered(requests).len() - q.received(requests).len()
            &&& q.received(requests).is_prefix_of(offered(requests))
        }),
{
    lemma_fifo(QueueView::empty(capacity, message_size), requests);
}

/// Waiting does not disturb the order. The messages in the queue's keeping,
/// stored or still with a waiting producer, form one line: a `put` that is
/// stored or made to wait joins it at the end, a `get` that finds a message
/// takes the one at the front, and nothing else about `put` and `get`
/// changes it. A `put` that is refused, and one whose message goes straight
/// to a waiting consumer, leave the line as it was.
pub proof fn lemma_backlog_is_a_line(
    q: QueueView,
    msg: Seq<u8>,
    timeout: Timeout,
    caller: u64,
    now: u64,
)
    requires
        q.wf(),
        msg.len() == q.message_size,
    ensures
        q.put_next(msg, timeout, caller, now).backlog() == if q.put_result(timeout).is_err()
            || q.consumers.len() > 0 {
            q.backlog()
        } else {
            q.backlog().push(msg)
        },
        q.len() > 0 ==> (q.get_result(timeout) matches Ok(Step::Done { value, .. }) && value
            == q.backlog()[0]),
        q.get_next(timeout, caller, now).backlog() == if q.len() > 0 {
            q.backlog().drop_first()
        } else {
            q.backlog()
        },
{
}

/// Fairness among producers. On a full queue, `get` after `get` wakes the
/// waiting producers in the order in which they began to wait: the `get`
/// that follows `k` others wakes the producer at position `k`, with success,
/// and that producer's message takes the freed slot at the tail. The queue
/// stays full meanwhile, and the producers behind keep their order.
pub proof fn lemma_producers_woken_in_order(q: QueueView, k: nat, timeout: Timeout)
    requires
        q.wf(),
        k < q.producers.len(),
    ensures
        q.run(gets(k)).wf(),
        q.run(gets(k)).is_full(),
        q.run(gets(k)).producers == q.producers.skip(k as int),
        q.run(gets(k)).get_result(timeout) == Ok::<_, QueueError>(
            Step::Done {
                value: q.run(gets(k)).messages[0],
                wake: Some(Wake { caller: q.producers[k as int].caller, result: Ok(()) }),
            },
        ),
        q.run(gets(k + 1)).messages.last() == q.producers[k as int].message,
        q.run(gets(k + 1)).producers == q.producers.skip(k as int + 1),
    decreases k,
{
    if k > 0 {
        let j = (k - 1) as nat;
        lemma_producers_woken_in_order(q, j, timeout);
        lemma_gets_step(k);
    }
    lemma_gets_step(k + 1);
}

/// A `put` that must wait is served in its turn. On a full queue a `put`
/// that may wait suspends its caller behind the producers already waiting.
/// If nothing but `get`s follows, as many of them as producers were waiting
/// serve those, and the next one wakes this caller with success and stores
/// its message at the tail.
pub proof fn lemma_blocked_put_completes(
    q: QueueView,
    msg: Seq<u8>,
    timeout: Timeout,
    caller: u64,
    now: u64,
)
    requires
        q.wf(),
        q.is_full(),
        msg.len() == q.message_size,
        !(timeout is Immediate),
    ensures
        q.put_result(timeout) == Ok::<_, QueueError>(Step::<()>::Blocked),
        ({
            let blocked = q.put_next(msg, timeout, caller, now);
            let ahead = q.producers.len();
            &&& blocked.messages == q.messages
            &&& blocked.run(gets(ahead)).get_result(Timeout::Immediate) == Ok::<_, QueueError>(
                Step::Done {
                    value: blocked.run(gets(ahead)).messages[0],
                    wake: Some(Wake { caller, result: Ok(()) }),
                },
            )
            &&& blocked.run(gets(ahead + 1)).messages.last() == msg
        }),
{
    let blocked = q.put_next(msg, timeout, caller, now);
    lemma_producers_woken_in_order(blocked, q.producers.len(), Timeout::Immediate);
}

/// Fairness among consumers. On an empty queue, `put` after `put` wakes the
/// waiting consumers in the order in which they began to wait: the `put`
/// that follows those of `msgs` wakes the consumer at position `msgs.len()`,
/// with success, and hands it its message. The queue stays empty meanwhile,
/// and the consumers behind keep their order.
pub proof fn lemma_consumers_woken_in_order(q: QueueView, msgs: Seq<Seq<u8>>, timeout: Timeout)
    requires
        q.wf(),
        msgs.len() < q.consumers.len(),
        forall|i: int| 0 <= i < msgs.len() ==> (#[trigger] msgs[i]).len() == q.message_size,
    ensures
        q.run(puts(msgs)).wf(),
        q.run(puts(msgs)).message_size == q.message_size,
        q.run(puts(msgs)).is_empty(),
        q.run(puts(msgs)).consumers == q.consumers.skip(msgs.len() as int),
        q.run(puts(msgs)).put_result(timeout) == Ok::<_, QueueError>(
            Step::Done {
                value: (),
                wake: Some(Wake { caller: q.consumers[msgs.len() as int].caller, result: Ok(()) }),
            },
        ),
    decreases msgs.len(),
{
    if msgs.len() > 0 {
        let earlier = msgs.drop_last();
        lemma_consumers_woken_in_order(q, earlier, timeout);
        lemma_puts_step(msgs);
    }
}

/// Where `expire` finds nothing, no waiter of the caller is due.
proof fn lemma_nothing_due(q: QueueView, caller: u64, now: u64)
    requires
        q.expire_result(caller, now).is_none(),
    ensures
        forall|j: int| 0 <= j < q.producers.len() ==> !(#[trigger] q.producers[j]).due(caller, now),
        forall|j: int| 0 <= j < q.consumers.len() ==> !(#[trigger] q.consumers[j]).due(caller, now),
{
    lemma_first_due_none(q.producers, caller, now);
    lemma_first_due_none(q.consumers, caller, now);
}

/// A wait that is never served ends at its deadline and leaves no trace.
/// When a `put` with a duration has suspended its caller, `expire` for that
/// caller changes nothing before `now` plus the duration; from then on it
/// answers `Timeout` and the queue is again what it was before the `put`. The
/// same holds of a `get`. This is said of a caller of whom no earlier wait is
/// due at the tick in question: `expire` ends the longest due wait first.
pub proof fn lemma_timeout_restores(
    q: QueueView,
    msg: Seq<u8>,
    ticks: u64,
    caller: u64,
    now: u64,
    later: u64,
)
    requires
        q.wf(),
        msg.len() == q.message_size,
        q.expire_result(caller, later).is_none(),
    ensures
        q.is_full() ==> ({
            let blocked = q.put_next(msg, Timeout::After(ticks), caller, now);
            &&& q.put_result(Timeout::After(ticks)) == Ok::<_, QueueError>(Step::<()>::Blocked)
            &&& later < now + ticks ==> blocked.expire_result(caller, later).is_none()
                && blocked.expire_next(caller, later) == blocked
            &&& now + ticks <= later ==> blocked.expire_result(caller, later) == Some(
                Wake { caller, result: Err(QueueError::Timeout) },
            ) && blocked.expire_next(caller, later) == q
        }),
        q.is_empty() ==> ({
            let blocked = q.get_next(Timeout::After(ticks), caller, now);
            &&& q.get_result(Timeout::After(ticks)) == Ok::<_, QueueError>(
                Step::<Seq<u8>>::Blocked,
            )
            &&& later < now + ticks ==> blocked.expire_result(caller, later).is_none()
                && blocked.expire_next(caller, later) == blocked
            &&& now + ticks <= later ==> blocked.expire_result(caller, later) == Some(
                Wake { caller, result: Err(QueueError::Timeout) },
            ) && blocked.expire_next(caller, later) == q
        }),
{
    let timeout = Timeout::After(ticks);
    lemma_nothing_due(q, caller, later);
    if q.is_full() && now + ticks <= later {
        let blocked = q.put_next(msg, timeout, caller, now);
        lemma_first_due(blocked.producers, caller, later, q.producers.len() as int);
    }
    if q.is_empty() && now + ticks <= later {
        let blocked = q.get_next(timeout, caller, now);
        lemma_first_due(blocked.consumers, caller, later, q.consumers.len() as int);
    }
}

/// A wait without a deadline never times out: `expire` finds nothing due that
/// it did not find before the wait began.
pub proof fn lemma_forever_never_expires(
    q: QueueView,
    msg: Seq<u8>,
    caller: u64,
    now: u64,
    later: u64,
)
    requires
        q.wf(),
        q.expire_result(caller, later).is_none(),
    ensures
        q.is_full() ==> q.put_next(msg, Timeout::Forever, caller, now).expire_result(
            caller,
            later,
        ).is_none(),
        q.is_empty() ==> q.get_next(Timeout::Forever, caller, now).expire_result(
            caller,
            later,
        ).is_none(),
{
    lemma_nothing_due(q, caller, later);
}

/// A purge releases everybody and gives the whole capacity back. Every
/// waiter, producers first and each list in its order, gets one wake-up with
/// `Purged`; the queue is empty, and as many messages as its capacity can
/// then be put without waiting and are stored in their order.
pub proof fn lemma_purge_frees_capacity(q: QueueView, msgs: Seq<Seq<u8>>)
    requires
        q.wf(),
        msgs.len() <= q.capacity,
        forall|i: int| 0 <= i < msgs.len() ==> (#[trigger] msgs[i]).len() == q.message_size,
    ensures
        q.purge_wakes().len() == q.producers.len() + q.consumers.len(),
        forall|i: int|
            0 <= i < q.producers.len() ==> (#[trigger] q.purge_wakes()[i]) == (Wake {
                caller: q.producers[i].caller,
                result: Err(QueueError::Purged),
            }),
        forall|i: int|
            0 <= i < q.consumers.len() ==> (#[trigger] q.purge_wakes()[q.producers.len() + i])
                == (Wake { caller: q.consumers[i].caller, result: Err(QueueError::Purged) }),
        q.purge_next().len() == 0,
        q.purge_next().capacity == q.capacity,
        q.purge_next().serves_all(puts(msgs)),
        q.purge_next().run(puts(msgs)).messages == msgs,
    decreases msgs.len(),
{
    if msgs.len() > 0 {
        let earlier = msgs.drop_last();
        lemma_purge_frees_capacity(q, earlier);
        lemma_puts_step(msgs);
        lemma_fifo(q.purge_next(), puts(earlier));
    }
}

} // verus!
