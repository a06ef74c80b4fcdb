//! The ring buffer under the queue: `capacity` slots of `message_size` bytes
//! each in one contiguous allocation, reused by wraparound.

use vstd::prelude::*;

verus! {

/// `index` brought back into `0..capacity`, for an index that has run at most
/// one lap ahead.
pub open spec fn wrap(index: int, capacity: int) -> int {
    if index < capacity {
        index
    } else {
        index - capacity
    }
}

/// For an index less than one lap ahead, wrapping is the remainder.
pub proof fn lemma_wrap_is_remainder(index: int, capacity: int)
    requires
        0 <= index < 2 * capacity,
    ensures
        wrap(index, capacity) == index % capacity,
{
    if index < capacity {
        assert(index % capacity == index) by (nonlinear_arith)
            requires
                0 <= index < capacity,
        ;
    } else {
        assert(index % capacity == index - capacity) by (nonlinear_arith)
            requires
                capacity <= index < 2 * capacity,
        ;
    }
}

/// Slot `index` lies inside a buffer of `capacity` slots.
pub proof fn lemma_slot_in_buffer(index: int, capacity: int, message_size: int)
    by (nonlinear_arith)
    requires
        0 <= index < capacity,
        0 < message_size,
    ensures
        0 <= index * message_size,
        index * message_size + message_size <= capacity * message_size,
{
}

/// A lower slot ends where a higher one begins, or before.
pub proof fn lemma_slots_apart(low: int, high: int, message_size: int)
    by (nonlinear_arith)
    requires
        0 <= low < high,
        0 < message_size,
    ensures
        low * message_size + message_size <= high * message_size,
{
}

/// The bytes of slot `index` in `buffer`.
pub open spec fn slot_bytes(buffer: Seq<u8>, index: int, message_size: int) -> Seq<u8> {
    buffer.subrange(index * message_size, index * message_size + message_size)
}

/// Copies `msg` over the bytes of `buffer` that start at `base`.
fn write_bytes(buffer: &mut Vec<u8>, base: usize, msg: &[u8])
    requires
        base + msg@.len() <= old(buffer)@.len(),
    ensures
        final(buffer)@.len() == old(buffer)@.len(),
        final(buffer)@.subrange(base as int, base + msg@.len()) == msg@,
        forall|i: int|
            0 <= i < old(buffer)@.len() && !(base <= i < base + msg@.len()) ==> final(buffer)@[i]
                == old(buffer)@[i],
{
    assert(buffer@.len() == buffer.len());
    let mut offset: usize = 0;
    while offset < msg.len()
        invariant
            offset <= msg@.len(),
            base + msg@.len() <= buffer@.len() <= usize::MAX,
            buffer@.len() == old(buffer)@.len(),
            forall|i: int| 0 <= i < offset ==> buffer@[base + i] == msg@[i],
            forall|i: int|
                0 <= i < buffer@.len() && !(base <= i < base + offset) ==> buffer@[i] == old(
                    buffer,
                )@[i],
        decreases msg@.len() - offset,
    {
        buffer.set(base + offset, msg[offset]);
        offset += 1;
    }
}

/// A copy of the `len` bytes of `buffer` that start at `base`.
fn read_bytes(buffer: &Vec<u8>, base: usize, len: usize) -> (out: Vec<u8>)
    requires
        base + len <= buffer@.len(),
    ensures
        out@ == buffer@.subrange(base as int, base + len),
{
    assert(buffer@.len() == buffer.len());
    let mut out: Vec<u8> = Vec::new();
    let mut offset: usize = 0;
    while offset < len
        invariant
            offset <= len,
            base + len <= buffer@.len() <= usize::MAX,
            out@ == buffer@.subrange(base as int, base + offset),
        decreases len - offset,
    {
        out.push(buffer[base + offset]);
        offset += 1;
    }
    out
}

/// A fixed number of fixed-size slots, filled at the tail and drained at the
/// head.
pub struct Ring {
    capacity: usize,
    message_size: usize,
    buffer: Vec<u8>,
    count: usize,
    head: usize,
    tail: usize,
}

impl Ring {
    /// The layout invariant: the buffer holds exactly `capacity` slots, the
    /// indices stay inside it, and the tail is `count` slots after the head.
    pub closed spec fn wf(&self) -> bool {
        &&& 0 < self.capacity
        &&& 0 < self.message_size
        &&& self.buffer@.len() == self.capacity * self.message_size
        &&& self.count <= self.capacity
        &&& self.head < self.capacity
        &&& self.tail == wrap(self.head + self.count, self.capacity as int)
    }

    /// The number of slots.
    pub closed spec fn spec_capacity(&self) -> nat {
        self.capacity as nat
    }

    /// The number of bytes in a slot.
    pub closed spec fn spec_message_size(&self) -> nat {
        self.message_size as nat
    }

    /// The slot index of the oldest stored message.
    pub closed spec fn spec_head(&self) -> nat {
        self.head as nat
    }

    /// The stored messages, oldest first.
    pub closed spec fn messages(&self) -> Seq<Seq<u8>> {
        Seq::new(
            self.count as nat,
            |k: int|
                slot_bytes(
                    self.buffer@,
                    wrap(self.head + k, self.capacity as int),
                    self.message_size as int,
                ),
        )
    }

    /// An empty ring over `buffer`, whose former contents do not matter.
    pub fn with_buffer(buffer: Vec<u8>, capacity: usize, message_size: usize) -> (ring: Ring)
        requires
            0 < capacity,
            0 < message_size,
            buffer@.len() == capacity * message_size,
        ensures
            ring.wf(),
            ring.spec_capacity() == capacity,
            ring.spec_message_size() == message_size,
            ring.spec_head() == 0,
            ring.messages() == Seq::<Seq<u8>>::empty(),
    {
        Ring { capacity, message_size, buffer, count: 0, head: 0, tail: 0 }
    }

    /// The number of slots.
    pub fn capacity(&self) -> (n: usize)
        ensures
            n == self.spec_capacity(),
    {
        self.capacity
    }

    /// The number of bytes in a slot.
    pub fn message_size(&self) -> (n: usize)
        ensures
            n == self.spec_message_size(),
    {
        self.message_size
    }

    /// The number of slots in use.
    pub fn len(&self) -> (n: usize)
        ensures
            n == self.messages().len(),
    {
        self.count
    }

    /// Stores `msg` in the slot at the tail and moves the tail on by one.
    pub fn push(&mut self, msg: &[u8])
        requires
            old(self).wf(),
            old(self).messages().len() < old(self).spec_capacity(),
            msg@.len() == old(self).spec_message_size(),
        ensures
            final(self).wf(),
            final(self).spec_capacity() == old(self).spec_capacity(),
            final(self).spec_message_size() == old(self).spec_message_size(),
            final(self).spec_head() == old(self).spec_head(),
            final(self).messages() == old(self).messages().push(msg@),
    {
        let ghost capacity = self.capacity as int;
        let ghost size = self.message_size as int;
        proof {
            lemma_slot_in_buffer(self.tail as int, capacity, size);
            assert(self.buffer@.len() == self.buffer.len());
        }
        let base: usize = self.tail * self.message_size;
        write_bytes(&mut self.buffer, base, msg);
        self.tail = if self.tail + 1 == self.capacity {
            0
        } else {
            self.tail + 1
        };
        self.count = self.count + 1;
        proof {
            // The slots of the messages stored before lie apart from the one
            // just written, so their bytes are as they were.
            let written = old(self).tail as int;
            let pushed = old(self).messages().push(msg@);
            assert forall|k: int| 0 <= k < self.count implies #[trigger] self.messages()[k]
                == pushed[k] by {
                let index = wrap(self.head + k, capacity);
                if k < old(self).count {
                    lemma_slot_in_buffer(index, capacity, size);
                    if index < written {
                        lemma_slots_apart(index, written, size);
                    } else {
                        lemma_slots_apart(written, index, size);
                    }
                }
            }
        }
    }

    /// A copy of the oldest stored message.
    pub fn front(&self) -> (msg: Vec<u8>)
        requires
            self.wf(),
            self.messages().len() > 0,
        ensures
            msg@ == self.messages()[0],
    {
        proof {
            lemma_slot_in_buffer(self.head as int, self.capacity as int, self.message_size as int);
            assert(self.buffer@.len() == self.buffer.len());
        }
        read_bytes(&self.buffer, self.head * self.message_size, self.message_size)
    }

    /// Gives up the oldest stored message and moves the head on by one.
    pub fn drop_front(&mut self)
        requires
            old(self).wf(),
            old(self).messages().len() > 0,
        ensures
            final(self).wf(),
            final(self).spec_capacity() == old(self).spec_capacity(),
            final(self).spec_message_size() == old(self).spec_message_size(),
            final(self).spec_head() == wrap(
                old(self).spec_head() as int + 1,
                old(self).spec_capacity() as int,
            ),
            final(self).messages() == old(self).messages().drop_first(),
    {
        self.head = if self.head + 1 == self.capacity {
            0
        } else {
            self.head + 1
        };
        self.count = self.count - 1;
    }

    /// Forgets every stored message and starts again at slot 0.
    pub fn clear(&mut self)
        requires
            old(self).wf(),
        ensures
            final(self).wf(),
            final(self).spec_capacity() == old(self).spec_capacity(),
            final(self).spec_message_size() == old(self).spec_message_size(),
            final(self).spec_head() == 0,
            final(self).messages() == Seq::<Seq<u8>>::empty(),
    {
        self.count = 0;
        self.head = 0;
        self.tail = 0;
    }
}

} // verus!
