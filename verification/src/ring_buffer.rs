//! The bounded replay buffer.

use crate::types::{share, Message, MessageView};
use std::rc::Rc;
use vstd::prelude::*;

verus! {

/// What a bounded store of `capacity` places holds after `item` arrives:
/// nothing new when it has no place at all, the newest `capacity` items
/// otherwise.
pub open spec fn pushed<T>(items: Seq<T>, capacity: nat, item: T) -> Seq<T> {
    if capacity == 0 {
        items
    } else if items.len() >= capacity {
        items.skip(1).push(item)
    } else {
        items.push(item)
    }
}

/// What leaves a bounded store of `capacity` places when `item` arrives:
/// the item itself when there is no place at all, the oldest item when
/// every place is taken, nothing otherwise.
pub open spec fn displaced<T>(items: Seq<T>, capacity: nat, item: T) -> Option<T> {
    if capacity == 0 {
        Some(item)
    } else if items.len() >= capacity {
        Some(items[0])
    } else {
        None
    }
}

/// A bounded store that has room holds, after an arrival, the newest of
/// everything that ever arrived, in arrival order: as many as fit, and
/// never more than its capacity. What leaves is the oldest it held.
pub proof fn lemma_pushed_keeps_newest<T>(items: Seq<T>, capacity: nat, item: T)
    requires
        capacity > 0,
        items.len() <= capacity,
    ensures
        pushed(items, capacity, item).len() == (if items.len() < capacity {
            items.len() + 1
        } else {
            capacity
        }),
        pushed(items, capacity, item).len() <= capacity,
        pushed(items, capacity, item).last() == item,
        pushed(items, capacity, item) == items.push(item).skip(
            items.len() + 1 - pushed(items, capacity, item).len(),
        ),
        displaced(items, capacity, item) == (if items.len() < capacity {
            None
        } else {
            Some(items[0])
        }),
{
    let all = items.push(item);
    if items.len() < capacity {
        assert(all.skip(0) =~= all);
    } else {
        assert(items.skip(1).push(item) =~= all.skip(1));
    }
}

/// What a bounded store holds after `arrivals` arrived, in order.
pub open spec fn pushed_all<T>(items: Seq<T>, capacity: nat, arrivals: Seq<T>) -> Seq<T>
    decreases arrivals.len(),
{
    if arrivals.len() == 0 {
        items
    } else {
        pushed(pushed_all(items, capacity, arrivals.drop_last()), capacity, arrivals.last())
    }
}

/// Whatever arrives, a bounded store that has room holds the newest of
/// what it held and what arrived, in arrival order: all of it while it
/// fits, the last `capacity` items once it does not.
pub proof fn lemma_newest_are_kept<T>(items: Seq<T>, capacity: nat, arrivals: Seq<T>)
    requires
        capacity > 0,
        items.len() <= capacity,
    ensures
        pushed_all(items, capacity, arrivals).len() == (if items.len() + arrivals.len()
            <= capacity {
            items.len() + arrivals.len()
        } else {
            capacity
        }),
        pushed_all(items, capacity, arrivals) == (items + arrivals).skip(
            items.len() + arrivals.len() - pushed_all(items, capacity, arrivals).len(),
        ),
    decreases arrivals.len(),
{
    let all = items + arrivals;
    if arrivals.len() == 0 {
        assert(all =~= items);
        assert(all.skip(0) =~= all);
    } else {
        let front = arrivals.drop_last();
        let before = pushed_all(items, capacity, front);
        lemma_newest_are_kept(items, capacity, front);
        lemma_pushed_keeps_newest(before, capacity, arrivals.last());
        let kept = pushed_all(items, capacity, arrivals);
        assert(all =~= (items + front).push(arrivals.last()));
        assert(kept =~= all.skip(all.len() - kept.len()));
    }
}

/// A circular store of messages whose capacity is fixed when it is made.
/// Its view is the retained messages, oldest first.
#[derive(Clone)]
pub struct RingBuffer<P> {
    buffer: Vec<Option<Rc<Message<P>>>>,
    capacity: usize,
    size: usize,
    front: usize,
    rear: usize,
}

impl<P> View for RingBuffer<P> {
    type V = Seq<MessageView<P>>;

    /// The retained messages, oldest first.
    closed spec fn view(&self) -> Seq<MessageView<P>> {
        Seq::new(self.size as nat, |i: int| self.buffer@[self.slot(i)].unwrap()@)
    }
}

/// The messages behind a sequence of shared pointers.
pub open spec fn messages<P>(shared: Seq<Rc<Message<P>>>) -> Seq<MessageView<P>> {
    Seq::new(shared.len(), |i: int| shared[i]@)
}

impl<P> RingBuffer<P> {
    /// The place of the item that is `i` steps younger than the oldest one.
    spec fn slot(&self, i: int) -> int {
        if self.front + i < self.capacity {
            self.front + i
        } else {
            self.front + i - self.capacity
        }
    }

    /// How many steps the place `j` lies behind the place of the oldest item.
    spec fn offset(&self, j: int) -> int {
        if j >= self.front {
            j - self.front
        } else {
            j + self.capacity - self.front
        }
    }

    /// The number of places, as fixed when the buffer was made.
    pub closed spec fn spec_capacity(&self) -> nat {
        self.capacity as nat
    }

    /// The places form a ring of `capacity` slots; the `size` slots from
    /// `front` on are taken, every other slot is empty, and `rear` is the
    /// slot after the newest item.
    pub closed spec fn wf(&self) -> bool {
        &&& self.buffer@.len() == self.capacity
        &&& self.size <= self.capacity
        &&& self.capacity == 0 ==> self.front == 0 && self.rear == 0
        &&& self.capacity > 0 ==> self.front < self.capacity && self.rear < self.capacity
        &&& self.capacity > 0 ==> self.rear == (if self.size == self.capacity {
            self.front as int
        } else {
            self.slot(self.size as int)
        })
        &&& forall|j: int|
            0 <= j < self.capacity ==> ((#[trigger] self.buffer@[j]) is Some <==> self.offset(j)
                < self.size)
    }

    /// The view never holds more than the capacity.
    pub proof fn lemma_len_bounded(&self)
        requires
            self.wf(),
        ensures
            self@.len() <= self.spec_capacity(),
            self.spec_capacity() <= usize::MAX,
    {
    }

    /// Create a new ring buffer with the specified capacity.
    pub fn new(capacity: usize) -> (rb: Self)
        ensures
            rb.wf(),
            rb@ == Seq::<MessageView<P>>::empty(),
            rb.spec_capacity() == capacity,
    {
        let mut buffer: Vec<Option<Rc<Message<P>>>> = Vec::with_capacity(capacity);
        let mut i: usize = 0;
        while i < capacity
            invariant
                i <= capacity,
                buffer@.len() == i,
                forall|j: int| 0 <= j < i ==> (#[trigger] buffer@[j]) is None,
            decreases capacity - i,
        {
            buffer.push(None);
            i = i + 1;
        }
        let rb = RingBuffer { buffer, capacity, size: 0, front: 0, rear: 0 };
        assert(rb@ =~= Seq::<MessageView<P>>::empty());
        rb
    }

    /// Get the current number of messages in the buffer.
    pub fn len(&self) -> (n: usize)
        requires
            self.wf(),
        ensures
            n == self@.len(),
    {
        self.size
    }

    /// Check if the buffer is empty.
    pub fn is_empty(&self) -> (b: bool)
        requires
            self.wf(),
        ensures
            b == (self@.len() == 0),
    {
        self.size == 0
    }

    /// Check if the buffer is full.
    pub fn is_full(&self) -> (b: bool)
        requires
            self.wf(),
        ensures
            b == (self@.len() == self.spec_capacity()),
    {
        self.size == self.capacity
    }

    /// Get the maximum capacity.
    pub fn capacity(&self) -> (n: usize)
        ensures
            n == self.spec_capacity(),
    {
        self.capacity
    }

    /// The slot that follows `idx` on the ring.
    fn advance(&self, idx: usize) -> (next: usize)
        requires
            idx < self.capacity,
        ensures
            next == (if idx + 1 == self.capacity {
                0
            } else {
                idx + 1
            }),
    {
        if idx + 1 == self.capacity {
            0
        } else {
            idx + 1
        }
    }

    /// Push a message into the buffer.
    /// Returns the oldest message if the buffer was full (it is overwritten),
    /// and the message itself if the buffer has no capacity.
    pub fn push(&mut self, msg: Rc<Message<P>>) -> (out: Option<Rc<Message<P>>>)
        requires
            old(self).wf(),
        ensures
            final(self).wf(),
            final(self).spec_capacity() == old(self).spec_capacity(),
            final(self)@ == pushed(old(self)@, old(self).spec_capacity(), msg@),
            match displaced(old(self)@, old(self).spec_capacity(), msg@) {
                Some(m) => out matches Some(d) && d@ == m,
                None => out is None,
            },
    {
        if self.capacity == 0 {
            return Some(msg);
        }
        let ghost before = *self;
        let full = self.size == self.capacity;
        let mut out: Option<Rc<Message<P>>> = None;
        if full {
            out = self.buffer[self.front].take();
            self.front = self.advance(self.front);
        }
        let ghost mid = *self;
        self.buffer[self.rear] = Some(msg);
        self.rear = self.advance(self.rear);
        if !full {
            self.size = self.size + 1;
        }
        proof {
            if full {
                assert(before.offset(before.front as int) == 0);
                assert(before.slot(0) == before.front);
                assert forall|i: int| 0 <= i < self.size implies #[trigger] self@[i] == pushed(
                    before@,
                    before.spec_capacity(),
                    msg@,
                )[i] by {
                    if i < self.size - 1 {
                        assert(self.slot(i) == before.slot(i + 1));
                    } else {
                        assert(self.slot(i) == before.front);
                    }
                }
                assert forall|j: int| 0 <= j < self.capacity implies ((#[trigger] self.buffer@[j]) is Some
                    <==> self.offset(j) < self.size) by {
                    if j != before.front {
                        assert(before.buffer@[j] is Some);
                    }
                }
            } else {
                assert forall|i: int| 0 <= i < self.size implies #[trigger] self@[i] == pushed(
                    before@,
                    before.spec_capacity(),
                    msg@,
                )[i] by {
                    assert(self.slot(i) == before.slot(i));
                }
                assert forall|j: int| 0 <= j < self.capacity implies ((#[trigger] self.buffer@[j]) is Some
                    <==> self.offset(j) < self.size) by {
                    if j != before.rear {
                        assert(self.buffer@[j] == before.buffer@[j]);
                    }
                }
            }
            assert(self@ =~= pushed(before@, before.spec_capacity(), msg@));
        }
        out
    }

    /// Pop the oldest message from the buffer.
    pub fn pop(&mut self) -> (out: Option<Rc<Message<P>>>)
        requires
            old(self).wf(),
        ensures
            final(self).wf(),
            final(self).spec_capacity() == old(self).spec_capacity(),
            old(self)@.len() == 0 ==> {
                &&& out is None
                &&& final(self)@ == old(self)@
            },
            old(self)@.len() > 0 ==> {
                &&& out matches Some(m) && m@ == old(self)@[0]
                &&& final(self)@ == old(self)@.skip(1)
            },
    {
        if self.size == 0 {
            return None;
        }
        let ghost before = *self;
        proof {
            assert(before.offset(before.front as int) == 0);
            assert(before.slot(0) == before.front);
        }
        let out = self.buffer[self.front].take();
        self.front = self.advance(self.front);
        self.size = self.size - 1;
        proof {
            assert forall|i: int| 0 <= i < self.size implies #[trigger] self@[i] == before@.skip(1)[i] by {
                assert(self.slot(i) == before.slot(i + 1));
            }
            assert forall|j: int| 0 <= j < self.capacity implies ((#[trigger] self.buffer@[j]) is Some
                <==> self.offset(j) < self.size) by {
                if j != before.front {
                    assert(self.buffer@[j] == before.buffer@[j]);
                }
            }
            assert(self@ =~= before@.skip(1));
        }
        out
    }

    /// Peek at the oldest message without removing it.
    pub fn peek(&self) -> (out: Option<&Rc<Message<P>>>)
        requires
            self.wf(),
        ensures
            self@.len() == 0 ==> out is None,
            self@.len() > 0 ==> (out matches Some(m) && m@ == self@[0]),
    {
        if self.size == 0 {
            return None;
        }
        proof {
            assert(self.offset(self.front as int) == 0);
            assert(self.slot(0) == self.front);
        }
        self.buffer[self.front].as_ref()
    }

    /// Peek at the newest message without removing it.
    pub fn peek_back(&self) -> (out: Option<&Rc<Message<P>>>)
        requires
            self.wf(),
        ensures
            self@.len() == 0 ==> out is None,
            self@.len() > 0 ==> (out matches Some(m) && m@ == self@.last()),
    {
        if self.size == 0 {
            return None;
        }
        let idx = if self.rear == 0 {
            self.capacity - 1
        } else {
            self.rear - 1
        };
        proof {
            assert(self.slot(self.size - 1) == idx);
            assert(self.offset(idx as int) == self.size - 1);
        }
        self.buffer[idx].as_ref()
    }

    /// Clear all messages from the buffer. Every slot is emptied, so the
    /// buffer keeps none of the messages alive.
    pub fn clear(&mut self)
        requires
            old(self).wf(),
        ensures
            final(self).wf(),
            final(self).spec_capacity() == old(self).spec_capacity(),
            final(self)@ == Seq::<MessageView<P>>::empty(),
    {
        let mut i: usize = 0;
        while i < self.capacity
            invariant
                i <= self.capacity,
                self.capacity == old(self).capacity,
                self.buffer@.len() == self.capacity,
                forall|j: int| 0 <= j < i ==> (#[trigger] self.buffer@[j]) is None,
            decreases self.capacity - i,
        {
            self.buffer[i] = None;
            i = i + 1;
        }
        self.size = 0;
        self.front = 0;
        self.rear = 0;
        assert(self@ =~= Seq::<MessageView<P>>::empty());
    }

    /// Get all messages as a vector (oldest first).
    pub fn to_vec(&self) -> (out: Vec<Rc<Message<P>>>)
        requires
            self.wf(),
        ensures
            messages(out@) == self@,
    {
        let mut result: Vec<Rc<Message<P>>> = Vec::with_capacity(self.size);
        let mut idx = self.front;
        let mut n: usize = 0;
        while n < self.size
            invariant
                self.wf(),
                n <= self.size,
                self.size > 0 ==> idx < self.capacity,
                n < self.size ==> idx == self.slot(n as int),
                result@.len() == n,
                messages(result@) == self@.take(n as int),
            decreases self.size - n,
        {
            let ghost prev = result@;
            proof {
                assert(self.offset(idx as int) == n);
                assert(self@[n as int] == self.buffer@[idx as int].unwrap()@);
            }
            match &self.buffer[idx] {
                Some(msg) => {
                    result.push(share(msg));
                },
                None => {},
            }
            let ghost old_idx = idx;
            idx = self.advance(idx);
            n = n + 1;
            proof {
                assert forall|i: int| 0 <= i < n implies messages(result@)[i] == self@.take(
                    n as int,
                )[i] by {
                    if i < n - 1 {
                        assert(messages(prev)[i] == self@.take(n - 1)[i]);
                    } else {
                        assert(result@[i] == self.buffer@[old_idx as int].unwrap());
                    }
                }
                assert(messages(result@) =~= self@.take(n as int));
            }
        }
        assert(messages(result@) =~= self@);
        result
    }

    /// Iterate over all messages from oldest to newest.
    pub fn iter(&self) -> (it: RingBufferIter<'_, P>)
        requires
            self.wf(),
        ensures
            it.wf(),
            it.remaining() == self@,
    {
        let it = RingBufferIter { buffer: self, index: 0, count: 0 };
        assert(it.remaining() =~= self@);
        it
    }
}

/// A walk over the messages of a ring buffer, oldest first.
pub struct RingBufferIter<'a, P> {
    buffer: &'a RingBuffer<P>,
    index: usize,
    count: usize,
}

impl<'a, P> RingBufferIter<'a, P> {
    /// The walk is over a well-formed buffer and has not run past its end.
    pub closed spec fn wf(&self) -> bool {
        &&& self.buffer.wf()
        &&& self.count <= self.buffer.size
    }

    /// The messages still to come, oldest first.
    pub closed spec fn remaining(&self) -> Seq<MessageView<P>> {
        self.buffer@.skip(self.count as int)
    }

    /// The next message of the walk, if any is left.
    pub fn next(&mut self) -> (out: Option<&'a Rc<Message<P>>>)
        requires
            old(self).wf(),
        ensures
            final(self).wf(),
            old(self).remaining().len() == 0 ==> {
                &&& out is None
                &&& final(self).remaining() == old(self).remaining()
            },
            old(self).remaining().len() > 0 ==> {
                &&& out matches Some(m) && m@ == old(self).remaining()[0]
                &&& final(self).remaining() == old(self).remaining().skip(1)
            },
    {
        if self.count >= self.buffer.size {
            return None;
        }
        let room = self.buffer.capacity - self.buffer.front;
        let idx = if self.count < room {
            self.buffer.front + self.count
        } else {
            self.count - room
        };
        proof {
            assert(idx == self.buffer.slot(self.count as int));
            assert(self.buffer.offset(idx as int) == self.count);
        }
        self.count = self.count + 1;
        proof {
            assert(self.remaining() =~= old(self).remaining().skip(1));
        }
        self.buffer.buffer[idx].as_ref()
    }

    /// How many messages are left, as a lower and an upper bound.
    pub fn size_hint(&self) -> (out: (usize, Option<usize>))
        requires
            self.wf(),
        ensures
            out.0 == self.remaining().len(),
            out.1 == Some(out.0),
    {
        let remaining = self.buffer.size - self.count;
        (remaining, Some(remaining))
    }
}

impl<P> Default for RingBuffer<P> {
    /// A buffer with room for 100 messages.
    fn default() -> (rb: Self)
        ensures
            rb.wf(),
            rb@ == Seq::<MessageView<P>>::empty(),
            rb.spec_capacity() == 100,
    {
        Self::new(100)
    }
}

} // verus!
