//! Bounded FIFO queues of raw samples.
//!
//! The storage is a heap ring buffer of the `async_ringbuf` crate, used through
//! the `&mut self` methods that `ringbuf::Rb` gives an unsplit buffer. What the
//! buffer holds is named by [`ring_items`]; everything built on top of it is
//! proved against that name.

use vstd::prelude::*;
use async_ringbuf::AsyncHeapRb;
use ringbuf::Rb;

verus! {

/// A heap-allocated ring buffer of raw samples, kept by the outside crate.
///
/// The buffer's own type is bound by traits of the outside crate and cannot
/// be declared to the verifier, so it is held here, in a struct whose field
/// the verifier does not read. It is never split: one owner pushes and pops.
#[verifier::external_body]
pub struct Ring {
    inner: AsyncHeapRb<i32>,
}

/// The samples that a ring buffer holds, oldest first.
pub uninterp spec fn ring_items(ring: Ring) -> Seq<i32>;

/// The number of samples that a ring buffer was made for.
pub uninterp spec fn ring_limit(ring: Ring) -> nat;

/// `AsyncHeapRb::new`: an empty ring buffer with room for `capacity` samples.
/// The call panics on a zero capacity and on a storage size beyond what an
/// allocation may ask for, which `requires` leaves out; that the allocation
/// itself succeeds is taken for granted.
#[verifier::external_body]
fn ring_new(capacity: usize) -> (ring: Ring)
    requires
        0 < capacity <= usize::MAX / 8,
    ensures
        ring_items(ring) == Seq::<i32>::empty(),
        ring_limit(ring) == capacity,
{
    Ring { inner: AsyncHeapRb::<i32>::new(capacity) }
}

/// `Rb::len`: the number of samples held.
#[verifier::external_body]
fn ring_len(ring: &Ring) -> (n: usize)
    ensures
        n == ring_items(*ring).len(),
{
    ring.inner.len()
}

/// `Rb::push`: appends the sample when there is room, and hands it back,
/// leaving the buffer as it was, when there is none.
#[verifier::external_body]
fn ring_push(ring: &mut Ring, sample: i32) -> (res: Result<(), i32>)
    ensures
        ring_limit(*final(ring)) == ring_limit(*old(ring)),
        res.is_ok() == (ring_items(*old(ring)).len() < ring_limit(*old(ring))),
        res.is_ok() ==> ring_items(*final(ring)) == ring_items(*old(ring)).push(sample),
        res.is_err() ==> res->Err_0 == sample && ring_items(*final(ring)) == ring_items(*old(ring)),
{
    ring.inner.push(sample)
}

/// `Rb::pop`: removes and returns the oldest sample, or returns `None` and
/// leaves the buffer as it was when it is empty.
#[verifier::external_body]
fn ring_pop(ring: &mut Ring) -> (res: Option<i32>)
    ensures
        ring_limit(*final(ring)) == ring_limit(*old(ring)),
        res.is_some() == (ring_items(*old(ring)).len() > 0),
        res.is_some() ==> res->Some_0 == ring_items(*old(ring)).first() && ring_items(*final(ring)) == ring_items(*old(ring)).drop_first(),
        res.is_none() ==> ring_items(*final(ring)) == ring_items(*old(ring)),
{
    ring.inner.pop()
}

/// The smaller of two natural numbers.
pub open spec fn min_nat(a: nat, b: nat) -> nat {
    if a <= b {
        a
    } else {
        b
    }
}

/// How many of `count` offered samples a queue accepts that holds `held`
/// samples and has room for `capacity`.
pub open spec fn accepted(held: nat, capacity: nat, count: nat) -> nat {
    if held >= capacity {
        0
    } else {
        min_nat(count, (capacity - held) as nat)
    }
}

/// The queue after `points` were offered to it: the old content, followed by
/// as many of the new samples as there was room for.
pub open spec fn pushed<T>(items: Seq<T>, capacity: nat, points: Seq<T>) -> Seq<T> {
    items + points.take(accepted(items.len(), capacity, points.len()) as int)
}

/// How many of the offered `points` found no room.
pub open spec fn dropped<T>(items: Seq<T>, capacity: nat, points: Seq<T>) -> nat {
    (points.len() - accepted(items.len(), capacity, points.len())) as nat
}

/// The samples that leave the queue when `count` are asked for.
pub open spec fn popped<T>(items: Seq<T>, count: nat) -> Seq<T> {
    items.take(min_nat(count, items.len()) as int)
}

/// The samples that stay when `count` are asked for.
pub open spec fn remaining<T>(items: Seq<T>, count: nat) -> Seq<T> {
    items.skip(min_nat(count, items.len()) as int)
}

/// A bounded first-in first-out queue of raw points with a fixed capacity.
///
/// A full queue refuses new points instead of blocking; either side may close
/// the queue, which is final.
pub struct PointBuffer {
    ring: Ring,
    capacity: usize,
    closed: bool,
}

impl View for PointBuffer {
    type V = Seq<i32>;

    closed spec fn view(&self) -> Seq<i32> {
        ring_items(self.ring)
    }
}

impl PointBuffer {
    /// The invariant of the queue: it never holds more than its capacity.
    pub closed spec fn wf(&self) -> bool {
        &&& ring_limit(self.ring) == self.capacity
        &&& self.capacity > 0
        &&& ring_items(self.ring).len() <= self.capacity
    }

    /// The capacity the queue was created with.
    pub closed spec fn spec_capacity(&self) -> nat {
        self.capacity as nat
    }

    /// Whether the queue has been closed.
    pub closed spec fn spec_closed(&self) -> bool {
        self.closed
    }

    /// What `wf` says of the view.
    pub proof fn lemma_bounded(&self)
        requires
            self.wf(),
        ensures
            self@.len() <= self.spec_capacity(),
            self.spec_capacity() > 0,
            self.spec_capacity() <= usize::MAX,
    {
    }

    /// An empty, open queue with room for `capacity` points.
    pub fn new(capacity: usize) -> (q: Self)
        requires
            0 < capacity <= usize::MAX / 8,
        ensures
            q.wf(),
            q@ == Seq::<i32>::empty(),
            q.spec_capacity() == capacity,
            !q.spec_closed(),
    {
        PointBuffer { ring: ring_new(capacity), capacity, closed: false }
    }

    pub fn capacity(&self) -> (n: usize)
        requires
            self.wf(),
        ensures
            n == self.spec_capacity(),
    {
        self.capacity
    }

    pub fn len(&self) -> (n: usize)
        requires
            self.wf(),
        ensures
            n == self@.len(),
            n <= self.spec_capacity(),
    {
        ring_len(&self.ring)
    }

    pub fn free_len(&self) -> (n: usize)
        requires
            self.wf(),
        ensures
            n == self.spec_capacity() - self@.len(),
    {
        self.capacity - ring_len(&self.ring)
    }

    pub fn is_empty(&self) -> (b: bool)
        requires
            self.wf(),
        ensures
            b == (self@.len() == 0),
    {
        ring_len(&self.ring) == 0
    }

    pub fn is_full(&self) -> (b: bool)
        requires
            self.wf(),
        ensures
            b == (self@.len() == self.spec_capacity()),
    {
        ring_len(&self.ring) == self.capacity
    }

    pub fn is_closed(&self) -> (b: bool)
        ensures
            b == self.spec_closed(),
    {
        self.closed
    }

    /// Whether a wait for `count` points is over: that many points are
    /// queued, or the queue was closed and will never hold them.
    pub fn wait(&self, count: usize) -> (done: bool)
        requires
            self.wf(),
            count <= self.spec_capacity(),
        ensures
            done == (self.spec_closed() || self@.len() >= count),
    {
        self.closed || ring_len(&self.ring) >= count
    }

    /// Closes the queue. The points it holds stay available to `pop`.
    pub fn close(&mut self)
        ensures
            final(self).spec_closed(),
            final(self)@ == old(self)@,
            final(self).spec_capacity() == old(self).spec_capacity(),
            old(self).wf() ==> final(self).wf(),
    {
        self.closed = true;
    }

    /// Appends one point, or hands it back when the queue is full.
    pub fn push(&mut self, point: i32) -> (res: Result<(), i32>)
        requires
            old(self).wf(),
        ensures
            final(self).wf(),
            final(self).spec_capacity() == old(self).spec_capacity(),
            final(self).spec_closed() == old(self).spec_closed(),
            final(self)@ == pushed(old(self)@, old(self).spec_capacity(), seq![point]),
            old(self)@.len() < old(self).spec_capacity() ==> res.is_ok() && final(self)@ == old(self)@.push(point),
            old(self)@.len() >= old(self).spec_capacity() ==> res == Err::<(), i32>(point)
                && final(self)@ == old(self)@,
    {
        let res = ring_push(&mut self.ring, point);
        proof {
            let xs = seq![point];
            assert(xs.take(1) =~= xs);
            assert(xs.take(0) =~= Seq::<i32>::empty());
            assert(old(self)@ + xs =~= old(self)@.push(point));
            assert(old(self)@ + Seq::<i32>::empty() =~= old(self)@);
        }
        res
    }

    /// Removes and returns the oldest point, if there is one.
    pub fn pop(&mut self) -> (res: Option<i32>)
        requires
            old(self).wf(),
        ensures
            final(self).wf(),
            final(self).spec_capacity() == old(self).spec_capacity(),
            final(self).spec_closed() == old(self).spec_closed(),
            final(self)@ == remaining(old(self)@, 1),
            old(self)@.len() > 0 ==> res == Some(old(self)@[0]) && final(self)@ == old(self)@.drop_first(),
            old(self)@.len() == 0 ==> res.is_none() && final(self)@ == old(self)@,
    {
        let res = ring_pop(&mut self.ring);
        proof {
            assert(old(self)@.skip(0) =~= old(self)@);
            if old(self)@.len() > 0 {
                assert(old(self)@.skip(1) =~= old(self)@.drop_first());
            }
        }
        res
    }

    /// Appends the points in order for as long as there is room, and returns
    /// how many were taken. The rest is left to the caller, who may count it
    /// as lost or offer it again later.
    pub fn push_slice(&mut self, points: &[i32]) -> (count: usize)
        requires
            old(self).wf(),
        ensures
            final(self).wf(),
            final(self).spec_capacity() == old(self).spec_capacity(),
            final(self).spec_closed() == old(self).spec_closed(),
            count == accepted(old(self)@.len(), old(self).spec_capacity(), points@.len()),
            final(self)@ == pushed(old(self)@, old(self).spec_capacity(), points@),
            points@.len() - count == dropped(old(self)@, old(self).spec_capacity(), points@),
    {
        let mut i: usize = 0;
        let mut full = false;
        while i < points.len() && !full
            invariant
                self.wf(),
                self.spec_capacity() == old(self).spec_capacity(),
                self.spec_closed() == old(self).spec_closed(),
                0 <= i <= points@.len(),
                self@ == old(self)@ + points@.take(i as int),
                full ==> self@.len() == self.spec_capacity(),
            decreases points@.len() - i + (if full { 0int } else { 1int }),
        {
            let ghost before = self@;
            match self.push(points[i]) {
                Ok(()) => {
                    proof {
                        assert(points@.take(i + 1) =~= points@.take(i as int).push(points@[i as int]));
                        assert(before.push(points@[i as int]) =~= old(self)@ + points@.take(i + 1));
                    }
                    i = i + 1;
                },
                Err(_) => {
                    full = true;
                },
            }
        }
        i
    }

    /// Removes up to `count` points, oldest first, and returns them in the
    /// order in which they were pushed.
    pub fn pop_batch(&mut self, count: usize) -> (batch: Vec<i32>)
        requires
            old(self).wf(),
        ensures
            final(self).wf(),
            final(self).spec_capacity() == old(self).spec_capacity(),
            final(self).spec_closed() == old(self).spec_closed(),
            batch@ == popped(old(self)@, count as nat),
            final(self)@ == remaining(old(self)@, count as nat),
    {
        let mut batch: Vec<i32> = Vec::new();
        let mut empty = false;
        while batch.len() < count && !empty
            invariant
                self.wf(),
                self.spec_capacity() == old(self).spec_capacity(),
                self.spec_closed() == old(self).spec_closed(),
                batch@.len() <= count,
                batch@.len() <= old(self)@.len(),
                batch@ == old(self)@.take(batch@.len() as int),
                self@ == old(self)@.skip(batch@.len() as int),
                empty ==> self@.len() == 0,
            decreases count - batch@.len() + (if empty { 0int } else { 1int }),
        {
            let ghost taken = batch@;
            match self.pop() {
                Some(point) => {
                    batch.push(point);
                    proof {
                        let n = taken.len() as int;
                        assert(point == old(self)@[n]);
                        assert(batch@ =~= old(self)@.take(n + 1));
                        assert(self@ =~= old(self)@.skip(n + 1));
                    }
                },
                None => {
                    empty = true;
                },
            }
        }
        batch
    }
}

/// Points pushed into an empty queue that has room for all of them come out
/// again, all of them and in the order in which they went in.
pub proof fn lemma_fifo_order<T>(capacity: nat, points: Seq<T>)
    requires
        points.len() <= capacity,
    ensures
        dropped(Seq::<T>::empty(), capacity, points) == 0,
        pushed(Seq::<T>::empty(), capacity, points) == points,
        popped(pushed(Seq::<T>::empty(), capacity, points), points.len()) == points,
        remaining(pushed(Seq::<T>::empty(), capacity, points), points.len()).len() == 0,
{
    let empty = Seq::<T>::empty();
    if capacity == 0 {
        assert(points.take(0) =~= points);
    }
    assert(points.take(points.len() as int) =~= points);
    assert(empty + points =~= points);
}

/// Offering more points than there is room for keeps every point that was
/// already queued, in place, appends the new ones that fit, and leaves out
/// exactly as many as exceed the capacity.
pub proof fn lemma_overflow_drops_excess<T>(items: Seq<T>, capacity: nat, points: Seq<T>)
    requires
        items.len() <= capacity,
    ensures
        pushed(items, capacity, points).take(items.len() as int) == items,
        pushed(items, capacity, points).len() == min_nat(capacity, items.len() + points.len()),
        dropped(items, capacity, points) == if items.len() + points.len() > capacity {
            items.len() + points.len() - capacity
        } else {
            0
        },
        pushed(items, capacity, points).len() + dropped(items, capacity, points) == items.len()
            + points.len(),
{
    assert(pushed(items, capacity, points).take(items.len() as int) =~= items);
}

} // verus!
