//! The sampling adapter of the supervisor: a queue of raw points for the
//! batch publisher, and the latest point for the scalar publisher.

use vstd::prelude::*;
use crate::buffers::{accepted, popped, pushed, remaining, PointBuffer};
use crate::error::Error;

verus! {

/// What an [`AdcHandle`] holds.
pub struct AdcHandleView {
    /// Points that wait for the batch publisher, oldest first.
    pub queue: Seq<i32>,
    /// The number of points the queue has room for.
    pub capacity: nat,
    /// The queue was closed.
    pub closed: bool,
    /// The newest point that was offered to the channel.
    pub last_point: i32,
}

/// The producer's end of one sampling channel, and the state both ends share.
pub struct AdcHandle {
    buffer: PointBuffer,
    last_point: i32,
}

impl View for AdcHandle {
    type V = AdcHandleView;

    closed spec fn view(&self) -> AdcHandleView {
        AdcHandleView {
            queue: self.buffer@,
            capacity: self.buffer.spec_capacity(),
            closed: self.buffer.spec_closed(),
            last_point: self.last_point,
        }
    }
}

/// Publishes whole batches of points to an array variable.
pub struct AdcArray {
    max_len: usize,
}

/// Publishes the latest point to a scalar variable.
pub struct AdcScalar {}

/// The consumer's end of one sampling channel.
pub struct Adc {
    array: AdcArray,
    scalar: AdcScalar,
}

impl AdcHandle {
    /// The invariant of the handle: its queue is well formed.
    pub closed spec fn wf(&self) -> bool {
        self.buffer.wf()
    }

    /// What `wf` says of the view.
    pub proof fn lemma_bounded(&self)
        requires
            self.wf(),
        ensures
            self@.queue.len() <= self@.capacity,
            0 < self@.capacity <= usize::MAX,
    {
        self.buffer.lemma_bounded();
    }

    /// The number of points the queue has room for.
    pub fn capacity(&self) -> (n: usize)
        requires
            self.wf(),
        ensures
            n == self@.capacity,
    {
        self.buffer.capacity()
    }

    /// The number of points that wait in the queue.
    pub fn len(&self) -> (n: usize)
        requires
            self.wf(),
        ensures
            n == self@.queue.len(),
    {
        self.buffer.len()
    }

    /// The newest point that was offered to the channel, or zero if none was.
    pub fn last_point(&self) -> (point: i32)
        ensures
            point == self@.last_point,
    {
        self.last_point
    }

    /// Closes the channel. The points in the queue stay where they are.
    pub fn close(&mut self)
        ensures
            final(self)@ == (AdcHandleView { closed: true, ..old(self)@ }),
            old(self).wf() ==> final(self).wf(),
    {
        self.buffer.close();
    }

    /// Pushes the points in order, as many as the queue has room for, and
    /// returns how many were taken. The last point offered becomes the
    /// latest value of the channel, whether or not the queue had room for
    /// it: a reader of the latest value never waits for the queue. A closed
    /// channel takes nothing and keeps its latest value.
    pub fn push_iter(&mut self, points: &[i32]) -> (res: Result<usize, Error>)
        requires
            old(self).wf(),
        ensures
            final(self).wf(),
            res.is_err() == old(self)@.closed,
            res.is_err() ==> res->Err_0 == Error::Disconnected && final(self)@ == old(self)@,
            res.is_ok() ==> res->Ok_0 == accepted(
                old(self)@.queue.len(),
                old(self)@.capacity,
                points@.len(),
            ) && final(self)@ == old(self)@.push(points@),
    {
        if self.buffer.is_closed() {
            return Err(Error::Disconnected);
        }
        if points.len() > 0 {
            self.last_point = points[points.len() - 1];
        }
        let count = self.buffer.push_slice(points);
        Ok(count)
    }
}

impl AdcHandleView {
    /// An open channel after `points` were offered to it: the queue takes as
    /// many as it has room for, and the latest value is the last point
    /// offered, if there is one.
    pub open spec fn push(self, points: Seq<i32>) -> AdcHandleView {
        AdcHandleView {
            queue: pushed(self.queue, self.capacity, points),
            last_point: if points.len() > 0 {
                points.last()
            } else {
                self.last_point
            },
            ..self
        }
    }
}

impl Adc {
    /// The two ends of a sampling channel whose array variable holds up to
    /// `max_len` points. The queue between them has room for two batches.
    pub fn new(max_len: usize) -> (ends: (Self, AdcHandle))
        requires
            0 < max_len <= usize::MAX / 16,
        ensures
            ends.0.spec_max_len() == max_len,
            ends.1.wf(),
            ends.1@ == (AdcHandleView {
                queue: Seq::<i32>::empty(),
                capacity: 2 * max_len as nat,
                closed: false,
                last_point: 0,
            }),
    {
        let buffer = PointBuffer::new(2 * max_len);
        (
            Adc { array: AdcArray { max_len }, scalar: AdcScalar {  } },
            AdcHandle { buffer, last_point: 0 },
        )
    }

    /// The number of points in one batch.
    pub closed spec fn spec_max_len(&self) -> usize {
        self.array.spec_max_len()
    }

    /// The number of points in one batch.
    pub fn max_len(&self) -> (n: usize)
        ensures
            n == self.spec_max_len(),
    {
        self.array.max_len
    }

    /// The two publishers of the channel, to run them apart.
    pub fn into_parts(self) -> (parts: (AdcArray, AdcScalar))
        ensures
            parts.0.spec_max_len() == self.spec_max_len(),
    {
        (self.array, self.scalar)
    }

    /// One round of both publishers: the batch of the batch publisher, if
    /// one is due, and the latest point for the scalar publisher, as it is
    /// after the batch was taken. A closed channel publishes nothing more.
    pub fn run(&self, handle: &mut AdcHandle) -> (res: Result<(Option<Vec<i32>>, i32), Error>)
        requires
            old(handle).wf(),
        ensures
            final(handle).wf(),
            res.is_err() == old(handle)@.closed,
            res.is_err() ==> res->Err_0 == Error::Disconnected && final(handle)@ == old(handle)@,
            res.is_ok() ==> res->Ok_0.1 == old(handle)@.last_point && res->Ok_0.0.is_some() == (old(
                handle,
            )@.queue.len() >= self.spec_max_len()),
            res.is_ok() && res->Ok_0.0.is_none() ==> final(handle)@ == old(handle)@,
            res.is_ok() && res->Ok_0.0.is_some() ==> res->Ok_0.0->Some_0@ == old(
                handle,
            )@.queue.take(self.spec_max_len() as int) && final(handle)@ == (AdcHandleView {
                queue: old(handle)@.queue.skip(self.spec_max_len() as int),
                ..old(handle)@
            }),
    {
        match self.array.run(handle) {
            Ok(batch) => Ok((batch, self.scalar.run(handle))),
            Err(e) => Err(e),
        }
    }
}

impl AdcArray {
    /// The number of points in one batch.
    pub closed spec fn spec_max_len(&self) -> usize {
        self.max_len
    }

    /// One round of the batch publisher: the oldest `max_len` points of the
    /// queue as one batch, once that many wait, and `None` until then. A
    /// closed channel publishes nothing more.
    pub fn run(&self, handle: &mut AdcHandle) -> (res: Result<Option<Vec<i32>>, Error>)
        requires
            old(handle).wf(),
        ensures
            final(handle).wf(),
            res.is_err() == old(handle)@.closed,
            res.is_err() ==> res->Err_0 == Error::Disconnected && final(handle)@ == old(handle)@,
            res.is_ok() ==> res->Ok_0.is_some() == (old(handle)@.queue.len()
                >= self.spec_max_len()),
            res.is_ok() && res->Ok_0.is_none() ==> final(handle)@ == old(handle)@,
            res.is_ok() && res->Ok_0.is_some() ==> res->Ok_0->Some_0@ == old(handle)@.queue.take(
                self.spec_max_len() as int,
            ) && final(handle)@ == (AdcHandleView {
                queue: old(handle)@.queue.skip(self.spec_max_len() as int),
                ..old(handle)@
            }),
    {
        proof {
            handle.buffer.lemma_bounded();
        }
        if handle.buffer.is_closed() {
            return Err(Error::Disconnected);
        }
        if self.max_len > handle.buffer.capacity() || !handle.buffer.wait(self.max_len) {
            return Ok(None);
        }
        let batch = handle.buffer.pop_batch(self.max_len);
        Ok(Some(batch))
    }
}

impl AdcScalar {
    /// One round of the scalar publisher: the latest point of the channel.
    pub fn run(&self, handle: &AdcHandle) -> (point: i32)
        ensures
            point == handle@.last_point,
    {
        handle.last_point
    }
}

/// After points were offered to an open channel, its latest value is the
/// newest point offered, whatever the latest value was before and however
/// full the queue is: also when the queue took only some of the points, and
/// when it was full and took none.
pub proof fn lemma_latest_is_last_pushed(before: AdcHandleView, points: Seq<i32>)
    requires
        points.len() > 0,
    ensures
        before.push(points).last_point == points.last(),
        before.queue.len() >= before.capacity ==> before.push(points).queue == before.queue,
        before.push(points).capacity == before.capacity,
        before.push(points).closed == before.closed,
{
    assert(points.take(0) =~= Seq::<i32>::empty());
    assert(before.queue + Seq::<i32>::empty() =~= before.queue);
}

} // verus!
