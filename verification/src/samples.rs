//! Multi-channel sample sets and the bounded queue that carries them from the
//! real-time tick to its consumer.

use vstd::prelude::*;
use crate::buffers::{PointBuffer, pushed, remaining};

verus! {

/// Number of analog input channels that one hardware transfer samples.
pub const ADC_COUNT: usize = 6;

/// One raw reading of every analog input channel, taken by one transfer.
#[derive(Clone, Copy, Debug, PartialEq, Eq)]
pub struct AdcPoints {
    pub values: [i32; ADC_COUNT],
}

impl View for AdcPoints {
    type V = Seq<i32>;

    open spec fn view(&self) -> Seq<i32> {
        self.values@
    }
}

impl Default for AdcPoints {
    /// The sample set in which every channel reads zero.
    fn default() -> (points: Self)
        ensures
            points@ == Seq::new(ADC_COUNT as nat, |i: int| 0i32),
    {
        let points = AdcPoints { values: [0, 0, 0, 0, 0, 0] };
        assert(points@ =~= Seq::new(ADC_COUNT as nat, |i: int| 0i32));
        points
    }
}

impl AdcPoints {
    /// The raw reading of one channel.
    pub fn channel(&self, index: usize) -> (value: i32)
        requires
            index < ADC_COUNT,
        ensures
            value == self@[index as int],
    {
        self.values[index]
    }
}

/// The sample sets that a flat run of points holds, `ADC_COUNT` points each.
pub open spec fn frames(points: Seq<i32>) -> Seq<Seq<i32>> {
    Seq::new(
        (points.len() / ADC_COUNT as nat) as nat,
        |k: int| points.subrange(k * ADC_COUNT as int, (k + 1) * ADC_COUNT as int),
    )
}

/// The points of a run of sample sets, set after set.
pub open spec fn flat(sets: Seq<Seq<i32>>) -> Seq<i32> {
    Seq::new(
        ADC_COUNT as nat * sets.len(),
        |i: int| sets[i / ADC_COUNT as int][i % ADC_COUNT as int],
    )
}

/// Whether every set holds one point for each channel.
pub open spec fn whole(sets: Seq<Seq<i32>>) -> bool {
    forall|k: int| 0 <= k < sets.len() ==> (#[trigger] sets[k]).len() == ADC_COUNT
}

/// Cutting a flat run of whole sample sets into sets gives the sets back.
pub proof fn lemma_frames_of_flat(sets: Seq<Seq<i32>>)
    requires
        whole(sets),
    ensures
        flat(sets).len() == ADC_COUNT * sets.len(),
        frames(flat(sets)) == sets,
{
    let points = flat(sets);
    assert(points.len() / 6 == sets.len());
    assert forall|k: int| 0 <= k < sets.len() implies frames(points)[k] == sets[k] by {
        let cut = points.subrange(k * 6, (k + 1) * 6);
        assert forall|j: int| 0 <= j < 6 implies cut[j] == sets[k][j] by {
            assert(cut[j] == points[k * 6 + j]);
            assert((k * 6 + j) / 6 == k);
            assert((k * 6 + j) % 6 == j);
        }
        assert(cut =~= sets[k]);
    }
    assert(frames(points) =~= sets);
}

/// Cutting a run of points that holds whole sample sets only, and laying the
/// sets out flat again, gives the run back.
pub proof fn lemma_flat_of_frames(points: Seq<i32>)
    requires
        points.len() % ADC_COUNT as nat == 0,
    ensures
        whole(frames(points)),
        ADC_COUNT * frames(points).len() == points.len(),
        flat(frames(points)) == points,
{
    let sets = frames(points);
    assert forall|k: int| 0 <= k < sets.len() implies (#[trigger] sets[k]).len() == ADC_COUNT by {
        assert((k + 1) * 6 <= points.len());
    }
    assert forall|i: int| 0 <= i < points.len() implies flat(sets)[i] == points[i] by {
        let k = i / 6;
        assert(0 <= k < sets.len());
        assert((k + 1) * 6 <= points.len());
        assert(sets[k][i % 6] == points[k * 6 + i % 6]);
    }
    assert(flat(sets) =~= points);
}

/// The flat run of some whole sets and one more is the flat run of the sets
/// followed by the points of the new one.
pub proof fn lemma_flat_push(sets: Seq<Seq<i32>>, set: Seq<i32>)
    requires
        whole(sets),
        set.len() == ADC_COUNT,
    ensures
        flat(sets.push(set)) == flat(sets) + set,
{
    let longer = sets.push(set);
    assert forall|i: int| 0 <= i < 6 * longer.len() implies flat(longer)[i] == (flat(sets) + set)[i] by {
        if i < 6 * sets.len() {
            assert(i / 6 < sets.len());
        } else {
            assert(i / 6 == sets.len());
            assert(i % 6 == i - 6 * sets.len());
        }
    }
    assert(flat(longer) =~= flat(sets) + set);
}

/// What a run of sample sets holds: the points of each set.
pub open spec fn sets_view(sets: Seq<AdcPoints>) -> Seq<Seq<i32>> {
    Seq::new(sets.len(), |k: int| sets[k]@)
}

/// Cuts a flat run of points into sample sets, `ADC_COUNT` points each.
/// Points at the end that do not fill a set are left out.
pub fn collect_sets(points: &[i32]) -> (sets: Vec<AdcPoints>)
    ensures
        sets_view(sets@) == frames(points@),
{
    let len = points.len();
    let count = len / ADC_COUNT;
    let mut sets: Vec<AdcPoints> = Vec::new();
    let mut k: usize = 0;
    while k < count
        invariant
            0 <= k <= count,
            len == points@.len(),
            count == points@.len() / ADC_COUNT as nat,
            sets@.len() == k,
            forall|j: int| 0 <= j < k ==> (#[trigger] sets@[j])@ == frames(points@)[j],
        decreases count - k,
    {
        let at = k * ADC_COUNT;
        let set = AdcPoints {
            values: [
                points[at],
                points[at + 1],
                points[at + 2],
                points[at + 3],
                points[at + 4],
                points[at + 5],
            ],
        };
        assert(set@ =~= points@.subrange(k * 6, (k + 1) * 6));
        sets.push(set);
        k = k + 1;
    }
    assert(sets_view(sets@) =~= frames(points@));
    sets
}

/// A bounded first-in first-out queue of sample sets.
///
/// The sets are stored channel by channel in one queue of points, so a set
/// enters whole or not at all.
pub struct AdcBuffer {
    points: PointBuffer,
}

impl View for AdcBuffer {
    type V = Seq<Seq<i32>>;

    closed spec fn view(&self) -> Seq<Seq<i32>> {
        frames(self.points@)
    }
}

impl AdcBuffer {
    /// The invariant of the queue: it holds whole sample sets only.
    pub closed spec fn wf(&self) -> bool {
        &&& self.points.wf()
        &&& self.points.spec_capacity() % ADC_COUNT as nat == 0
        &&& self.points@.len() % ADC_COUNT as nat == 0
    }

    /// The number of sample sets the queue has room for.
    pub closed spec fn spec_capacity(&self) -> nat {
        self.points.spec_capacity() / ADC_COUNT as nat
    }

    /// Whether the queue has been closed.
    pub closed spec fn spec_closed(&self) -> bool {
        self.points.spec_closed()
    }

    /// What `wf` says of the view.
    pub proof fn lemma_bounded(&self)
        requires
            self.wf(),
        ensures
            self@.len() <= self.spec_capacity(),
            self.spec_capacity() > 0,
            forall|k: int| 0 <= k < self@.len() ==> (#[trigger] self@[k]).len() == ADC_COUNT,
    {
        self.points.lemma_bounded();
    }

    /// An empty, open queue with room for `capacity` sample sets.
    pub fn new(capacity: usize) -> (q: Self)
        requires
            0 < capacity <= usize::MAX / 48,
        ensures
            q.wf(),
            q@ == Seq::<Seq<i32>>::empty(),
            q.spec_capacity() == capacity,
            !q.spec_closed(),
    {
        let q = AdcBuffer { points: PointBuffer::new(capacity * ADC_COUNT) };
        assert(q@ =~= Seq::<Seq<i32>>::empty());
        q
    }

    pub fn capacity(&self) -> (n: usize)
        requires
            self.wf(),
        ensures
            n == self.spec_capacity(),
    {
        self.points.capacity() / ADC_COUNT
    }

    pub fn len(&self) -> (n: usize)
        requires
            self.wf(),
        ensures
            n == self@.len(),
            n <= self.spec_capacity(),
    {
        proof {
            self.points.lemma_bounded();
        }
        self.points.len() / ADC_COUNT
    }

    pub fn is_empty(&self) -> (b: bool)
        requires
            self.wf(),
        ensures
            b == (self@.len() == 0),
    {
        self.points.is_empty()
    }

    pub fn is_full(&self) -> (b: bool)
        requires
            self.wf(),
        ensures
            b == (self@.len() == self.spec_capacity()),
    {
        proof {
            self.points.lemma_bounded();
        }
        self.points.is_full()
    }

    pub fn is_closed(&self) -> (b: bool)
        ensures
            b == self.spec_closed(),
    {
        self.points.is_closed()
    }

    /// Closes the queue. The sample sets it holds stay available to `pop`.
    pub fn close(&mut self)
        ensures
            final(self).spec_closed(),
            final(self)@ == old(self)@,
            final(self).spec_capacity() == old(self).spec_capacity(),
            old(self).wf() ==> final(self).wf(),
    {
        self.points.close();
    }

    /// Appends one sample set, or hands it back when the queue is full.
    pub fn push(&mut self, sample: AdcPoints) -> (res: Result<(), AdcPoints>)
        requires
            old(self).wf(),
        ensures
            final(self).wf(),
            final(self).spec_capacity() == old(self).spec_capacity(),
            final(self).spec_closed() == old(self).spec_closed(),
            final(self)@ == pushed(old(self)@, old(self).spec_capacity(), seq![sample@]),
            old(self)@.len() < old(self).spec_capacity() ==> res.is_ok() && final(self)@ == old(self)@.push(sample@),
            old(self)@.len() >= old(self).spec_capacity() ==> res == Err::<(), AdcPoints>(sample) && final(self)@ == old(self)@,
    {
        proof {
            self.points.lemma_bounded();
            let xs = seq![sample@];
            assert(xs.take(1) =~= xs);
            assert(xs.take(0) =~= Seq::<Seq<i32>>::empty());
            assert(old(self)@ + xs =~= old(self)@.push(sample@));
            assert(old(self)@ + Seq::<Seq<i32>>::empty() =~= old(self)@);
        }
        if self.points.free_len() < ADC_COUNT {
            return Err(sample);
        }
        let count = self.points.push_slice(sample.values.as_slice());
        proof {
            let before = old(self).points@;
            let after = self.points@;
            assert(count == ADC_COUNT);
            assert(sample@.take(ADC_COUNT as int) =~= sample@);
            assert(after == before + sample@);
            assert(frames(after) =~= frames(before).push(sample@)) by {
                let n = frames(before).len() as int;
                assert(frames(after).len() == n + 1);
                assert forall|k: int| 0 <= k < n + 1 implies frames(after)[k] == frames(
                    before,
                ).push(sample@)[k] by {
                    if k < n {
                        assert(after.subrange(k * 6, (k + 1) * 6) =~= before.subrange(
                            k * 6,
                            (k + 1) * 6,
                        ));
                    } else {
                        assert(after.subrange(k * 6, (k + 1) * 6) =~= sample@);
                    }
                }
            }
        }
        Ok(())
    }

    /// Removes and returns the oldest sample set, if there is one.
    pub fn pop(&mut self) -> (res: Option<AdcPoints>)
        requires
            old(self).wf(),
        ensures
            final(self).wf(),
            final(self).spec_capacity() == old(self).spec_capacity(),
            final(self).spec_closed() == old(self).spec_closed(),
            final(self)@ == remaining(old(self)@, 1),
            old(self)@.len() > 0 ==> res.is_some() && res->Some_0@ == old(self)@[0] && final(self)@ == old(self)@.drop_first(),
            old(self)@.len() == 0 ==> res.is_none() && final(self)@ == old(self)@,
    {
        proof {
            self.points.lemma_bounded();
            assert(old(self)@.skip(0) =~= old(self)@);
            if old(self)@.len() > 0 {
                assert(old(self)@.skip(1) =~= old(self)@.drop_first());
            }
        }
        if self.points.len() < ADC_COUNT {
            return None;
        }
        let batch = self.points.pop_batch(ADC_COUNT);
        let sample = AdcPoints {
            values: [batch[0], batch[1], batch[2], batch[3], batch[4], batch[5]],
        };
        proof {
            let before = old(self).points@;
            let after = self.points@;
            assert(after == before.skip(6));
            assert(sample@ =~= before.subrange(0, 6));
            assert(frames(after) =~= frames(before).drop_first()) by {
                let n = frames(after).len() as int;
                assert(frames(before).len() == n + 1);
                assert forall|k: int| 0 <= k < n implies frames(after)[k] == frames(
                    before,
                ).drop_first()[k] by {
                    assert(after.subrange(k * 6, (k + 1) * 6) =~= before.subrange(
                        (k + 1) * 6,
                        (k + 2) * 6,
                    ));
                }
            }
        }
        Some(sample)
    }
}

} // verus!
