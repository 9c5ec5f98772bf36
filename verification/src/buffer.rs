//! Reservoir sampling buffers of training samples.
use vstd::prelude::*;

verus! {

/// Draws an index uniformly from `0..bound` with the thread-local generator
/// (`rand::thread_rng`, then `rand::Rng::gen_range` on the range `0..bound`, which
/// panics on an empty range). The contract claims only that the index is in range;
/// which index comes out is left to chance.
#[verifier::external_body]
fn random_index(bound: usize) -> (r: usize)
    requires
        bound > 0,
    ensures
        r < bound,
{
    let mut rng = rand::thread_rng();
    rand::Rng::gen_range(&mut rng, 0..bound)
}

/// A training sample: information-set features, targets, and where it came from.
/// `F` is the number type of the features, targets and weight.
#[derive(Clone, Debug)]
pub struct Sample<F> {
    /// Encoded information-set features.
    pub features: Vec<F>,
    /// Target values (advantages or strategy).
    pub targets: Vec<F>,
    /// Iteration when the sample was collected.
    pub iteration: usize,
    /// Player who made the decision (0 = OOP, 1 = IP).
    pub player: usize,
    /// Sampling weight.
    pub weight: F,
}

impl<F> Sample<F> {
    pub fn new(features: Vec<F>, targets: Vec<F>, iteration: usize, player: usize, weight: F) -> (r:
        Self)
        ensures
            r == (Sample { features, targets, iteration, player, weight }),
    {
        Sample { features, targets, iteration, player, weight }
    }
}

/// The samples of `s` whose player is `player`, in order.
pub open spec fn samples_of_player<F>(s: Seq<Sample<F>>, player: usize) -> Seq<Sample<F>>
    decreases s.len(),
{
    if s.len() == 0 {
        Seq::empty()
    } else if s.last().player == player {
        samples_of_player(s.drop_last(), player).push(s.last())
    } else {
        samples_of_player(s.drop_last(), player)
    }
}

/// The samples of `s` collected in an iteration of `from..=to`, in order.
pub open spec fn samples_in_iterations<F>(s: Seq<Sample<F>>, from: usize, to: usize) -> Seq<
    Sample<F>,
>
    decreases s.len(),
{
    if s.len() == 0 {
        Seq::empty()
    } else if from <= s.last().iteration <= to {
        samples_in_iterations(s.drop_last(), from, to).push(s.last())
    } else {
        samples_in_iterations(s.drop_last(), from, to)
    }
}

/// Every sample of `batch` is one held in `s`.
pub open spec fn all_held<F>(batch: Seq<Sample<F>>, s: Seq<Sample<F>>) -> bool {
    forall|i: int| 0 <= i < batch.len() ==> s.contains(#[trigger] batch[i])
}

/// `s` after one add to a full reservoir that drew `idx`: the sample at `idx` is
/// replaced when `idx` falls inside the reservoir, else nothing changes.
pub open spec fn replaced_at<F>(s: Seq<Sample<F>>, idx: int, sample: Sample<F>) -> Seq<Sample<F>> {
    if idx < s.len() {
        s.update(idx, sample)
    } else {
        s
    }
}

/// Reservoir sampling buffer: holds at most `capacity` samples, each sample seen
/// having the same chance of being held.
#[derive(Debug)]
pub struct ReservoirBuffer<F> {
    state: ReservoirState<F>,
}

impl<F: Clone> Clone for ReservoirBuffer<F> {
    /// A copy with clones of the samples, the same capacity and count of samples seen.
    fn clone(&self) -> (r: Self)
        ensures
            r.spec_samples().len() == self.spec_samples().len(),
            forall|i: int|
                0 <= i < self.spec_samples().len() ==> cloned::<Sample<F>>(
                    self.spec_samples()[i],
                    #[trigger] r.spec_samples()[i],
                ),
            r.spec_capacity() == self.spec_capacity(),
            r.spec_total_seen() == self.spec_total_seen(),
    {
        proof {
            use_type_invariant(self);
        }
        ReservoirBuffer {
            state: ReservoirState {
                samples: self.state.samples.clone(),
                capacity: self.state.capacity,
                total_seen: self.state.total_seen,
            },
        }
    }
}

/// Contents of a reservoir buffer.
#[derive(Debug)]
struct ReservoirState<F> {
    samples: Vec<Sample<F>>,
    capacity: usize,
    total_seen: usize,
}

impl<F> ReservoirBuffer<F> {
    pub closed spec fn spec_samples(&self) -> Seq<Sample<F>> {
        self.state.samples@
    }

    pub closed spec fn spec_capacity(&self) -> usize {
        self.state.capacity
    }

    pub closed spec fn spec_total_seen(&self) -> usize {
        self.state.total_seen
    }

    /// Every buffer is well formed.
    #[verifier::type_invariant]
    spec fn reservoir_size_law(self) -> bool {
        self.well_formed()
    }

    /// The buffer holds the first samples seen until it is full, and stays full
    /// after that; every buffer is so (the type's invariant).
    pub open spec fn well_formed(&self) -> bool {
        self.spec_samples().len() == if self.spec_total_seen() < self.spec_capacity() {
            self.spec_total_seen() as int
        } else {
            self.spec_capacity() as int
        }
    }

    /// An empty buffer with the given capacity.
    pub fn new(capacity: usize) -> (r: Self)
        ensures
            r.well_formed(),
            r.spec_samples().len() == 0,
            r.spec_capacity() == capacity,
            r.spec_total_seen() == 0,
    {
        ReservoirBuffer { state: ReservoirState { samples: Vec::new(), capacity, total_seen: 0 } }
    }

    /// Adds a sample: appended while the buffer is not full; once full, it replaces
    /// the sample at an index drawn uniformly from `0..total_seen`, or is dropped when
    /// the index is not below the capacity.
    pub fn add(&mut self, sample: Sample<F>)
        requires
            old(self).spec_total_seen() < usize::MAX,
        ensures
            final(self).well_formed(),
            final(self).spec_capacity() == old(self).spec_capacity(),
            final(self).spec_total_seen() == old(self).spec_total_seen() + 1,
            old(self).spec_samples().len() < old(self).spec_capacity() ==> final(self).spec_samples()
                == old(self).spec_samples().push(sample),
            old(self).spec_samples().len() >= old(self).spec_capacity() ==> exists|idx: int|
                0 <= idx < final(self).spec_total_seen() && final(self).spec_samples()
                    == replaced_at(old(self).spec_samples(), idx, sample),
    {
        proof {
            use_type_invariant(&*self);
        }
        let mut st = ReservoirState { samples: Vec::new(), capacity: 0, total_seen: 0 };
        std::mem::swap(&mut st, &mut self.state);
        st.total_seen = st.total_seen + 1;
        let has_room = st.samples.len() < st.capacity;
        if has_room {
            st.samples.push(sample);
            std::mem::swap(&mut st, &mut self.state);
        } else {
            let seen = st.total_seen;
            std::mem::swap(&mut st, &mut self.state);
            let idx = random_index(seen);
            self.replace_drawn(idx, sample);
        }
    }

    /// Adds the samples one after the other (see [`Self::add`]).
    pub fn add_batch(&mut self, samples: Vec<Sample<F>>)
        requires
            old(self).spec_total_seen() + samples@.len() <= usize::MAX,
        ensures
            final(self).well_formed(),
            final(self).spec_capacity() == old(self).spec_capacity(),
            final(self).spec_total_seen() == old(self).spec_total_seen() + samples@.len(),
            old(self).spec_samples().len() + samples@.len() <= old(self).spec_capacity()
                ==> final(self).spec_samples() == old(self).spec_samples() + samples@,
    {
        proof {
            use_type_invariant(&*self);
        }
        let ghost start = self.spec_samples();
        let ghost batch = samples@;
        let mut samples = samples;
        let mut remaining: Vec<Sample<F>> = Vec::new();
        while samples.len() > 0
            invariant
                samples@.len() + remaining@.len() == batch.len(),
                forall|i: int| 0 <= i < samples@.len() ==> samples@[i] == batch[i],
                forall|i: int|
                    0 <= i < remaining@.len() ==> remaining@[i] == batch[batch.len() - 1 - i],
            decreases samples@.len(),
        {
            let s = samples.pop().unwrap();
            remaining.push(s);
        }
        let ghost mut taken: int = 0;
        while remaining.len() > 0
            invariant
                self.well_formed(),
                self.spec_capacity() == old(self).spec_capacity(),
                0 <= taken <= batch.len(),
                remaining@.len() == batch.len() - taken,
                forall|i: int| 0 <= i < remaining@.len() ==> remaining@[i] == batch[batch.len() - 1 - i],
                self.spec_total_seen() == old(self).spec_total_seen() + taken,
                old(self).spec_total_seen() + batch.len() <= usize::MAX,
                start.len() + batch.len() <= self.spec_capacity() ==> self.spec_samples() == start
                    + batch.subrange(0, taken),
            decreases remaining@.len(),
        {
            let sample = remaining.pop().unwrap();
            proof {
                assert(sample == batch[taken]);
            }
            self.add(sample);
            proof {
                if start.len() + batch.len() <= self.spec_capacity() {
                    assert(batch.subrange(0, taken + 1) =~= batch.subrange(0, taken).push(batch[taken]));
                }
                taken = taken + 1;
            }
        }
        proof {
            assert(batch.subrange(0, taken) =~= batch);
        }
    }

    /// The step of an add to a full buffer once the index is drawn: the sample at `idx`
    /// is replaced when `idx` is below the capacity.
    pub fn replace_drawn(&mut self, idx: usize, sample: Sample<F>)
        requires
            old(self).spec_samples().len() >= old(self).spec_capacity(),
        ensures
            final(self).spec_samples() == replaced_at(old(self).spec_samples(), idx as int, sample),
            final(self).spec_capacity() == old(self).spec_capacity(),
            final(self).spec_total_seen() == old(self).spec_total_seen(),
    {
        proof {
            use_type_invariant(&*self);
        }
        if idx < self.state.capacity {
            let mut st = ReservoirState { samples: Vec::new(), capacity: 0, total_seen: 0 };
            std::mem::swap(&mut st, &mut self.state);
            st.samples.set(idx, sample);
            std::mem::swap(&mut st, &mut self.state);
        }
    }

    /// Number of samples held.
    pub fn len(&self) -> (r: usize)
        ensures
            r == self.spec_samples().len(),
    {
        self.state.samples.len()
    }

    /// The buffer holds no sample.
    pub fn is_empty(&self) -> (r: bool)
        ensures
            r == (self.spec_samples().len() == 0),
    {
        self.state.samples.len() == 0
    }

    /// Number of samples added since the buffer was made or cleared, replaced ones
    /// included.
    pub fn total_seen(&self) -> (r: usize)
        ensures
            r == self.spec_total_seen(),
    {
        self.state.total_seen
    }

    /// A batch of `min(batch_size, len)` samples, each drawn uniformly (with
    /// replacement) from the buffer.
    pub fn sample_batch(&self, batch_size: usize) -> (r: Vec<&Sample<F>>)
        ensures
            r@.len() == if batch_size < self.spec_samples().len() {
                batch_size as int
            } else {
                self.spec_samples().len() as int
            },
            all_held(r@.map_values(|x: &Sample<F>| *x), self.spec_samples()),
    {
        let mut batch: Vec<&Sample<F>> = Vec::new();
        if self.state.samples.len() == 0 {
            return batch;
        }
        let n = self.state.samples.len();
        let actual = if batch_size < n { batch_size } else { n };
        let mut k: usize = 0;
        while k < actual
            invariant
                n == self.state.samples@.len(),
                n > 0,
                actual <= n,
                k <= actual,
                batch@.len() == k,
                all_held(batch@.map_values(|x: &Sample<F>| *x), self.spec_samples()),
            decreases actual - k,
        {
            let idx = random_index(n);
            let ghost before = batch@;
            batch.push(&self.state.samples[idx]);
            assert(self.spec_samples().contains(self.state.samples@[idx as int]));
            assert(batch@.map_values(|x: &Sample<F>| *x) =~= before.map_values(|x: &Sample<F>| *x).push(
                self.state.samples@[idx as int],
            ));
            k = k + 1;
        }
        batch
    }

    /// All samples held, in buffer order.
    pub fn samples(&self) -> (r: &[Sample<F>])
        ensures
            r@ == self.spec_samples(),
    {
        self.state.samples.as_slice()
    }

    /// Empties the buffer and resets the count of samples seen.
    pub fn clear(&mut self)
        ensures
            final(self).well_formed(),
            final(self).spec_samples().len() == 0,
            final(self).spec_total_seen() == 0,
            final(self).spec_capacity() == old(self).spec_capacity(),
    {
        let mut st = ReservoirState { samples: Vec::new(), capacity: 0, total_seen: 0 };
        std::mem::swap(&mut st, &mut self.state);
        st.samples.clear();
        st.total_seen = 0;
        std::mem::swap(&mut st, &mut self.state);
    }

    /// The samples of `player`, in buffer order.
    pub fn samples_for_player(&self, player: usize) -> (r: Vec<&Sample<F>>)
        ensures
            r@.map_values(|s: &Sample<F>| *s) == samples_of_player(self.spec_samples(), player),
    {
        let mut out: Vec<&Sample<F>> = Vec::new();
        let mut i: usize = 0;
        while i < self.state.samples.len()
            invariant
                i <= self.state.samples@.len(),
                out@.map_values(|s: &Sample<F>| *s) == samples_of_player(
                    self.state.samples@.take(i as int),
                    player,
                ),
            decreases self.state.samples@.len() - i,
        {
            proof {
                assert(self.state.samples@.take(i + 1).drop_last() =~= self.state.samples@.take(i as int));
            }
            let ghost before = out@;
            if self.state.samples[i].player == player {
                out.push(&self.state.samples[i]);
                assert(out@.map_values(|s: &Sample<F>| *s) =~= before.map_values(
                    |s: &Sample<F>| *s,
                ).push(self.state.samples@[i as int]));
            }
            i = i + 1;
        }
        assert(self.state.samples@.take(i as int) =~= self.state.samples@);
        out
    }

    /// The samples collected in an iteration of `from_iter..=to_iter`, in buffer order.
    pub fn samples_in_range(&self, from_iter: usize, to_iter: usize) -> (r: Vec<&Sample<F>>)
        ensures
            r@.map_values(|s: &Sample<F>| *s) == samples_in_iterations(
                self.spec_samples(),
                from_iter,
                to_iter,
            ),
    {
        let mut out: Vec<&Sample<F>> = Vec::new();
        let mut i: usize = 0;
        while i < self.state.samples.len()
            invariant
                i <= self.state.samples@.len(),
                out@.map_values(|s: &Sample<F>| *s) == samples_in_iterations(
                    self.state.samples@.take(i as int),
                    from_iter,
                    to_iter,
                ),
            decreases self.state.samples@.len() - i,
        {
            proof {
                assert(self.state.samples@.take(i + 1).drop_last() =~= self.state.samples@.take(i as int));
            }
            let ghost before = out@;
            let it = self.state.samples[i].iteration;
            if it >= from_iter && it <= to_iter {
                out.push(&self.state.samples[i]);
                assert(out@.map_values(|s: &Sample<F>| *s) =~= before.map_values(
                    |s: &Sample<F>| *s,
                ).push(self.state.samples@[i as int]));
            }
            i = i + 1;
        }
        assert(self.state.samples@.take(i as int) =~= self.state.samples@);
        out
    }
}

/// Buffer of advantage samples.
#[derive(Clone, Debug)]
pub struct AdvantageBuffer<F> {
    inner: ReservoirBuffer<F>,
}

impl<F> AdvantageBuffer<F> {
    pub closed spec fn spec_inner(&self) -> ReservoirBuffer<F> {
        self.inner
    }

    pub fn new(capacity: usize) -> (r: Self)
        ensures
            r.spec_inner().well_formed(),
            r.spec_inner().spec_samples().len() == 0,
            r.spec_inner().spec_capacity() == capacity,
            r.spec_inner().spec_total_seen() == 0,
    {
        AdvantageBuffer { inner: ReservoirBuffer::new(capacity) }
    }

    /// Adds an advantage sample (see [`ReservoirBuffer::add`]).
    pub fn add(&mut self, features: Vec<F>, advantages: Vec<F>, iteration: usize, player: usize, weight: F)
        requires
            old(self).spec_inner().spec_total_seen() < usize::MAX,
        ensures
            final(self).spec_inner().well_formed(),
            final(self).spec_inner().spec_capacity() == old(self).spec_inner().spec_capacity(),
            final(self).spec_inner().spec_total_seen() == old(self).spec_inner().spec_total_seen()
                + 1,
            ({
                let sample = Sample { features, targets: advantages, iteration, player, weight };
                let before = old(self).spec_inner().spec_samples();
                let after = final(self).spec_inner().spec_samples();
                let cap = old(self).spec_inner().spec_capacity();
                &&& before.len() < cap ==> after == before.push(sample)
                &&& before.len() >= cap ==> exists|idx: int|
                    0 <= idx < final(self).spec_inner().spec_total_seen() && after == replaced_at(
                        before,
                        idx,
                        sample,
                    )
            }),
    {
        let sample = Sample::new(features, advantages, iteration, player, weight);
        self.inner.add(sample);
    }

    pub fn len(&self) -> (r: usize)
        ensures
            r == self.spec_inner().spec_samples().len(),
    {
        self.inner.len()
    }

    pub fn is_empty(&self) -> (r: bool)
        ensures
            r == (self.spec_inner().spec_samples().len() == 0),
    {
        self.inner.is_empty()
    }

    /// See [`ReservoirBuffer::sample_batch`].
    pub fn sample_batch(&self, batch_size: usize) -> (r: Vec<&Sample<F>>)
        ensures
            r@.len() == if batch_size < self.spec_inner().spec_samples().len() {
                batch_size as int
            } else {
                self.spec_inner().spec_samples().len() as int
            },
            all_held(r@.map_values(|x: &Sample<F>| *x), self.spec_inner().spec_samples()),
    {
        self.inner.sample_batch(batch_size)
    }

    /// The samples of `player`, in buffer order.
    pub fn samples_for_player(&self, player: usize) -> (r: Vec<&Sample<F>>)
        ensures
            r@.map_values(|s: &Sample<F>| *s) == samples_of_player(
                self.spec_inner().spec_samples(),
                player,
            ),
    {
        self.inner.samples_for_player(player)
    }

    /// All samples held, in buffer order.
    pub fn samples(&self) -> (r: &[Sample<F>])
        ensures
            r@ == self.spec_inner().spec_samples(),
    {
        self.inner.samples()
    }

    pub fn clear(&mut self)
        ensures
            final(self).spec_inner().well_formed(),
            final(self).spec_inner().spec_samples().len() == 0,
            final(self).spec_inner().spec_total_seen() == 0,
            final(self).spec_inner().spec_capacity() == old(self).spec_inner().spec_capacity(),
    {
        self.inner.clear();
    }
}

} // verus!
