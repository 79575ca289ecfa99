use vstd::prelude::*;

verus! {

/// The recorded start indices of a batch's submissions never decrease:
/// submission `i`'s values sit at `starts[i] ..` in the concatenated list.
pub open spec fn starts_sorted(starts: Seq<usize>) -> bool {
    forall|i: int, j: int| 0 <= i <= j < starts.len() ==> starts[i] <= starts[j]
}

/// The slice of a batch's result list owed to submission `i`: from its start
/// index up to the next submission's start index, clipped to what the
/// handler actually returned; a submission whose start index lies beyond the
/// returned results receives nothing.
pub open spec fn result_segment<R>(starts: Seq<usize>, results: Seq<R>, i: int) -> Seq<R>
    recommends
        0 <= i < starts.len(),
        starts_sorted(starts),
{
    let lo = starts[i] as int;
    let hi = if i + 1 < starts.len() {
        vstd::math::min(starts[i + 1] as int, results.len() as int)
    } else {
        results.len() as int
    };
    if lo <= results.len() {
        results.subrange(lo, hi)
    } else {
        Seq::empty()
    }
}

/// What is left of the result list once every submission at index `j` and
/// beyond has carved off its slice.
spec fn remaining_bound<R>(starts: Seq<usize>, results: Seq<R>, j: int) -> int {
    if j == starts.len() {
        results.len() as int
    } else {
        vstd::math::min(starts[j] as int, results.len() as int)
    }
}

/// What the execute worker observes while a batch is accumulating.
pub enum ExecuteBatchEvent<T> {
    /// A submission arrived with the values it wants executed.
    Request(Vec<T>),
    /// The single-shot flush delay, started at the first submission of the
    /// batch, has elapsed.
    DelayElapsed,
    /// The request channel closed: no further submission can arrive.
    ChannelClosed,
}

/// The accumulating state of one execute batch: every submitted value in
/// submission order — no deduplication — and, per submission, the index in
/// that list at which its values begin.
pub struct ExecuteBatch<T> {
    values: Vec<T>,
    starts: Vec<usize>,
}

impl<T> ExecuteBatch<T> {
    /// All accumulated values, concatenated in submission order.
    pub closed spec fn value_seq(&self) -> Seq<T> {
        self.values@
    }

    /// Each submission's start index into the value list.
    pub closed spec fn start_seq(&self) -> Seq<usize> {
        self.starts@
    }

    /// Start indices grow with submission order and never point past the
    /// accumulated values.
    pub open spec fn wf(&self) -> bool {
        &&& starts_sorted(self.start_seq())
        &&& forall|i: int|
            0 <= i < self.start_seq().len() ==> self.start_seq()[i] <= self.value_seq().len()
    }

    /// An empty batch.
    pub fn new() -> (r: ExecuteBatch<T>)
        ensures
            r.wf(),
            r.value_seq() == Seq::<T>::empty(),
            r.start_seq() == Seq::<usize>::empty(),
    {
        ExecuteBatch { values: Vec::new(), starts: Vec::new() }
    }

    /// The batch size: the number of accumulated values.
    pub fn len(&self) -> (n: usize)
        ensures
            n == self.value_seq().len(),
    {
        self.values.len()
    }

    /// Append one submission: its values go to the end of the value list and
    /// its start index is recorded as the length the list had before.
    pub fn add_submission(&mut self, values: Vec<T>)
        requires
            old(self).wf(),
        ensures
            final(self).wf(),
            final(self).value_seq() == old(self).value_seq() + values@,
            final(self).start_seq() == old(self).start_seq().push(
                old(self).value_seq().len() as usize,
            ),
    {
        let start = self.values.len();
        self.starts.push(start);
        let mut incoming = values;
        self.values.append(&mut incoming);
        proof {
            assert forall|i: int, j: int|
                0 <= i <= j < self.starts@.len() implies self.starts@[i] <= self.starts@[j] by {
                if j < self.starts@.len() - 1 {
                    assert(old(self).start_seq()[i] <= old(self).start_seq()[j]);
                } else if i < self.starts@.len() - 1 {
                    assert(old(self).start_seq()[i] <= old(self).value_seq().len());
                }
            }
        }
    }

    /// The eager-flush policy: with a threshold set, the batch is ready as
    /// soon as its size reaches or exceeds it; without one, size never
    /// triggers a flush. The threshold is a lower bound, not a cap.
    pub fn should_flush(&self, eager_batch_size: Option<usize>) -> (r: bool)
        ensures
            r == (eager_batch_size matches Some(n) && self.value_seq().len() >= n),
    {
        match eager_batch_size {
            Some(n) => self.values.len() >= n,
            None => false,
        }
    }

    /// One step of the accumulation state machine. A new submission joins
    /// the batch, and the batch flushes right away only if it fills the
    /// eager threshold; the delay elapsing or the channel closing flushes
    /// the batch as it stands.
    pub fn step(&mut self, event: ExecuteBatchEvent<T>, eager_batch_size: Option<usize>) -> (flush:
        bool)
        requires
            old(self).wf(),
        ensures
            final(self).wf(),
            match event {
                ExecuteBatchEvent::Request(vs) => {
                    &&& final(self).value_seq() == old(self).value_seq() + vs@
                    &&& final(self).start_seq() == old(self).start_seq().push(
                        old(self).value_seq().len() as usize,
                    )
                    &&& flush == (eager_batch_size matches Some(n)
                        && final(self).value_seq().len() >= n)
                },
                ExecuteBatchEvent::DelayElapsed => *final(self) == *old(self) && flush,
                ExecuteBatchEvent::ChannelClosed => *final(self) == *old(self) && flush,
            },
    {
        match event {
            ExecuteBatchEvent::Request(vs) => {
                self.add_submission(vs);
                self.should_flush(eager_batch_size)
            },
            ExecuteBatchEvent::DelayElapsed => true,
            ExecuteBatchEvent::ChannelClosed => true,
        }
    }

    /// Hand the accumulated values to the handler invocation, keeping the
    /// start indices for splitting the handler's results.
    pub fn into_parts(self) -> (r: (Vec<T>, Vec<usize>))
        ensures
            r.0@ == self.value_seq(),
            r.1@ == self.start_seq(),
    {
        (self.values, self.starts)
    }
}

/// Positional fidelity of the split: element `p` of submission `i`'s slice
/// is exactly the handler's result at position `starts[i] + p`, so each
/// caller's results line up with its own values in input order.
pub proof fn lemma_result_segment_positions<R>(
    starts: Seq<usize>,
    results: Seq<R>,
    i: int,
    p: int,
)
    requires
        starts_sorted(starts),
        0 <= i < starts.len(),
        0 <= p < result_segment(starts, results, i).len(),
    ensures
        result_segment(starts, results, i)[p] == results[starts[i] + p],
{
}

/// Split a batch's result list back into per-submission slices, walking the
/// submissions in reverse order and shedding the tail owed to each; the
/// oldest submission keeps the remaining prefix. Submission `i` receives
/// exactly `result_segment(starts, results, i)`.
pub fn split_results<R>(starts: &Vec<usize>, results: Vec<R>) -> (out: Vec<Vec<R>>)
    requires
        starts_sorted(starts@),
    ensures
        out@.len() == starts@.len(),
        forall|i: int|
            0 <= i < starts@.len() ==> out@[i]@ == result_segment(starts@, results@, i),
{
    let ghost all = results@;
    let mut rest = results;
    let mut out_rev: Vec<Vec<R>> = Vec::new();
    let mut i: usize = starts.len();
    while i > 0
        invariant
            starts_sorted(starts@),
            i <= starts@.len(),
            out_rev@.len() == starts@.len() - i,
            rest@ == all.take(remaining_bound(starts@, all, i as int)),
            forall|j: int|
                0 <= j < out_rev@.len() ==> out_rev@[j]@ == result_segment(
                    starts@,
                    all,
                    starts@.len() - 1 - j,
                ),
        decreases i,
    {
        i -= 1;
        let s = starts[i];
        let ghost b = remaining_bound(starts@, all, i + 1);
        proof {
            assert(rest@.len() == b);
            assert(b <= all.len());
        }
        if s <= rest.len() {
            let tail = rest.split_off(s);
            proof {
                assert(tail@ =~= result_segment(starts@, all, i as int));
                assert(rest@ =~= all.take(remaining_bound(starts@, all, i as int)));
            }
            out_rev.push(tail);
        } else {
            proof {
                if i + 1 < starts@.len() {
                    assert(starts@[i as int] <= starts@[i + 1]);
                }
                assert(s > all.len());
                assert(result_segment(starts@, all, i as int) =~= Seq::<R>::empty());
                assert(rest@ =~= all.take(remaining_bound(starts@, all, i as int)));
            }
            out_rev.push(Vec::new());
        }
    }
    let mut out: Vec<Vec<R>> = Vec::new();
    while out_rev.len() > 0
        invariant
            out@.len() + out_rev@.len() == starts@.len(),
            forall|j: int|
                0 <= j < out_rev@.len() ==> out_rev@[j]@ == result_segment(
                    starts@,
                    all,
                    starts@.len() - 1 - j,
                ),
            forall|p: int|
                0 <= p < out@.len() ==> out@[p]@ == result_segment(starts@, all, p),
            all == results@,
        decreases out_rev.len(),
    {
        match out_rev.pop() {
            Some(slice) => {
                out.push(slice);
            },
            None => {},
        }
    }
    out
}

} // verus!
