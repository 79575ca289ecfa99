use vstd::prelude::*;

use crate::util::vec_contains_u64;

verus! {

/// What the fetch worker observes while a batch is accumulating.
pub enum FetchBatchEvent {
    /// A submission arrived with the distinct keys it still needs fetched.
    Request(Vec<u64>),
    /// The single-shot flush delay, started at the first submission of the
    /// batch, has elapsed.
    DelayElapsed,
    /// The request channel closed: no further submission can arrive.
    ChannelClosed,
}

/// The accumulating state of one fetch batch: the distinct keys collected
/// from every submission that joined the batch so far.
pub struct FetchBatch {
    keys: Vec<u64>,
}

impl FetchBatch {
    /// The accumulated keys, in arrival order of their first occurrence.
    pub closed spec fn key_seq(&self) -> Seq<u64> {
        self.keys@
    }

    /// The accumulated keys are distinct: a batch never presents the same
    /// key to the handler twice.
    pub open spec fn wf(&self) -> bool {
        forall|i: int, j: int|
            0 <= i < j < self.key_seq().len() ==> self.key_seq()[i] != self.key_seq()[j]
    }

    /// An empty batch.
    pub fn new() -> (r: FetchBatch)
        ensures
            r.wf(),
            r.key_seq() == Seq::<u64>::empty(),
    {
        FetchBatch { keys: Vec::new() }
    }

    /// The batch size: the number of distinct pending keys.
    pub fn len(&self) -> (n: usize)
        ensures
            n == self.key_seq().len(),
    {
        self.keys.len()
    }

    /// Merge one submission's keys into the batch. Keys already pending are
    /// not added again, and no key already accumulated is lost or reordered.
    pub fn add_keys(&mut self, keys: &Vec<u64>)
        requires
            old(self).wf(),
        ensures
            final(self).wf(),
            final(self).key_seq().len() >= old(self).key_seq().len(),
            forall|i: int|
                0 <= i < old(self).key_seq().len() ==> final(self).key_seq()[i] == old(
                    self,
                ).key_seq()[i],
            forall|k: u64|
                final(self).key_seq().contains(k) <==> (old(self).key_seq().contains(k)
                    || keys@.contains(k)),
    {
        let ghost k0 = self.keys@;
        let mut i: usize = 0;
        while i < keys.len()
            invariant
                i <= keys.len(),
                forall|p: int, q: int|
                    0 <= p < q < self.keys@.len() ==> self.keys@[p] != self.keys@[q],
                self.keys@.len() >= k0.len(),
                forall|p: int| 0 <= p < k0.len() ==> self.keys@[p] == k0[p],
                forall|k: u64| #[trigger]
                    self.keys@.contains(k) <==> (k0.contains(k) || keys@.take(
                        i as int,
                    ).contains(k)),
            decreases keys.len() - i,
        {
            let k = keys[i];
            if !vec_contains_u64(&self.keys, k) {
                self.keys.push(k);
            }
            proof {
                broadcast use vstd::seq_lib::lemma_seq_contains_after_push;

                keys@.lemma_take_succ_push(i as int);
            }
            i += 1;
        }
        proof {
            keys@.lemma_take_len();
        }
    }

    /// The eager-flush policy: with a threshold set, the batch is ready as
    /// soon as its size reaches or exceeds it; without one, size never
    /// triggers a flush. The threshold is a lower bound, not a cap.
    pub fn should_flush(&self, eager_batch_size: Option<usize>) -> (r: bool)
        ensures
            r == (eager_batch_size matches Some(n) && self.key_seq().len() >= n),
    {
        match eager_batch_size {
            Some(n) => self.keys.len() >= n,
            None => false,
        }
    }

    /// One step of the accumulation state machine. A new submission joins
    /// the batch, and the batch flushes right away only if it fills the
    /// eager threshold; the delay elapsing or the channel closing flushes
    /// the batch as it stands.
    pub fn step(&mut self, event: FetchBatchEvent, eager_batch_size: Option<usize>) -> (flush:
        bool)
        requires
            old(self).wf(),
        ensures
            final(self).wf(),
            match event {
                FetchBatchEvent::Request(ks) => {
                    &&& final(self).key_seq().len() >= old(self).key_seq().len()
                    &&& forall|i: int|
                        0 <= i < old(self).key_seq().len() ==> final(self).key_seq()[i] == old(
                            self,
                        ).key_seq()[i]
                    &&& forall|k: u64|
                        final(self).key_seq().contains(k) <==> (old(self).key_seq().contains(k)
                            || ks@.contains(k))
                    &&& flush == (eager_batch_size matches Some(n) && final(self).key_seq().len()
                        >= n)
                },
                FetchBatchEvent::DelayElapsed => *final(self) == *old(self) && flush,
                FetchBatchEvent::ChannelClosed => *final(self) == *old(self) && flush,
            },
    {
        match event {
            FetchBatchEvent::Request(ks) => {
                self.add_keys(&ks);
                self.should_flush(eager_batch_size)
            },
            FetchBatchEvent::DelayElapsed => true,
            FetchBatchEvent::ChannelClosed => true,
        }
    }

    /// Hand the accumulated key list to the handler invocation.
    pub fn into_keys(self) -> (r: Vec<u64>)
        ensures
            r@ == self.key_seq(),
    {
        self.keys
    }
}

} // verus!
