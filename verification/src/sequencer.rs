//! The sequencer: a bounded FIFO queue of already-executed transactions,
//! drained into ordered batches for settlement.
//!
//! Elements leave the queue in the order they entered it; a batch is a
//! contiguous prefix of the queue at flush time, so the concatenation of the
//! batches a run of flushes produces reproduces the arrival order exactly.
//! The queue is bounded: enqueueing into a full queue is rejected rather
//! than growing without limit. A batch whose forwarding failed is put back
//! at the front and retried a bounded number of times; exhausting the
//! retries is escalated to the caller, never silent loss.

use vstd::prelude::*;

use crate::transaction::L2Transaction;

verus! {

/// Why the sequencer refused an operation.
#[derive(Clone, Copy, PartialEq, Eq, Structural, Debug)]
pub enum SequencerError {
    /// The pending queue is at capacity; the caller must not assume the
    /// transaction will ever be settled.
    BackpressureExceeded,
}

/// The prefix a flush drains from a queue of length `len` at batch bound
/// `max`: the whole queue, or `max` elements, whichever is smaller.
pub open spec fn drain_len(len: nat, max: nat) -> nat {
    if len < max {
        len
    } else {
        max
    }
}

pub struct Sequencer {
    pending_txs: Vec<L2Transaction>,
    capacity: usize,
    max_batch_size: usize,
    retry_count: u64,
    max_retries: u64,
}

impl Sequencer {
    pub closed spec fn pending(self) -> Seq<L2Transaction> {
        self.pending_txs@
    }

    pub closed spec fn spec_capacity(self) -> usize {
        self.capacity
    }

    pub closed spec fn spec_max_batch_size(self) -> usize {
        self.max_batch_size
    }

    pub closed spec fn spec_retry_count(self) -> u64 {
        self.retry_count
    }

    pub closed spec fn spec_max_retries(self) -> u64 {
        self.max_retries
    }

    /// An empty sequencer with the given queue capacity, batch bound and
    /// retry bound.
    pub fn new(capacity: usize, max_batch_size: usize, max_retries: u64) -> (r: Sequencer)
        requires
            max_batch_size >= 1,
        ensures
            r.pending() == Seq::<L2Transaction>::empty(),
            r.spec_capacity() == capacity,
            r.spec_max_batch_size() == max_batch_size,
            r.spec_retry_count() == 0,
            r.spec_max_retries() == max_retries,
    {
        Sequencer {
            pending_txs: Vec::new(),
            capacity,
            max_batch_size,
            retry_count: 0,
            max_retries,
        }
    }

    /// How many transactions await batching.
    pub fn pending_len(&self) -> (r: usize)
        ensures
            r == self.pending().len(),
    {
        self.pending_txs.len()
    }

    /// Appends an already-executed transaction, or rejects it if the queue
    /// is at capacity — and only then.
    pub fn add_transaction(&mut self, tx: L2Transaction) -> (r: Result<(), SequencerError>)
        ensures
            final(self).spec_capacity() == old(self).spec_capacity(),
            final(self).spec_max_batch_size() == old(self).spec_max_batch_size(),
            final(self).spec_retry_count() == old(self).spec_retry_count(),
            final(self).spec_max_retries() == old(self).spec_max_retries(),
            if old(self).pending().len() < old(self).spec_capacity() {
                &&& r == Ok::<(), SequencerError>(())
                &&& final(self).pending() == old(self).pending().push(tx)
            } else {
                &&& r == Err::<(), SequencerError>(SequencerError::BackpressureExceeded)
                &&& final(self).pending() == old(self).pending()
            },
    {
        if self.pending_txs.len() < self.capacity {
            self.pending_txs.push(tx);
            Ok(())
        } else {
            Err(SequencerError::BackpressureExceeded)
        }
    }

    /// Drains the oldest transactions — at most the batch bound — into a
    /// batch. The batch is the queue's prefix, the remainder its suffix:
    /// batch boundaries never reorder transactions.
    pub fn create_batch(&mut self) -> (batch: Vec<L2Transaction>)
        ensures
            final(self).spec_capacity() == old(self).spec_capacity(),
            final(self).spec_max_batch_size() == old(self).spec_max_batch_size(),
            final(self).spec_retry_count() == old(self).spec_retry_count(),
            final(self).spec_max_retries() == old(self).spec_max_retries(),
            batch@ == old(self).pending().take(
                drain_len(old(self).pending().len(), old(self).spec_max_batch_size() as nat) as int,
            ),
            final(self).pending() == old(self).pending().skip(
                drain_len(old(self).pending().len(), old(self).spec_max_batch_size() as nat) as int,
            ),
    {
        let n: usize = if self.pending_txs.len() < self.max_batch_size {
            self.pending_txs.len()
        } else {
            self.max_batch_size
        };
        let mut batch: Vec<L2Transaction> = Vec::new();
        let mut i: usize = 0;
        while i < n
            invariant
                i <= n,
                n == drain_len(old(self).pending().len(), old(self).spec_max_batch_size() as nat),
                n <= old(self).pending().len(),
                batch@ == old(self).pending().take(i as int),
                self.pending_txs@ == old(self).pending().skip(i as int),
                self.capacity == old(self).spec_capacity(),
                self.max_batch_size == old(self).spec_max_batch_size(),
                self.retry_count == old(self).spec_retry_count(),
                self.max_retries == old(self).spec_max_retries(),
            decreases n - i,
        {
            let tx = self.pending_txs.remove(0);
            batch.push(tx);
            proof {
                assert(batch@ =~= old(self).pending().take(i as int + 1));
                assert(self.pending_txs@ =~= old(self).pending().skip(i as int + 1));
            }
            i = i + 1;
        }
        batch
    }

    /// Records that a batch was forwarded and settled: the retry counter
    /// starts afresh.
    pub fn on_forward_success(&mut self)
        ensures
            final(self).pending() == old(self).pending(),
            final(self).spec_capacity() == old(self).spec_capacity(),
            final(self).spec_max_batch_size() == old(self).spec_max_batch_size(),
            final(self).spec_retry_count() == 0,
            final(self).spec_max_retries() == old(self).spec_max_retries(),
    {
        self.retry_count = 0;
    }

    /// Records that forwarding a batch failed. While retries remain, the
    /// batch goes back to the front of the queue — order intact — for the
    /// next trigger, and `None` is returned. With retries exhausted the
    /// batch comes back to the caller, who must escalate: the queue is not
    /// touched and nothing is dropped.
    pub fn on_forward_failure(&mut self, batch: Vec<L2Transaction>) -> (r: Option<
        Vec<L2Transaction>,
    >)
        ensures
            final(self).spec_capacity() == old(self).spec_capacity(),
            final(self).spec_max_batch_size() == old(self).spec_max_batch_size(),
            final(self).spec_max_retries() == old(self).spec_max_retries(),
            if old(self).spec_retry_count() < old(self).spec_max_retries() {
                &&& r is None
                &&& final(self).pending() == batch@ + old(self).pending()
                &&& final(self).spec_retry_count() == old(self).spec_retry_count() + 1
            } else {
                &&& r == Some(batch)
                &&& final(self).pending() == old(self).pending()
                &&& final(self).spec_retry_count() == old(self).spec_retry_count()
            },
    {
        if self.retry_count < self.max_retries {
            let mut rest = batch;
            proof {
                assert(rest@.take(rest@.len() as int) =~= rest@);
                assert(rest@.skip(rest@.len() as int) + old(self).pending() =~= old(
                    self,
                ).pending());
            }
            let ghost whole = rest@;
            while rest.len() > 0
                invariant
                    rest@.len() <= whole.len(),
                    rest@ == whole.take(rest@.len() as int),
                    self.pending_txs@ == whole.skip(rest@.len() as int) + old(self).pending(),
                    self.capacity == old(self).spec_capacity(),
                    self.max_batch_size == old(self).spec_max_batch_size(),
                    self.retry_count == old(self).spec_retry_count(),
                    self.max_retries == old(self).spec_max_retries(),
                decreases rest@.len(),
            {
                let ghost m = rest@.len() as int;
                let tx = match rest.pop() {
                    Some(t) => t,
                    None => {
                        proof {
                            assert(false);
                        }
                        unreached()
                    },
                };
                self.pending_txs.insert(0, tx);
                proof {
                    assert(rest@ == whole.take(m).subrange(0, m - 1));
                    assert(rest@ =~= whole.take(m - 1));
                    assert(self.pending_txs@ =~= whole.skip(m - 1) + old(self).pending());
                }
            }
            proof {
                assert(self.pending_txs@ =~= batch@ + old(self).pending());
            }
            self.retry_count = self.retry_count + 1;
            None
        } else {
            Some(batch)
        }
    }
}

/// The batches that repeatedly flushing a queue at batch bound `max` yields,
/// oldest first, until the queue is empty — each one the prefix
/// `create_batch` drains.
pub open spec fn drained_batches(queue: Seq<L2Transaction>, max: nat) -> Seq<Seq<L2Transaction>>
    decreases queue.len(),
    when max >= 1
{
    if queue.len() == 0 {
        Seq::empty()
    } else {
        seq![queue.take(drain_len(queue.len(), max) as int)] + drained_batches(
            queue.skip(drain_len(queue.len(), max) as int),
            max,
        )
    }
}

/// The batches joined back together, in order.
pub open spec fn concat_batches(batches: Seq<Seq<L2Transaction>>) -> Seq<L2Transaction>
    decreases batches.len(),
{
    if batches.len() == 0 {
        Seq::empty()
    } else {
        batches[0] + concat_batches(batches.drop_first())
    }
}

/// FIFO batching: enqueue any sequence of transactions and drain it batch by
/// batch — the concatenation of the batches reproduces the arrival order
/// exactly.
pub proof fn lemma_fifo_batching(queue: Seq<L2Transaction>, max: nat)
    requires
        max >= 1,
    ensures
        concat_batches(drained_batches(queue, max)) == queue,
    decreases queue.len(),
{
    if queue.len() == 0 {
        assert(concat_batches(drained_batches(queue, max)) =~= queue);
    } else {
        let n = drain_len(queue.len(), max) as int;
        let head = queue.take(n);
        let rest = queue.skip(n);
        lemma_fifo_batching(rest, max);
        let bs = drained_batches(queue, max);
        assert(bs == seq![head] + drained_batches(rest, max));
        assert(bs[0] == head);
        assert(bs.drop_first() =~= drained_batches(rest, max));
        assert(head + rest =~= queue);
    }
}

} // verus!
