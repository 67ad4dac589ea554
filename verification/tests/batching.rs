use rollup_core::account::AccountId;
use rollup_core::sequencer::{Sequencer, SequencerError};
use rollup_core::transaction::L2Transaction;

fn tx(n: u64) -> L2Transaction {
    L2Transaction {
        signature: vec![n as u8],
        from: AccountId { w0: n, w1: 0, w2: 0, w3: 0 },
        to: None,
        lamports: 0,
        instruction_data: Vec::new(),
        nonce: n,
    }
}

#[test]
fn scenario_batches_of_100_100_50() {
    let mut seq = Sequencer::new(1000, 100, 3);
    for n in 0..250u64 {
        assert!(seq.add_transaction(tx(n)).is_ok());
    }
    let b1 = seq.create_batch();
    let b2 = seq.create_batch();
    let b3 = seq.create_batch();
    assert_eq!(b1.len(), 100);
    assert_eq!(b2.len(), 100);
    assert_eq!(b3.len(), 50);
    let drained: Vec<u64> = b1.iter().chain(b2.iter()).chain(b3.iter()).map(|t| t.nonce).collect();
    let expected: Vec<u64> = (0..250).collect();
    assert_eq!(drained, expected);
    assert_eq!(seq.pending_len(), 0);
    // A further tick finds nothing to drain.
    assert!(seq.create_batch().is_empty());
}

#[test]
fn backpressure_at_capacity() {
    let mut seq = Sequencer::new(2, 10, 0);
    assert!(seq.add_transaction(tx(1)).is_ok());
    assert!(seq.add_transaction(tx(2)).is_ok());
    let res = seq.add_transaction(tx(3));
    assert_eq!(res.unwrap_err(), SequencerError::BackpressureExceeded);
    assert_eq!(seq.pending_len(), 2);
    // Draining frees room again.
    let batch = seq.create_batch();
    assert_eq!(batch.len(), 2);
    assert!(seq.add_transaction(tx(3)).is_ok());
}

#[test]
fn failed_forwarding_requeues_in_order() {
    let mut seq = Sequencer::new(100, 3, 2);
    for n in 0..5u64 {
        seq.add_transaction(tx(n)).unwrap();
    }
    let batch = seq.create_batch();
    assert_eq!(batch.len(), 3);
    // Forwarding fails: the batch returns to the front, order intact.
    assert!(seq.on_forward_failure(batch).is_none());
    assert_eq!(seq.pending_len(), 5);
    let again = seq.create_batch();
    let heads: Vec<u64> = again.iter().map(|t| t.nonce).collect();
    assert_eq!(heads, vec![0, 1, 2]);
}

#[test]
fn retries_are_bounded() {
    let mut seq = Sequencer::new(100, 2, 1);
    seq.add_transaction(tx(0)).unwrap();
    seq.add_transaction(tx(1)).unwrap();
    let batch = seq.create_batch();
    // First failure: requeued for retry.
    assert!(seq.on_forward_failure(batch).is_none());
    let batch = seq.create_batch();
    // Retries exhausted: the batch comes back for escalation, nothing is
    // silently dropped.
    let escalated = seq.on_forward_failure(batch).unwrap();
    assert_eq!(escalated.len(), 2);
    assert_eq!(seq.pending_len(), 0);
}

#[test]
fn success_resets_the_retry_budget() {
    let mut seq = Sequencer::new(100, 2, 1);
    seq.add_transaction(tx(0)).unwrap();
    let batch = seq.create_batch();
    assert!(seq.on_forward_failure(batch).is_none());
    let batch = seq.create_batch();
    seq.on_forward_success();
    drop(batch);
    // After a success the next failure is retried again.
    seq.add_transaction(tx(1)).unwrap();
    let batch = seq.create_batch();
    assert!(seq.on_forward_failure(batch).is_none());
}
