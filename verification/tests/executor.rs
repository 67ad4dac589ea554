use rollup_core::account::{AccountId, L2Account};
use rollup_core::state_manager::StateManager;
use rollup_core::transaction::{InstructionInfo, RawTransaction, TransactionError};
use rollup_core::transaction_processor::TransactionProcessor;

fn id(n: u64) -> AccountId {
    AccountId { w0: n, w1: 0, w2: 0, w3: 0 }
}

fn account(lamports: u64) -> L2Account {
    L2Account {
        lamports,
        data: Vec::new(),
        owner: AccountId::system_id(),
        executable: false,
        rent_epoch: 0,
    }
}

fn transfer_payload(amount: u64) -> Vec<u8> {
    let mut data = vec![2u8, 0, 0, 0];
    data.extend_from_slice(&amount.to_le_bytes());
    data
}

fn transfer_tx(from: AccountId, to: AccountId, amount: u64, nonce: u64) -> RawTransaction {
    RawTransaction {
        signatures: vec![vec![7u8; 64]],
        account_keys: vec![from, to],
        instructions: vec![InstructionInfo {
            program_id_index: 0,
            accounts: vec![0, 1],
            data: transfer_payload(amount),
        }],
        nonce,
    }
}

fn processor_with(accounts: &[(AccountId, u64)]) -> TransactionProcessor {
    let mut sm = StateManager::new();
    for (who, lamports) in accounts {
        sm.update_account(who, account(*lamports));
    }
    TransactionProcessor::new(sm)
}

#[test]
fn scenario_transfer_applies() {
    let a = id(1);
    let b = id(2);
    let mut proc = processor_with(&[(a, 100)]);
    let tx = transfer_tx(a, b, 40, 1);
    let receipt = proc.process_transaction(&tx, true);
    assert_eq!(receipt.unwrap(), vec![7u8; 64]);
    assert_eq!(proc.get_account(&a).unwrap().lamports, 60);
    assert_eq!(proc.get_account(&b).unwrap().lamports, 40);
    // A's tracked nonce is now 1: nonce 1 replays, nonce 2 is accepted.
    let replay = proc.process_transaction(&transfer_tx(a, b, 1, 1), true);
    assert_eq!(replay.unwrap_err(), TransactionError::ReplayedNonce);
    assert!(proc.process_transaction(&transfer_tx(a, b, 1, 2), true).is_ok());
}

#[test]
fn scenario_insufficient_funds() {
    let a = id(1);
    let b = id(2);
    let mut proc = processor_with(&[(a, 100)]);
    let res = proc.process_transaction(&transfer_tx(a, b, 1000, 1), true);
    assert_eq!(res.unwrap_err(), TransactionError::InsufficientFunds);
    assert_eq!(proc.get_account(&a).unwrap().lamports, 100);
    assert!(proc.get_account(&b).is_none());
    // A's tracked nonce is unchanged: nonce 1 is still the next one.
    assert!(proc.process_transaction(&transfer_tx(a, b, 40, 1), true).is_ok());
}

#[test]
fn scenario_same_nonce_one_applies() {
    let a = id(1);
    let b = id(2);
    let c = id(3);
    let mut proc = processor_with(&[(a, 100)]);
    // Two transfers of 60 each, same nonce: the one linearized first wins,
    // the second is rejected and mutates nothing.
    let first = proc.process_transaction(&transfer_tx(a, b, 60, 1), true);
    assert!(first.is_ok());
    let second = proc.process_transaction(&transfer_tx(a, c, 60, 1), true);
    assert_eq!(second.unwrap_err(), TransactionError::ReplayedNonce);
    assert_eq!(proc.get_account(&a).unwrap().lamports, 40);
    assert_eq!(proc.get_account(&b).unwrap().lamports, 60);
    assert!(proc.get_account(&c).is_none());
    // The other interleaving: a correct nonce but a spent balance.
    let third = proc.process_transaction(&transfer_tx(a, c, 60, 2), true);
    assert_eq!(third.unwrap_err(), TransactionError::InsufficientFunds);
    assert_eq!(proc.get_account(&a).unwrap().lamports, 40);
}

#[test]
fn invalid_signature_rejected_without_mutation() {
    let a = id(1);
    let b = id(2);
    let mut proc = processor_with(&[(a, 100)]);
    let res = proc.process_transaction(&transfer_tx(a, b, 40, 1), false);
    assert_eq!(res.unwrap_err(), TransactionError::InvalidSignature);
    assert_eq!(proc.get_account(&a).unwrap().lamports, 100);
    assert!(proc.get_account(&b).is_none());
}

#[test]
fn truncated_transfer_is_malformed() {
    let a = id(1);
    let b = id(2);
    let mut proc = processor_with(&[(a, 100)]);
    let mut tx = transfer_tx(a, b, 40, 1);
    tx.instructions[0].data.truncate(8);
    let res = proc.process_transaction(&tx, true);
    assert_eq!(res.unwrap_err(), TransactionError::MalformedInstruction);
    assert_eq!(proc.get_account(&a).unwrap().lamports, 100);
}

#[test]
fn recipient_index_out_of_range_is_malformed() {
    let a = id(1);
    let b = id(2);
    let mut proc = processor_with(&[(a, 100)]);
    let mut tx = transfer_tx(a, b, 40, 1);
    tx.instructions[0].accounts = vec![0, 9];
    let res = proc.process_transaction(&tx, true);
    assert_eq!(res.unwrap_err(), TransactionError::MalformedInstruction);
}

#[test]
fn missing_signature_is_malformed() {
    let a = id(1);
    let b = id(2);
    let mut proc = processor_with(&[(a, 100)]);
    let mut tx = transfer_tx(a, b, 40, 1);
    tx.signatures = Vec::new();
    let res = proc.process_transaction(&tx, true);
    assert_eq!(res.unwrap_err(), TransactionError::MalformedInstruction);
}

#[test]
fn missing_fee_payer_is_malformed() {
    let a = id(1);
    let b = id(2);
    let mut proc = processor_with(&[(a, 100)]);
    let mut tx = transfer_tx(a, b, 40, 1);
    tx.account_keys = Vec::new();
    let res = proc.process_transaction(&tx, true);
    assert_eq!(res.unwrap_err(), TransactionError::MalformedInstruction);
}

#[test]
fn opaque_payload_consumes_nonce_and_moves_no_balance() {
    let a = id(1);
    let b = id(2);
    let mut proc = processor_with(&[(a, 100)]);
    let mut tx = transfer_tx(a, b, 40, 1);
    tx.instructions[0].data = vec![9u8, 0, 0, 0, 1, 2, 3];
    let res = proc.process_transaction(&tx, true);
    assert!(res.is_ok());
    assert_eq!(proc.get_account(&a).unwrap().lamports, 100);
    assert!(proc.get_account(&b).is_none());
    // The nonce was consumed.
    let mut tx2 = transfer_tx(a, b, 40, 1);
    tx2.instructions[0].data = vec![9u8, 0, 0, 0];
    let replay = proc.process_transaction(&tx2, true);
    assert_eq!(replay.unwrap_err(), TransactionError::ReplayedNonce);
}

#[test]
fn unrepresentable_credit_rejected_without_mutation() {
    let a = id(1);
    let b = id(2);
    let mut proc = processor_with(&[(a, 100), (b, u64::MAX)]);
    let res = proc.process_transaction(&transfer_tx(a, b, 1, 1), true);
    assert_eq!(res.unwrap_err(), TransactionError::MalformedInstruction);
    assert_eq!(proc.get_account(&a).unwrap().lamports, 100);
    assert_eq!(proc.get_account(&b).unwrap().lamports, u64::MAX);
}

#[test]
fn self_transfer_moves_nothing() {
    let a = id(1);
    let mut proc = processor_with(&[(a, 100)]);
    let res = proc.process_transaction(&transfer_tx(a, a, 50, 1), true);
    assert!(res.is_ok());
    assert_eq!(proc.get_account(&a).unwrap().lamports, 100);
}

#[test]
fn transfer_to_absent_recipient_creates_it() {
    let a = id(1);
    let b = id(9);
    let mut proc = processor_with(&[(a, 5)]);
    assert!(proc.process_transaction(&transfer_tx(a, b, 5, 1), true).is_ok());
    assert_eq!(proc.get_account(&a).unwrap().lamports, 0);
    let got = proc.get_account(&b).unwrap();
    assert_eq!(got.lamports, 5);
    assert_eq!(got.owner, AccountId::system_id());
    assert!(!got.executable);
}

#[test]
fn determinism_same_snapshot_same_outcome() {
    let a = id(1);
    let b = id(2);
    let tx = transfer_tx(a, b, 40, 1);
    let mut run1 = processor_with(&[(a, 100)]);
    let mut run2 = processor_with(&[(a, 100)]);
    let r1 = run1.process_transaction(&tx, true);
    let r2 = run2.process_transaction(&tx, true);
    assert_eq!(r1, r2);
    assert_eq!(
        run1.get_account(&a).unwrap().lamports,
        run2.get_account(&a).unwrap().lamports
    );
    assert_eq!(run1.get_state_root(), run2.get_state_root());
}

#[test]
fn conservation_across_accepted_transfer() {
    let a = id(1);
    let b = id(2);
    let mut proc = processor_with(&[(a, 70), (b, 30)]);
    assert!(proc.process_transaction(&transfer_tx(a, b, 25, 1), true).is_ok());
    let sum = proc.get_account(&a).unwrap().lamports + proc.get_account(&b).unwrap().lamports;
    assert_eq!(sum, 100);
}
