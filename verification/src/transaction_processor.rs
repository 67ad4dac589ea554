//! The transaction executor: a deterministic state-transition function over
//! the ledger store, with replay protection.
//!
//! `process_spec` is the transition the executable code is proved to follow:
//! given the abstract state (ledger and tracked nonces) and a submitted
//! transaction, it yields the next state and the receipt or rejection. The
//! laws of the executor — determinism, conservation, atomicity of rejection,
//! replay rejection — are proved of this function, and `process_transaction`
//! is proved to compute exactly it.

use vstd::prelude::*;

use crate::account::{AccountId, AccountView, L2Account, default_account_view};
use crate::assoc::{find_index, keys_unique, lemma_map_of_contains, lemma_map_of_index, map_of,
    set_entry};
use crate::commitment::commitment_of;
use crate::state_manager::{StateManager, state_root_bytes};
use crate::transaction::{L2Transaction, L2TransactionView, RawTransaction, RawTransactionView,
    TransactionError, convert_to_l2_transaction, decode_transaction};

verus! {

/// The abstract state the executor steps: the ledger's content and the last
/// consumed sequence number of every sender.
pub ghost struct ProcessorState {
    pub ledger: Map<AccountId, AccountView>,
    pub nonces: Map<AccountId, u64>,
}

/// One step's outcome: the state after it, and the receipt (the
/// transaction's signature identifier) or the rejection.
pub ghost struct StepOutcome {
    pub state: ProcessorState,
    pub receipt: Result<Seq<u8>, TransactionError>,
}

/// The last sequence number consumed by a sender; zero before its first
/// accepted transaction.
pub open spec fn nonce_of(nonces: Map<AccountId, u64>, id: AccountId) -> u64 {
    if nonces.contains_key(id) {
        nonces[id]
    } else {
        0
    }
}

/// The record an identifier holds, defaulting an absent identifier to the
/// implicit zero-balance account.
pub open spec fn account_or_default(ledger: Map<AccountId, AccountView>, id: AccountId) -> AccountView {
    if ledger.contains_key(id) {
        ledger[id]
    } else {
        default_account_view()
    }
}

/// The ledger after a transfer of `amount` from `from` to `to`, or the error
/// rejecting it. The sender must cover the amount; a credit that no balance
/// can hold is rejected; a self-transfer moves nothing. A rejection returns
/// no ledger: neither account changes.
pub open spec fn transfer_result(
    ledger: Map<AccountId, AccountView>,
    from: AccountId,
    to: AccountId,
    amount: u64,
) -> Result<Map<AccountId, AccountView>, TransactionError> {
    let sender = account_or_default(ledger, from);
    if sender.lamports < amount {
        Err(TransactionError::InsufficientFunds)
    } else if from == to {
        Ok(ledger.insert(from, sender))
    } else {
        let recipient = account_or_default(ledger, to);
        if recipient.lamports + amount > u64::MAX {
            Err(TransactionError::MalformedInstruction)
        } else {
            Ok(
                ledger.insert(
                    from,
                    AccountView { lamports: (sender.lamports - amount) as u64, ..sender },
                ).insert(
                    to,
                    AccountView { lamports: (recipient.lamports + amount) as u64, ..recipient },
                ),
            )
        }
    }
}

/// Executes a decoded transaction: the declared nonce must be exactly one
/// past the sender's tracked nonce; a transfer then moves balance, any other
/// payload moves none; an accepted transaction consumes the nonce and yields
/// its signature as the receipt. Every rejection leaves the state untouched.
pub open spec fn execute_decoded(s: ProcessorState, tx: L2TransactionView) -> StepOutcome {
    let last_nonce = nonce_of(s.nonces, tx.from);
    if tx.nonce != last_nonce + 1 {
        StepOutcome { state: s, receipt: Err(TransactionError::ReplayedNonce) }
    } else {
        match tx.to {
            None => StepOutcome {
                state: ProcessorState {
                    ledger: s.ledger,
                    nonces: s.nonces.insert(tx.from, tx.nonce),
                },
                receipt: Ok(tx.signature),
            },
            Some(to) => match transfer_result(s.ledger, tx.from, to, tx.lamports) {
                Err(e) => StepOutcome { state: s, receipt: Err(e) },
                Ok(moved) => StepOutcome {
                    state: ProcessorState {
                        ledger: moved,
                        nonces: s.nonces.insert(tx.from, tx.nonce),
                    },
                    receipt: Ok(tx.signature),
                },
            },
        }
    }
}

/// The full transition for a submitted transaction: signature verification
/// first, then decoding, then execution.
pub open spec fn process_spec(
    s: ProcessorState,
    raw: RawTransactionView,
    sig_verified: bool,
) -> StepOutcome {
    if !sig_verified {
        StepOutcome { state: s, receipt: Err(TransactionError::InvalidSignature) }
    } else {
        match decode_transaction(raw) {
            Err(e) => StepOutcome { state: s, receipt: Err(e) },
            Ok(tx) => execute_decoded(s, tx),
        }
    }
}

pub struct TransactionProcessor {
    state_manager: StateManager,
    nonce_tracker: Vec<(AccountId, u64)>,
}

impl TransactionProcessor {
    /// The abstract state this processor holds.
    pub closed spec fn model(self) -> ProcessorState {
        ProcessorState {
            ledger: self.state_manager.ledger_map(),
            nonces: map_of(self.nonce_tracker@),
        }
    }

    pub closed spec fn wf(self) -> bool {
        &&& self.state_manager.wf()
        &&& keys_unique(self.nonce_tracker@)
    }

    /// Wraps a ledger store; no sender has consumed a nonce yet.
    pub fn new(state_manager: StateManager) -> (r: TransactionProcessor)
        requires
            state_manager.wf(),
        ensures
            r.wf(),
            r.model().ledger == state_manager.ledger_map(),
            r.model().nonces == Map::<AccountId, u64>::empty(),
    {
        TransactionProcessor { state_manager, nonce_tracker: Vec::new() }
    }

    /// Moves `amount` from `from` to `to`, defaulting absent accounts to zero
    /// balance, atomically: on any rejection neither account has changed.
    fn transfer_lamports(&mut self, from: &AccountId, to: &AccountId, amount: u64) -> (r: Result<
        (),
        TransactionError,
    >)
        requires
            old(self).wf(),
        ensures
            final(self).wf(),
            final(self).nonce_tracker@ == old(self).nonce_tracker@,
            match r {
                Ok(()) => transfer_result(old(self).model().ledger, *from, *to, amount) == Ok::<
                    Map<AccountId, AccountView>,
                    TransactionError,
                >(final(self).model().ledger),
                Err(e) => transfer_result(old(self).model().ledger, *from, *to, amount) == Err::<
                    Map<AccountId, AccountView>,
                    TransactionError,
                >(e) && final(self).model().ledger == old(self).model().ledger,
            },
    {
        let sender = match self.state_manager.get_account(from) {
            Some(a) => a,
            None => L2Account::zeroed(),
        };
        if sender.lamports < amount {
            return Err(TransactionError::InsufficientFunds);
        }
        if from == to {
            self.state_manager.update_account(from, sender);
            return Ok(());
        }
        let recipient = match self.state_manager.get_account(to) {
            Some(a) => a,
            None => L2Account::zeroed(),
        };
        if recipient.lamports > u64::MAX - amount {
            return Err(TransactionError::MalformedInstruction);
        }
        let mut debited = sender;
        debited.lamports = debited.lamports - amount;
        let mut credited = recipient;
        credited.lamports = credited.lamports + amount;
        self.state_manager.update_account(from, debited);
        self.state_manager.update_account(to, credited);
        Ok(())
    }

    /// Validates and applies one submitted transaction, computing exactly
    /// `process_spec` over the abstract state: the receipt on acceptance, the
    /// error of the taxonomy on rejection, and no mutation on any rejection.
    /// `sig_verified` is the front end's verdict on whether the signature
    /// covers the declared message bytes for the declared sender.
    pub fn process_transaction(&mut self, tx: &RawTransaction, sig_verified: bool) -> (r: Result<
        Vec<u8>,
        TransactionError,
    >)
        requires
            old(self).wf(),
        ensures
            final(self).wf(),
            final(self).model() == process_spec(old(self).model(), tx@, sig_verified).state,
            match r {
                Ok(sig) => process_spec(old(self).model(), tx@, sig_verified).receipt == Ok::<
                    Seq<u8>,
                    TransactionError,
                >(sig@),
                Err(e) => process_spec(old(self).model(), tx@, sig_verified).receipt == Err::<
                    Seq<u8>,
                    TransactionError,
                >(e),
            },
    {
        if !sig_verified {
            return Err(TransactionError::InvalidSignature);
        }
        let l2 = match convert_to_l2_transaction(tx) {
            Ok(t) => t,
            Err(e) => return Err(e),
        };
        let last_nonce: u64 = match find_index(&self.nonce_tracker, &l2.from) {
            Some(i) => {
                proof {
                    lemma_map_of_index(self.nonce_tracker@, i as int);
                }
                self.nonce_tracker[i].1
            },
            None => {
                proof {
                    lemma_map_of_contains(self.nonce_tracker@, l2.from);
                }
                0
            },
        };
        proof {
            assert(last_nonce == nonce_of(old(self).model().nonces, l2.from));
        }
        if last_nonce == u64::MAX {
            return Err(TransactionError::ReplayedNonce);
        }
        if l2.nonce != last_nonce + 1 {
            return Err(TransactionError::ReplayedNonce);
        }
        match l2.to {
            Some(to) => {
                match self.transfer_lamports(&l2.from, &to, l2.lamports) {
                    Ok(()) => {},
                    Err(e) => {
                        return Err(e);
                    },
                }
            },
            None => {},
        }
        set_entry(&mut self.nonce_tracker, l2.from, l2.nonce);
        Ok(l2.signature)
    }

    /// Read-through account lookup, for callers serving reads.
    pub fn get_account(&mut self, id: &AccountId) -> (r: Option<L2Account>)
        requires
            old(self).wf(),
        ensures
            final(self).wf(),
            final(self).model() == old(self).model(),
            match r {
                Some(a) => old(self).model().ledger.contains_key(*id) && a@ == old(
                    self,
                ).model().ledger[*id],
                None => !old(self).model().ledger.contains_key(*id),
            },
    {
        self.state_manager.get_account(id)
    }

    /// The state root over the ledger as of the last successful update.
    pub fn get_state_root(&self) -> (r: Vec<u8>)
        requires
            self.wf(),
        ensures
            r@ == state_root_bytes(commitment_of(self.model().ledger)),
    {
        self.state_manager.get_state_root()
    }
}

/// Determinism: the transition is a function of the starting state and the
/// transaction alone — two runs from the same snapshot give the same state
/// and the same receipt.
pub proof fn lemma_process_deterministic(
    s1: ProcessorState,
    s2: ProcessorState,
    raw: RawTransactionView,
    sig_verified: bool,
)
    requires
        s1 == s2,
    ensures
        process_spec(s1, raw, sig_verified) == process_spec(s2, raw, sig_verified),
{
}

/// Conservation: an accepted transfer leaves the sender's and the
/// recipient's balances with the same sum they had before.
pub proof fn lemma_transfer_conserves(s: ProcessorState, tx: L2TransactionView)
    requires
        tx.to is Some,
        execute_decoded(s, tx).receipt is Ok,
    ensures
        account_or_default(execute_decoded(s, tx).state.ledger, tx.from).lamports
            + account_or_default(execute_decoded(s, tx).state.ledger, tx.to->Some_0).lamports
            == account_or_default(s.ledger, tx.from).lamports + account_or_default(
            s.ledger,
            tx.to->Some_0,
        ).lamports,
{
}

/// Atomicity: a rejected transaction — `InsufficientFunds` in particular —
/// leaves the ledger and every tracked nonce exactly as they were.
pub proof fn lemma_rejection_atomic(
    s: ProcessorState,
    raw: RawTransactionView,
    sig_verified: bool,
)
    requires
        process_spec(s, raw, sig_verified).receipt is Err,
    ensures
        process_spec(s, raw, sig_verified).state == s,
{
}

/// Replay rejection: once a sender's transaction is accepted, any further
/// transaction from that sender declaring the same nonce is rejected with
/// `ReplayedNonce` and mutates nothing.
pub proof fn lemma_replay_rejected(
    s: ProcessorState,
    tx1: L2TransactionView,
    tx2: L2TransactionView,
)
    requires
        execute_decoded(s, tx1).receipt is Ok,
        tx2.from == tx1.from,
        tx2.nonce == tx1.nonce,
    ensures
        execute_decoded(execute_decoded(s, tx1).state, tx2).receipt == Err::<
            Seq<u8>,
            TransactionError,
        >(TransactionError::ReplayedNonce),
        execute_decoded(execute_decoded(s, tx1).state, tx2).state == execute_decoded(s, tx1).state,
{
}

/// Tracked nonces never move backwards: whatever a step does, every
/// sender's last consumed sequence number is non-decreasing.
pub proof fn lemma_nonce_monotone(s: ProcessorState, tx: L2TransactionView, who: AccountId)
    ensures
        nonce_of(execute_decoded(s, tx).state.nonces, who) >= nonce_of(s.nonces, who),
{
}

/// A transaction from one sender never moves another sender's tracked nonce,
/// so replay rejection holds regardless of how other senders' transactions
/// interleave.
pub proof fn lemma_nonce_isolated(s: ProcessorState, tx: L2TransactionView, other: AccountId)
    requires
        tx.from != other,
    ensures
        nonce_of(execute_decoded(s, tx).state.nonces, other) == nonce_of(
            s.nonces,
            other,
        ),
{
}

} // verus!
