//! Transactions: the wire-shaped form a caller submits, the canonical domain
//! form the executor interprets, and the error taxonomy.

use vstd::prelude::*;

use crate::account::{AccountId, copy_bytes};
use crate::codec::{u32_from_le, u64_from_le, read_u32_le, read_u64_le};

verus! {

/// Why a transaction was rejected. Every rejection carries exactly one of
/// these; a rejected transaction never mutates the ledger or the nonce
/// tracker.
#[derive(Clone, Copy, PartialEq, Eq, Structural, Debug)]
pub enum TransactionError {
    /// The signature does not cover the declared message bytes for the
    /// declared sender.
    InvalidSignature,
    /// The payload is decodable but semantically invalid: a missing signature
    /// or fee payer, a truncated transfer, a recipient index out of range, or
    /// a credit no balance can hold.
    MalformedInstruction,
    /// The declared nonce is not exactly one past the sender's tracked nonce.
    ReplayedNonce,
    /// The sender's balance does not cover the transfer amount.
    InsufficientFunds,
}

/// One compiled instruction of a submitted transaction: an index into the
/// account list naming the program, the indices of the accounts it touches,
/// and its payload bytes.
pub struct InstructionInfo {
    pub program_id_index: u8,
    pub accounts: Vec<u8>,
    pub data: Vec<u8>,
}

pub ghost struct InstructionView {
    pub program_id_index: u8,
    pub accounts: Seq<u8>,
    pub data: Seq<u8>,
}

impl View for InstructionInfo {
    type V = InstructionView;

    open spec fn view(&self) -> InstructionView {
        InstructionView {
            program_id_index: self.program_id_index,
            accounts: self.accounts@,
            data: self.data@,
        }
    }
}

/// A submitted transaction, as plain values: its signatures, the accounts
/// its message names (fee payer first), its instructions, and its declared
/// sequence number.
pub struct RawTransaction {
    pub signatures: Vec<Vec<u8>>,
    pub account_keys: Vec<AccountId>,
    pub instructions: Vec<InstructionInfo>,
    pub nonce: u64,
}

pub ghost struct RawTransactionView {
    pub signatures: Seq<Seq<u8>>,
    pub account_keys: Seq<AccountId>,
    pub instructions: Seq<InstructionView>,
    pub nonce: u64,
}

impl View for RawTransaction {
    type V = RawTransactionView;

    open spec fn view(&self) -> RawTransactionView {
        RawTransactionView {
            signatures: self.signatures@.map_values(|s: Vec<u8>| s@),
            account_keys: self.account_keys@,
            instructions: self.instructions@.map_values(|i: InstructionInfo| i@),
            nonce: self.nonce,
        }
    }
}

/// The canonical domain form of a transaction: sender, optional recipient,
/// transfer amount, opaque payload, declared nonce, and the signature
/// identifying it.
pub struct L2Transaction {
    pub signature: Vec<u8>,
    pub from: AccountId,
    pub to: Option<AccountId>,
    pub lamports: u64,
    pub instruction_data: Vec<u8>,
    pub nonce: u64,
}

pub ghost struct L2TransactionView {
    pub signature: Seq<u8>,
    pub from: AccountId,
    pub to: Option<AccountId>,
    pub lamports: u64,
    pub instruction_data: Seq<u8>,
    pub nonce: u64,
}

impl View for L2Transaction {
    type V = L2TransactionView;

    open spec fn view(&self) -> L2TransactionView {
        L2TransactionView {
            signature: self.signature@,
            from: self.from,
            to: self.to,
            lamports: self.lamports,
            instruction_data: self.instruction_data@,
            nonce: self.nonce,
        }
    }
}

/// The instruction tag of a balance transfer in the system program's payload
/// encoding.
pub const TRANSFER_TAG: u32 = 2;

/// Whether the first instruction is shaped like a system-program transfer:
/// addressed to the program at index zero, with a payload long enough to
/// carry the transfer tag.
pub open spec fn is_transfer_shape(raw: RawTransactionView) -> bool {
    &&& raw.instructions.len() > 0
    &&& raw.instructions[0].program_id_index == 0
    &&& raw.instructions[0].data.len() >= 4
    &&& u32_from_le(raw.instructions[0].data.subrange(0, 4)) == TRANSFER_TAG
}

/// The canonical form a submitted transaction decodes to, or the error that
/// rejects it. A transfer-shaped instruction must carry an amount and name a
/// recipient inside the account list; any other payload is accepted opaquely
/// and moves no balance.
pub open spec fn decode_transaction(raw: RawTransactionView) -> Result<
    L2TransactionView,
    TransactionError,
> {
    if raw.signatures.len() == 0 || raw.account_keys.len() == 0 {
        Err(TransactionError::MalformedInstruction)
    } else {
        let sig = raw.signatures[0];
        let payer = raw.account_keys[0];
        if is_transfer_shape(raw) {
            let ins = raw.instructions[0];
            if ins.data.len() < 12 {
                Err(TransactionError::MalformedInstruction)
            } else {
                let amount = u64_from_le(ins.data.subrange(4, 12));
                if ins.accounts.len() > 1 {
                    if ins.accounts[1] as int >= raw.account_keys.len() {
                        Err(TransactionError::MalformedInstruction)
                    } else {
                        Ok(
                            L2TransactionView {
                                signature: sig,
                                from: payer,
                                to: Some(raw.account_keys[ins.accounts[1] as int]),
                                lamports: amount,
                                instruction_data: ins.data,
                                nonce: raw.nonce,
                            },
                        )
                    }
                } else {
                    Ok(
                        L2TransactionView {
                            signature: sig,
                            from: payer,
                            to: None,
                            lamports: amount,
                            instruction_data: ins.data,
                            nonce: raw.nonce,
                        },
                    )
                }
            }
        } else {
            Ok(
                L2TransactionView {
                    signature: sig,
                    from: payer,
                    to: None,
                    lamports: 0,
                    instruction_data: Seq::empty(),
                    nonce: raw.nonce,
                },
            )
        }
    }
}

/// Decodes a submitted transaction into its canonical domain form.
pub fn convert_to_l2_transaction(raw: &RawTransaction) -> (r: Result<
    L2Transaction,
    TransactionError,
>)
    ensures
        match r {
            Ok(tx) => decode_transaction(raw@) == Ok::<L2TransactionView, TransactionError>(tx@),
            Err(e) => decode_transaction(raw@) == Err::<L2TransactionView, TransactionError>(e),
        },
{
    if raw.signatures.len() == 0 || raw.account_keys.len() == 0 {
        return Err(TransactionError::MalformedInstruction);
    }
    let sig = copy_bytes(&raw.signatures[0]);
    let payer = raw.account_keys[0];
    proof {
        assert(raw@.signatures[0] == raw.signatures@[0]@);
    }
    let transfer_shaped: bool = if raw.instructions.len() > 0 {
        let ins = &raw.instructions[0];
        if ins.program_id_index == 0 && ins.data.len() >= 4 {
            read_u32_le(&ins.data, 0) == TRANSFER_TAG
        } else {
            false
        }
    } else {
        false
    };
    proof {
        assert(raw.instructions@.len() > 0 ==> raw@.instructions[0] == raw.instructions@[0]@);
        assert(transfer_shaped == is_transfer_shape(raw@));
    }
    if transfer_shaped {
        let ins = &raw.instructions[0];
        if ins.data.len() < 12 {
            return Err(TransactionError::MalformedInstruction);
        }
        let amount = read_u64_le(&ins.data, 4);
        if ins.accounts.len() > 1 {
            let idx = ins.accounts[1] as usize;
            if idx >= raw.account_keys.len() {
                return Err(TransactionError::MalformedInstruction);
            }
            let tx = L2Transaction {
                signature: sig,
                from: payer,
                to: Some(raw.account_keys[idx]),
                lamports: amount,
                instruction_data: copy_bytes(&ins.data),
                nonce: raw.nonce,
            };
            proof {
                assert(decode_transaction(raw@) == Ok::<L2TransactionView, TransactionError>(tx@));
            }
            Ok(tx)
        } else {
            let tx = L2Transaction {
                signature: sig,
                from: payer,
                to: None,
                lamports: amount,
                instruction_data: copy_bytes(&ins.data),
                nonce: raw.nonce,
            };
            proof {
                assert(decode_transaction(raw@) == Ok::<L2TransactionView, TransactionError>(tx@));
            }
            Ok(tx)
        }
    } else {
        let tx = L2Transaction {
            signature: sig,
            from: payer,
            to: None,
            lamports: 0,
            instruction_data: Vec::new(),
            nonce: raw.nonce,
        };
        proof {
            assert(decode_transaction(raw@) == Ok::<L2TransactionView, TransactionError>(tx@));
        }
        Ok(tx)
    }
}

} // verus!
