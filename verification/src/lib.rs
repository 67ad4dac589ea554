//! Off-chain execution core of a rollup validator: an authoritative ledger of
//! accounts with an order-independent state commitment, a deterministic
//! transaction validator/executor with replay protection, and a FIFO
//! sequencer that orders accepted transactions into bounded batches for
//! settlement.

pub mod account;
pub mod assoc;
pub mod codec;
pub mod commitment;
pub mod sequencer;
pub mod state_manager;
pub mod transaction;
pub mod transaction_processor;
