//! The Agama dollar protocol as verified state machines.
//!
//! Every contract of the protocol is a plain Rust value that holds the
//! contract's storage, with one method per entry point. A method receives
//! what the ledger observed (who signed, the clock, what other contracts
//! answered), decides, and returns the new state together with the
//! [`host::Effects`] the ledger still has to carry out: calls into other
//! contracts, events, and storage rent.
//!
//! Two proofs run through the whole library. The contract of every entry
//! point says exactly when it succeeds, which refusal is given otherwise, and
//! that a refusal changes nothing. The laws that span entry points and
//! contracts are public proof functions beside them, and [`laws`] says of each
//! entry point what it is for, in amounts, balances, clocks and signatures.

use vstd::prelude::*;

pub mod address;
pub mod agusd;
pub mod agusd_core;
pub mod engine;
pub mod etherfuse;
pub mod host;
pub mod hostile;
pub mod laws;
pub mod math;
pub mod mock_usdc;
pub mod oracle;
pub mod private_credit;
pub mod role;
pub mod staking;
pub mod system;
pub mod table;
pub mod token;
pub mod vault;

verus! {

} // verus!
