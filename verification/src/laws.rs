//! What the protocol's operations are for, said apart from how they work.
//!
//! Each law relates what goes into an operation to what comes out of it, in
//! amounts, balances, clocks and signatures, and says both ways when an
//! operation is granted.

pub mod agusd;
pub mod agusd_core;
pub mod engine;
pub mod errors;
pub mod etherfuse;
pub mod host;
pub mod math;
pub mod mock_usdc;
pub mod oracle;
pub mod private_credit;
pub mod role;
pub mod staking;
pub mod token;
pub mod vault;
