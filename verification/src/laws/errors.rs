//! Laws of the numbers that errors are known by.

use crate::agusd::AgUsdError;
use crate::agusd_core::AgUsdCoreError;
use crate::engine::EngineError;
use crate::etherfuse;
use crate::oracle::OracleError;
use crate::private_credit;
use crate::staking::StakingError;
use crate::token::TokenError;
use crate::vault::VaultError;
use vstd::prelude::*;

verus! {

/// A number tells the error: no contract gives one number to two errors.
pub proof fn a_number_tells_the_error(
    t: (TokenError, TokenError),
    c: (AgUsdCoreError, AgUsdCoreError),
    v: (VaultError, VaultError),
    e: (EngineError, EngineError),
    o: (OracleError, OracleError),
    p: (private_credit::AdapterError, private_credit::AdapterError),
    b: (etherfuse::AdapterError, etherfuse::AdapterError),
    s: (StakingError, StakingError),
)
    ensures
        t.0.number() == t.1.number() ==> t.0 == t.1,
        c.0.number() == c.1.number() ==> c.0 == c.1,
        v.0.number() == v.1.number() ==> v.0 == v.1,
        e.0.number() == e.1.number() ==> e.0 == e.1,
        o.0.number() == o.1.number() ==> o.0 == o.1,
        p.0.number() == p.1.number() ==> p.0 == p.1,
        b.0.number() == b.1.number() ==> b.0 == b.1,
        s.0.number() == s.1.number() ==> s.0 == s.1,
{
}

/// A number tells the contract: each has a hundred of its own, and the token
/// underneath the numbers below them.
pub proof fn a_number_tells_the_contract(
    t: TokenError,
    a: AgUsdError,
    c: AgUsdCoreError,
    v: VaultError,
    e: EngineError,
    o: OracleError,
    p: private_credit::AdapterError,
    b: etherfuse::AdapterError,
    s: StakingError,
)
    ensures
        0 < t.number() < 100,
        100 <= a.number() < 200,
        200 <= c.number() < 300,
        300 <= v.number() < 400,
        400 <= e.number() < 500,
        500 <= o.number() < 600,
        600 <= p.number() < 700,
        700 <= b.number() < 800,
        800 <= s.number() < 900,
{
}

} // verus!
