//! Laws of the test dollar.

use crate::address::Address;
use crate::host::{Invocation, Receipt, Trap};
use crate::mock_usdc::MockUsdc;
use crate::token::held;
use vstd::prelude::*;

verus! {

/// The faucet gives anyone what they ask for, up to a hundred thousand whole
/// units at a time, and the admin mints any amount that is not negative.
pub proof fn the_faucet_is_capped_and_the_admin_is_not(
    m: MockUsdc,
    after: MockUsdc,
    inv: Invocation,
    to: Address,
    amount: i128,
    r: Result<Receipt<()>, Trap>,
    other: Address,
)
    requires
        m.sound(),
        other != to,
    ensures
        m.faucet_step(after, to, amount, r) ==> (r is Ok <==> 0 < amount <= 1_000_000_000_000
            && m.token.supply + amount <= i128::MAX),
        m.mint_step(after, inv, to, amount, r) ==> (r is Ok <==> m.admin is Some
            && inv.signers@.contains(m.admin->0) && 0 <= amount && m.token.supply + amount
            <= i128::MAX),
        m.faucet_step(after, to, amount, r) || m.mint_step(after, inv, to, amount, r) ==> {
            &&& r is Ok ==> held(after.token.balances@, to) == held(m.token.balances@, to) + amount
                && after.token.supply == m.token.supply + amount
            &&& held(after.token.balances@, other) == held(m.token.balances@, other)
            &&& after.admin == m.admin
            &&& r is Err ==> after.token == m.token
        },
{
    m.token.supply_covers_every_balance(to);
}

} // verus!
