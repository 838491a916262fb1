//! Laws of the dollar token and its minter.

use crate::address::Address;
use crate::agusd_core::{AgUsdCore, AgUsdCoreError};
use crate::host::{Event, Fault, Invocation, Receipt, Rent, Trap};
use crate::token::held;
use vstd::prelude::*;

verus! {

/// Only the minter mints, signed, a positive amount, and exactly that amount,
/// to the one named.
pub proof fn the_minter_mints_what_it_says(
    c: AgUsdCore,
    after: AgUsdCore,
    inv: Invocation,
    to: Address,
    amount: i128,
    r: Result<Receipt<()>, Fault<AgUsdCoreError>>,
    other: Address,
)
    requires
        c.sound(),
        c.mint_step(after, inv, to, amount, r),
        other != to,
    ensures
        r is Ok <==> {
            &&& c.minter is Some && inv.signers@.contains(c.minter->0)
            &&& amount > 0
            &&& c.token.supply + amount <= i128::MAX
            &&& c.mints < u64::MAX
        },
        r is Ok ==> {
            &&& held(after.token.balances@, to) == held(c.token.balances@, to) + amount
            &&& after.token.supply == c.token.supply + amount
            &&& after.mints == c.mints + 1
            &&& r->Ok_0.effects.calls@.len() == 0
            &&& r->Ok_0.effects.events@ == seq![Event::Mint { to, amount }]
        },
        held(after.token.balances@, other) == held(c.token.balances@, other),
        after.role == c.role && after.minter == c.minter && after.token.allowances
            == c.token.allowances && after.token.metadata == c.token.metadata,
        r is Err ==> after == c,
        r == Err::<Receipt<()>, Fault<AgUsdCoreError>>(Fault::Error(AgUsdCoreError::InvalidAmount))
            ==> amount <= 0,
        r == Err::<Receipt<()>, Fault<AgUsdCoreError>>(Fault::Trap(Trap::Unauthorized))
            <==> c.minter is Some && !inv.signers@.contains(c.minter->0),
{
    c.token.supply_covers_every_balance(to);
}

/// The minter is set by the admin, and never again once anything was minted.
pub proof fn the_minter_is_set_before_the_first_mint(
    c: AgUsdCore,
    after: AgUsdCore,
    inv: Invocation,
    admin: Address,
    minter: Address,
    r: Result<Receipt<()>, Fault<AgUsdCoreError>>,
)
    requires
        c.set_minter_step(after, inv, admin, minter, r),
    ensures
        r is Ok <==> c.role.admin == Some(admin) && inv.signers@.contains(admin) && c.mints == 0,
        r is Ok ==> after.minter == Some(minter),
        after == (AgUsdCore { minter: after.minter, ..c }),
        r is Err ==> after == c,
        r == Err::<Receipt<()>, Fault<AgUsdCoreError>>(Fault::Error(AgUsdCoreError::MinterFrozen))
            ==> c.mints > 0,
{
}

/// The token is set up once, by the admin that signed; and its role changes
/// hands by an offer and an acceptance, each signed.
pub proof fn the_token_is_its_admins(
    c: AgUsdCore,
    after: AgUsdCore,
    inv: Invocation,
    admin: Address,
    next: Address,
    minter: Address,
    decimal: u32,
    name: String,
    symbol: String,
    r: Result<Receipt<()>, Fault<AgUsdCoreError>>,
)
    ensures
        c.initialize_step(after, inv, admin, minter, decimal, name, symbol, r) ==> {
            &&& r is Ok <==> c.minter is None && inv.signers@.contains(admin)
            &&& r is Ok ==> {
                &&& after.role.admin == Some(admin)
                &&& after.minter == Some(minter)
                &&& after.token.metadata is Some
                &&& after.token.metadata->0.decimal == decimal
                &&& after.token.metadata->0.name == name
                &&& after.token.metadata->0.symbol == symbol
                &&& after.token.supply == c.token.supply
                &&& after.token.balances == c.token.balances
                &&& after.mints == c.mints
            }
            &&& r is Err ==> after == c
        },
        c.propose_admin_step(after, inv, admin, next, r) ==> {
            &&& r is Ok <==> c.role.admin == Some(admin) && inv.signers@.contains(admin)
            &&& r is Ok ==> after.role.admin == c.role.admin && after.role.pending == Some(next)
            &&& after == (AgUsdCore { role: after.role, ..c })
            &&& r is Err ==> after == c
        },
        c.accept_admin_step(after, inv, next, r) ==> {
            &&& r is Ok <==> c.role.pending == Some(next) && inv.signers@.contains(next)
            &&& r is Ok ==> after.role.admin == Some(next) && after.role.pending is None
            &&& after == (AgUsdCore { role: after.role, ..c })
            &&& r is Err ==> after == c
        },
{
}

/// Every change is announced as it now is, and keeps the token alive.
pub proof fn a_change_is_announced(
    c: AgUsdCore,
    after: AgUsdCore,
    inv: Invocation,
    admin: Address,
    next: Address,
    amount: i128,
    d: Receipt<()>,
)
    ensures
        ({
            let r = Ok::<Receipt<()>, Fault<AgUsdCoreError>>(d);
            let quiet = d.effects.calls@.len() == 0 && d.effects.rent@ == seq![Rent::Instance];
            let events = d.effects.events@;
            &&& c.set_minter_step(after, inv, admin, next, r) ==> quiet && events.len() == 1 && (
            events[0] matches Event::MinterSet(e) && e.minter == next)
            &&& c.propose_admin_step(after, inv, admin, next, r) ==> quiet && events.len() == 1 && (
            events[0] matches Event::AgUsdCoreAdminProposed(e) && e.new_admin == next)
            &&& c.accept_admin_step(after, inv, next, r) ==> quiet && events.len() == 1 && (
            events[0] matches Event::AgUsdCoreAdminChanged(e) && e.admin == next)
            &&& c.mint_step(after, inv, next, amount, r) ==> d.effects.rent@ == seq![
                Rent::Instance,
                Rent::Balance { of: next },
            ]
        }),
{
}

/// Each refusal names what stands against it.
pub proof fn a_refusal_names_its_reason(
    c: AgUsdCore,
    inv: Invocation,
    admin: Address,
    next: Address,
    amount: i128,
)
    requires
        c.sound(),
    ensures
        c.mint_fault(inv, next, amount) matches Some(f) ==> match f {
            Fault::Error(AgUsdCoreError::NotInitialized) => c.minter is None,
            Fault::Trap(Trap::Unauthorized) => c.minter is Some
                && !inv.signers@.contains(c.minter->0),
            Fault::Error(AgUsdCoreError::InvalidAmount) => amount <= 0,
            Fault::Trap(Trap::Overflow) => c.token.supply + amount > i128::MAX
                || c.mints == u64::MAX,
            _ => false,
        },
        c.set_minter_fault(inv, admin) matches Some(f) ==> match f {
            Fault::Error(AgUsdCoreError::NotInitialized) => c.role.admin is None,
            Fault::Error(AgUsdCoreError::NotAdmin) => c.role.admin is Some
                && c.role.admin != Some(admin),
            Fault::Trap(Trap::Unauthorized) => c.role.admin == Some(admin)
                && !inv.signers@.contains(admin),
            Fault::Error(AgUsdCoreError::MinterFrozen) => c.mints > 0,
            _ => false,
        },
        c.initialize_fault(inv, admin) matches Some(f) ==> match f {
            Fault::Error(AgUsdCoreError::AlreadyInitialized) => c.minter is Some,
            Fault::Trap(Trap::Unauthorized) => !inv.signers@.contains(admin),
            _ => false,
        },
{
    c.token.supply_covers_every_balance(next);
}

/// A handover is refused for the reason named.
pub proof fn a_handover_is_refused_for_the_reason_named(
    c: AgUsdCore,
    after: AgUsdCore,
    inv: Invocation,
    admin: Address,
    next: Address,
    f: Fault<AgUsdCoreError>,
)
    ensures
        c.propose_admin_step(after, inv, admin, next, Err(f)) ==> match f {
            Fault::Error(AgUsdCoreError::NotInitialized) => c.role.admin is None,
            Fault::Error(AgUsdCoreError::NotAdmin) => c.role.admin is Some
                && c.role.admin != Some(admin),
            Fault::Trap(Trap::Unauthorized) => c.role.admin == Some(admin)
                && !inv.signers@.contains(admin),
            _ => false,
        },
        c.accept_admin_step(after, inv, next, Err(f)) ==> match f {
            Fault::Error(AgUsdCoreError::NoPendingAdmin) => c.role.pending is None,
            Fault::Error(AgUsdCoreError::NotPendingAdmin) => c.role.pending is Some
                && c.role.pending != Some(next),
            Fault::Trap(Trap::Unauthorized) => c.role.pending == Some(next)
                && !inv.signers@.contains(next),
            _ => false,
        },
{
}

} // verus!
