//! Laws of the adapter of tokenised bonds.

use crate::address::Address;
use crate::etherfuse::{AdapterError, EtherfuseAdapter};
use crate::host::{Call, Event, Fault, InvokeError, Invocation, Receipt, Rent, Trap};
use crate::math::fits;
use vstd::prelude::*;

verus! {

/// An adapter moves its book only at its engine's signature, and its
/// settings only at its admin's.
pub proof fn etherfuse_calls_are_the_engines_and_the_admins(
    x: EtherfuseAdapter,
    inv: Invocation,
    admin: Address,
)
    ensures
        x.engine_fault(inv) is None <==> x.engine is Some && inv.signers@.contains(x.engine->0),
        x.admin_fault(inv, admin) is None <==> x.role.admin == Some(admin)
            && inv.signers@.contains(admin),
        x.funded(x.exposure as int),
        !x.funded(x.exposure - 1),
{
}

/// What is allocated to an adapter is booked as exposed, exactly, and
/// nothing is paid out.
pub proof fn etherfuse_books_what_is_allocated(
    x: EtherfuseAdapter,
    after: EtherfuseAdapter,
    inv: Invocation,
    amount: i128,
    r: Result<Receipt<()>, Fault<AdapterError>>,
)
    requires
        x.allocate_step(after, inv, amount, r),
    ensures
        r is Ok <==> x.engine is Some && inv.signers@.contains(x.engine->0) && amount > 0
            && x.exposure + amount <= i128::MAX,
        r is Ok ==> after.exposure == x.exposure + amount && r->Ok_0.effects.calls@.len() == 0,
        after == (EtherfuseAdapter { exposure: after.exposure, ..x }),
        r is Err ==> after == x,
{
}

/// What an adapter pays back goes to its vault, exactly, comes off
/// what is exposed, and is never more than that.
pub proof fn etherfuse_pays_back_to_its_vault(
    x: EtherfuseAdapter,
    after: EtherfuseAdapter,
    inv: Invocation,
    amount: i128,
    r: Result<Receipt<()>, Fault<AdapterError>>,
)
    requires
        x.deallocate_step(after, inv, amount, r),
    ensures
        r is Ok <==> x.engine is Some && inv.signers@.contains(x.engine->0) && 0 < amount
            <= x.exposure && x.usdc is Some && x.vault is Some,
        r is Ok ==> {
            &&& after.exposure == x.exposure - amount
            &&& r->Ok_0.effects.calls@ == seq![
                Call::Transfer {
                    token: x.usdc->0,
                    from: inv.contract,
                    to: x.vault->0,
                    amount,
                },
            ]
        },
        after == (EtherfuseAdapter { exposure: after.exposure, ..x }),
        r is Err ==> after == x,
{
}

/// What is written down at an adapter comes off what is exposed,
/// exactly, and nothing is paid out.
pub proof fn etherfuse_writes_down_what_is_lost(
    x: EtherfuseAdapter,
    after: EtherfuseAdapter,
    inv: Invocation,
    amount: i128,
    r: Result<Receipt<()>, Fault<AdapterError>>,
)
    requires
        x.write_down_step(after, inv, amount, r),
    ensures
        r is Ok <==> x.engine is Some && inv.signers@.contains(x.engine->0) && 0 < amount
            <= x.exposure,
        r is Ok ==> {
            &&& after.exposure == x.exposure - amount
            &&& r->Ok_0.effects.calls@.len() == 0
            &&& r->Ok_0.effects.events@.len() == 1
            &&& r->Ok_0.effects.events@[0] matches Event::EtherfuseWrittenDown(e)
            && e.amount == amount
                && e.exposure == after.exposure
        },
        after == (EtherfuseAdapter { exposure: after.exposure, ..x }),
        r is Err ==> after == x,
{
}

/// What an adapter holds beyond what is exposed is its surplus; all
/// of it goes to the vault, at the signature of the engine or the admin.
pub proof fn etherfuse_sweeps_all_its_surplus(
    x: EtherfuseAdapter,
    inv: Invocation,
    caller: Address,
    balance: Result<i128, InvokeError>,
    r: Result<Receipt<i128>, Fault<AdapterError>>,
)
    requires
        x.recover_surplus_step(inv, caller, balance, r),
    ensures
        r is Ok <==> {
            &&& x.engine is Some && x.role.admin is Some
            &&& caller == x.engine->0 || caller == x.role.admin->0
            &&& inv.signers@.contains(caller)
            &&& x.usdc is Some && x.vault is Some
            &&& balance is Ok && balance->Ok_0 > x.exposure && fits(balance->Ok_0 - x.exposure)
        },
        r is Ok ==> {
            &&& r->Ok_0.value == balance->Ok_0 - x.exposure
            &&& r->Ok_0.value > 0
            &&& r->Ok_0.effects.calls@ == seq![
                Call::Transfer {
                    token: x.usdc->0,
                    from: inv.contract,
                    to: x.vault->0,
                    amount: r->Ok_0.value,
                },
            ]
            &&& r->Ok_0.effects.events@.len() == 1
            &&& r->Ok_0.effects.events@[0] matches Event::EtherfuseSurplusRecovered(e) && e.vault
                == x.vault->0 && e.amount == r->Ok_0.value
        },
{
}

/// An adapter is repointed by its admin while nothing is exposed and
/// nothing is held, at an engine that serves the vault.
pub proof fn etherfuse_is_repointed_when_empty(
    x: EtherfuseAdapter,
    after: EtherfuseAdapter,
    inv: Invocation,
    admin: Address,
    engine: Address,
    vault: Address,
    balance: Result<i128, InvokeError>,
    governed: Result<Address, InvokeError>,
    r: Result<Receipt<()>, Fault<AdapterError>>,
)
    requires
        x.set_counterparties_step(after, inv, admin, engine, vault, balance, governed, r),
    ensures
        r is Ok <==> {
            &&& x.role.admin == Some(admin) && inv.signers@.contains(admin)
            &&& x.exposure == 0
            &&& x.usdc is Some
            &&& balance is Ok && balance->Ok_0 == 0
            &&& governed is Ok && governed->Ok_0 == vault
        },
        r is Ok ==> after.engine == Some(engine) && after.vault == Some(vault),
        after == (EtherfuseAdapter { engine: after.engine, vault: after.vault, ..x }),
        r is Err ==> after == x,
{
}

/// The role of an adapter changes hands by an offer the admin signed
/// and an acceptance the one it was offered to signed.
pub proof fn etherfuse_changes_hands(
    x: EtherfuseAdapter,
    after: EtherfuseAdapter,
    inv: Invocation,
    admin: Address,
    next: Address,
    r: Result<Receipt<()>, Fault<AdapterError>>,
)
    ensures
        x.propose_admin_step(after, inv, admin, next, r) ==> {
            &&& r is Ok <==> x.role.admin == Some(admin) && inv.signers@.contains(admin)
            &&& r is Ok ==> after.role.admin == x.role.admin && after.role.pending == Some(next)
            &&& after == (EtherfuseAdapter { role: after.role, ..x })
            &&& r is Err ==> after == x
        },
        x.accept_admin_step(after, inv, next, r) ==> {
            &&& r is Ok <==> x.role.pending == Some(next) && inv.signers@.contains(next)
            &&& r is Ok ==> after.role.admin == Some(next) && after.role.pending is None
            &&& after == (EtherfuseAdapter { role: after.role, ..x })
            &&& r is Err ==> after == x
        },
{
}

/// Each refusal of an adapter names what stands against it.
pub proof fn etherfuse_refuses_for_the_reason_named(
    x: EtherfuseAdapter,
    inv: Invocation,
    admin: Address,
    vault: Address,
    amount: i128,
    balance: Result<i128, InvokeError>,
    governed: Result<Address, InvokeError>,
)
    ensures
        x.allocate_fault(inv, amount) matches Some(f) ==> match f {
            Fault::Error(AdapterError::NotInitialized) => x.engine is None,
            Fault::Trap(Trap::Unauthorized) => x.engine is Some
                && !inv.signers@.contains(x.engine->0),
            Fault::Error(AdapterError::InvalidAmount) => amount <= 0,
            Fault::Trap(Trap::Overflow) => !fits(x.exposure + amount),
            _ => false,
        },
        x.deallocate_fault(inv, amount) matches Some(f) ==> match f {
            Fault::Error(AdapterError::NotInitialized) => (x.engine is None)
                || (x.usdc is None || x.vault is None),
            Fault::Trap(Trap::Unauthorized) => x.engine is Some
                && !inv.signers@.contains(x.engine->0),
            Fault::Error(AdapterError::InvalidAmount) => amount <= 0,
            Fault::Error(AdapterError::ExposureUnderflow) => amount > x.exposure,
            _ => false,
        },
        x.write_down_fault(inv, amount) matches Some(f) ==> match f {
            Fault::Error(AdapterError::NotInitialized) => x.engine is None,
            Fault::Trap(Trap::Unauthorized) => x.engine is Some
                && !inv.signers@.contains(x.engine->0),
            Fault::Error(AdapterError::InvalidAmount) => amount <= 0,
            Fault::Error(AdapterError::WriteDownExceedsExposure) => amount > x.exposure,
            _ => false,
        },
        x.recover_surplus_fault(inv, admin, balance) matches Some(f) ==> match f {
            Fault::Error(AdapterError::NotInitialized) => x.engine is None
                || x.role.admin is None || x.usdc is None || x.vault is None,
            Fault::Error(AdapterError::NotAuthorized) => x.engine != Some(admin)
                && x.role.admin != Some(admin),
            Fault::Trap(Trap::Unauthorized) => !inv.signers@.contains(admin),
            Fault::Trap(Trap::Callee(e)) => balance is Err && balance->Err_0 == e,
            Fault::Trap(Trap::Overflow) => balance is Ok && !fits(balance->Ok_0 - x.exposure),
            Fault::Error(AdapterError::NothingToRecover) => balance is Ok
                && balance->Ok_0 <= x.exposure,
            _ => false,
        },
        x.set_counterparties_fault(inv, admin, vault, balance, governed)
            matches Some(f) ==> match f {
            Fault::Error(AdapterError::NotInitialized) => (x.role.admin is None)
                || (x.usdc is None),
            Fault::Error(AdapterError::NotAdmin) => x.role.admin is Some
                && x.role.admin != Some(admin),
            Fault::Trap(Trap::Unauthorized) => x.role.admin == Some(admin)
                && !inv.signers@.contains(admin),
            Fault::Error(AdapterError::NotEmpty) => (x.exposure != 0
                || (balance is Ok && balance->Ok_0 != 0)),
            Fault::Trap(Trap::Callee(e)) => balance is Err && balance->Err_0 == e,
            Fault::Error(AdapterError::CounterpartyMismatch) => governed is Err
                || governed->Ok_0 != vault,
            _ => false,
        },
{
}

/// A handover is refused for the reason named.
pub proof fn etherfuse_refuses_a_handover_for_the_reason_named(
    x: EtherfuseAdapter,
    after: EtherfuseAdapter,
    inv: Invocation,
    admin: Address,
    next: Address,
    f: Fault<AdapterError>,
)
    ensures
        x.propose_admin_step(after, inv, admin, next, Err(f)) ==> match f {
            Fault::Error(AdapterError::NotInitialized) => x.role.admin is None,
            Fault::Error(AdapterError::NotAdmin) => x.role.admin is Some
                && x.role.admin != Some(admin),
            Fault::Trap(Trap::Unauthorized) => x.role.admin == Some(admin)
                && !inv.signers@.contains(admin),
            _ => false,
        },
        x.accept_admin_step(after, inv, next, Err(f)) ==> match f {
            Fault::Error(AdapterError::NoPendingAdmin) => x.role.pending is None,
            Fault::Error(AdapterError::NotPendingAdmin) => x.role.pending is Some
                && x.role.pending != Some(next),
            Fault::Trap(Trap::Unauthorized) => x.role.pending == Some(next)
                && !inv.signers@.contains(next),
            _ => false,
        },
{
}

/// An adapter starts empty, once, for the admin that signed.
pub proof fn etherfuse_starts_empty(
    x: EtherfuseAdapter,
    after: EtherfuseAdapter,
    inv: Invocation,
    admin: Address,
    engine: Address,
    vault: Address,
    usdc: Address,
    r: Result<Receipt<()>, Fault<AdapterError>>,
)
    requires
        x.initialize_step(after, inv, admin, engine, vault, usdc, r),
    ensures
        r is Ok <==> x.engine is None && inv.signers@.contains(admin),
        r is Ok ==> {
            &&& after.exposure == 0
            &&& after.role.admin == Some(admin)
            &&& after.engine == Some(engine)
            &&& after.vault == Some(vault)
            &&& after.usdc == Some(usdc)
        },
        r is Err ==> after == x,
        r matches Err(f) ==> match f {
            Fault::Error(AdapterError::AlreadyInitialized) => x.engine is Some,
            Fault::Trap(Trap::Unauthorized) => !inv.signers@.contains(admin),
            _ => false,
        },
{
}

/// Every change of a setting is announced as it now is, asks nothing of any
/// other contract, and keeps the adapter alive, as every movement does.
pub proof fn etherfuse_announces_its_changes(
    x: EtherfuseAdapter,
    after: EtherfuseAdapter,
    inv: Invocation,
    admin: Address,
    next: Address,
    vault: Address,
    amount: i128,
    balance: Result<i128, InvokeError>,
    governed: Result<Address, InvokeError>,
    d: Receipt<()>,
    n: Receipt<i128>,
)
    ensures
        ({
            let r = Ok::<Receipt<()>, Fault<AdapterError>>(d);
            let quiet = d.effects.calls@.len() == 0 && d.effects.rent@ == seq![Rent::Instance];
            let events = d.effects.events@;
            &&& x.set_counterparties_step(
                after,
                inv,
                admin,
                next,
                vault,
                balance,
                governed,
                r,
            ) ==> quiet && events.len() == 1 && (
            events[0] matches Event::EtherfuseCounterpartiesSet(e) && e.engine == next
                && e.vault == vault)
            &&& x.propose_admin_step(after, inv, admin, next, r) ==> quiet && events.len() == 1 && (
            events[0] matches Event::EtherfuseAdminProposed(e) && e.new_admin == next)
            &&& x.accept_admin_step(after, inv, next, r) ==> quiet && events.len() == 1 && (
            events[0] matches Event::EtherfuseAdminChanged(e) && e.admin == next)
            &&& x.allocate_step(after, inv, amount, r) ==> quiet && events.len() == 0
            &&& x.deallocate_step(after, inv, amount, r) ==> d.effects.rent@ == seq![Rent::Instance]
                && events.len() == 0
            &&& x.write_down_step(after, inv, amount, r) ==> quiet
            &&& x.recover_surplus_step(inv, admin, balance, Ok(n)) ==> n.effects.rent@ == seq![
                Rent::Instance,
            ]
        }),
{
}

} // verus!
