//! Laws of the staking vault.

use crate::address::Address;
use crate::host::{Call, Event, Fault, InvokeError, Invocation, Receipt, Rent, Trap};
use crate::math::{fits, fits_u64};
use crate::staking::{
    assets_for, owed, pending_of, rate, shares_for, Allocation, Pending, Staking, StakingError,
};
use crate::table::total;
use crate::token::{held, TokenError};
use vstd::prelude::*;

verus! {

/// What fits into an amount a whole number of times, and what is left over.
proof fn lemma_floor(x: int, d: int)
    requires
        x >= 0,
        d > 0,
    ensures
        0 <= x / d,
        (x / d) * d <= x < (x / d + 1) * d,
{
    let q = x / d;
    assert(q >= 0 && q * d <= x < (q + 1) * d) by (nonlinear_arith)
        requires
            q == x / d,
            x >= 0,
            d > 0,
    ;
}

/// A product of what is not negative is not negative.
proof fn lemma_product(x: int, y: int)
    requires
        x >= 0,
        y >= 0,
    ensures
        x * y >= 0,
{
    assert(x * y >= 0) by (nonlinear_arith)
        requires
            x >= 0,
            y >= 0,
    ;
}

/// Shares are issued at the value of those there are, rounded down, and one
/// for one where there are none or they are worth nothing.
pub proof fn shares_are_issued_at_their_value(amount: int, supply: int, nav: int)
    requires
        amount >= 0,
        supply >= 0,
        nav >= 0,
    ensures
        supply == 0 || nav == 0 ==> shares_for(amount, supply, nav) == amount,
        supply > 0 && nav > 0 ==> {
            let shares = shares_for(amount, supply, nav);
            0 <= shares && shares * nav <= amount * supply < (shares + 1) * nav
        },
{
    if supply > 0 && nav > 0 {
        lemma_product(amount, supply);
        lemma_floor(amount * supply, nav);
    }
}

/// Shares are redeemed for their part of the whole, rounded down.
pub proof fn shares_are_redeemed_for_their_part(shares: int, supply: int, nav: int)
    requires
        shares >= 0,
        supply > 0,
        nav >= 0,
    ensures
        ({
            let assets = assets_for(shares, supply, nav);
            0 <= assets && assets * supply <= shares * nav < (assets + 1) * supply
        }),
{
    lemma_product(shares, nav);
    lemma_floor(shares * nav, supply);
}

/// A share is priced at its part of the whole, in ten-millionths, rounded
/// down, and at one where there are none.
pub proof fn a_share_is_priced_at_its_part(s: Staking)
    requires
        s.nav >= 0,
        s.token.supply >= 0,
    ensures
        s.token.supply == 0 ==> s.unit_price() == 10_000_000,
        s.token.supply > 0 ==> 0 <= s.unit_price() && s.unit_price() * s.token.supply <= s.nav
            * 10_000_000 < (s.unit_price() + 1) * s.token.supply,
        rate(s.nav as int, s.token.supply as int) == s.unit_price(),
        fits(s.nav * 10_000_000) ==> {
            &&& s.exchange_rate_answer() is Ok
            &&& s.exchange_rate_answer()->Ok_0 == s.unit_price()
            &&& s.share_price_answer() == s.exchange_rate_answer()
        },
{
    if s.token.supply > 0 {
        lemma_floor(s.nav * 10_000_000, s.token.supply as int);
        if fits(s.nav * 10_000_000) {
            crate::math::lemma_quotient_shrinks(s.nav * 10_000_000, s.token.supply as int);
        }
    }
}

/// Whoever has nothing on record has nothing pending, and what is owed is all
/// that is pending.
pub proof fn what_is_pending_is_what_is_on_record(pending: Map<Address, Pending>, who: Address)
    ensures
        !pending.dom().contains(who) ==> pending_of(pending, who).assets == 0,
        pending.dom().contains(who) ==> pending_of(pending, who) == pending[who],
        owed(pending) == total(pending, |a: Address, p: Pending| p.assets as int),
{
}

/// What the vault answers for is what its shares are worth and what is
/// pending.
pub proof fn the_vault_answers_for_its_shares_and_what_is_pending(s: Staking)
    ensures
        s.obligations() == s.nav + total(s.pending@, |a: Address, p: Pending| p.assets as int),
{
}

/// A stake takes the staker's signature and the amount, and issues the shares
/// it answers with, at the value of those there are; it moves nobody else's,
/// and nothing pending.
pub proof fn a_stake_issues_shares_at_their_value(
    s: Staking,
    after: Staking,
    inv: Invocation,
    from: Address,
    amount: i128,
    r: Result<Receipt<i128>, Fault<StakingError>>,
    other: Address,
)
    requires
        s.sound(),
        s.stake_step(after, inv, from, amount, r),
        other != from,
    ensures
        r is Ok ==> {
            let shares = r->Ok_0.value;
            &&& inv.signers@.contains(from)
            &&& amount > 0
            &&& shares > 0
            &&& s.token.supply == 0 || s.nav == 0 ==> shares == amount
            &&& s.token.supply > 0 && s.nav > 0 ==> shares * s.nav <= amount * s.token.supply < (
            shares + 1) * s.nav
            &&& held(after.token.balances@, from) == held(s.token.balances@, from) + shares
            &&& after.token.supply == s.token.supply + shares
            &&& after.nav == s.nav + amount
            &&& after.stakes == s.stakes + 1
            &&& r->Ok_0.effects.calls@ == seq![
                Call::Transfer { token: s.agusd->0, from, to: inv.contract, amount },
            ]
            &&& r->Ok_0.effects.events@.len() == 2
            &&& r->Ok_0.effects.events@[0] == (Event::Mint { to: from, amount: shares })
            &&& r->Ok_0.effects.events@[1] matches Event::Staked(e) && e.staker == from && e.assets
                == amount && e.shares == shares && e.nav == after.nav && e.supply
                == after.token.supply
        },
        held(after.token.balances@, other) == held(s.token.balances@, other),
        after.pending == s.pending && after.role == s.role && after.agusd == s.agusd
            && after.cooldown == s.cooldown && after.allocations == s.allocations
            && after.token.allowances == s.token.allowances && after.token.metadata
            == s.token.metadata,
        r is Err ==> after == s,
{
    if r is Ok {
        s.token.supply_covers_every_balance(from);
        shares_are_issued_at_their_value(amount as int, s.token.supply as int, s.nav as int);
    }
}

/// A stake is granted to whoever signed it, of any amount that buys at least
/// one share, as long as the amounts stay in range.
pub proof fn a_stake_that_buys_a_share_is_granted(
    s: Staking,
    after: Staking,
    inv: Invocation,
    from: Address,
    amount: i128,
    r: Result<Receipt<i128>, Fault<StakingError>>,
)
    requires
        s.sound(),
        s.stake_step(after, inv, from, amount, r),
    ensures
        r is Ok ==> s.agusd is Some,
        inv.signers@.contains(from) && amount > 0 && s.agusd is Some && (s.token.supply == 0
            || s.nav == 0 || amount * s.token.supply >= s.nav) && fits(amount * s.token.supply)
            && s.token.supply + amount * s.token.supply <= i128::MAX && s.token.supply + amount
            <= i128::MAX && s.nav + amount <= i128::MAX && s.stakes < u64::MAX ==> r is Ok,
        r == Err::<Receipt<i128>, Fault<StakingError>>(Fault::Error(StakingError::ZeroShares)) ==> {
            &&& s.token.supply > 0 && s.nav > 0
            &&& amount * s.token.supply < s.nav
        },
        r == Err::<Receipt<i128>, Fault<StakingError>>(Fault::Error(StakingError::InvalidAmount))
            ==> amount <= 0,
        r == Err::<Receipt<i128>, Fault<StakingError>>(Fault::Trap(Trap::Unauthorized))
            <==> !inv.signers@.contains(from),
{
    let supply = s.token.supply as int;
    let nav = s.nav as int;
    s.token.supply_covers_every_balance(from);
    if amount > 0 {
        shares_are_issued_at_their_value(amount as int, supply, nav);
        if supply > 0 && nav > 0 {
            let shares = shares_for(amount as int, supply, nav);
            let x = amount * supply;
            assert(shares <= x) by (nonlinear_arith)
                requires
                    shares * nav <= x,
                    nav >= 1,
                    shares >= 0,
            ;
            if shares <= 0 {
                assert(x < nav) by (nonlinear_arith)
                    requires
                        x < (shares + 1) * nav,
                        shares == 0,
                ;
            } else {
                assert(x >= nav) by (nonlinear_arith)
                    requires
                        shares * nav <= x,
                        shares >= 1,
                        nav >= 0,
                ;
            }
        }
    }
}

/// An unstake takes the holder's signature and as many shares, burns exactly
/// them, takes their part out of what the shares are worth and puts it with
/// what the holder has pending, to be claimed a full cooldown from now. No
/// token moves.
pub proof fn an_unstake_sets_aside_the_shares_part(
    s: Staking,
    after: Staking,
    inv: Invocation,
    from: Address,
    shares: i128,
    r: Result<Receipt<i128>, Fault<StakingError>>,
    other: Address,
)
    requires
        s.sound(),
        s.request_unstake_step(after, inv, from, shares, r),
        other != from,
    ensures
        r is Ok ==> {
            let assets = r->Ok_0.value;
            &&& inv.signers@.contains(from)
            &&& 0 < shares <= held(s.token.balances@, from)
            &&& 0 <= assets
            &&& assets * s.token.supply <= shares * s.nav < (assets + 1) * s.token.supply
            &&& held(after.token.balances@, from) == held(s.token.balances@, from) - shares
            &&& after.token.supply == s.token.supply - shares
            &&& after.nav == s.nav - assets
            &&& pending_of(after.pending@, from).assets == pending_of(s.pending@, from).assets
                + assets
            &&& s.cooldown is Some
            &&& pending_of(after.pending@, from).claimable_at == inv.timestamp + s.cooldown->0
            &&& r->Ok_0.effects.calls@.len() == 0
            &&& r->Ok_0.effects.events@.len() == 2
            &&& r->Ok_0.effects.events@[0] == (Event::Burn { from, amount: shares })
            &&& r->Ok_0.effects.events@[1] matches Event::UnstakeRequested(e) && e.staker == from
                && e.shares == shares && e.assets == assets && e.claimable_at == inv.timestamp
                + s.cooldown->0 && e.nav == after.nav && e.supply == after.token.supply
        },
        held(after.token.balances@, other) == held(s.token.balances@, other),
        pending_of(after.pending@, other) == pending_of(s.pending@, other),
        after.role == s.role && after.agusd == s.agusd && after.cooldown == s.cooldown
            && after.stakes == s.stakes && after.allocations == s.allocations
            && after.token.allowances == s.token.allowances && after.token.metadata
            == s.token.metadata,
        r is Err ==> after == s,
{
    if r is Ok {
        s.token.supply_covers_every_balance(from);
        shares_are_redeemed_for_their_part(shares as int, s.token.supply as int, s.nav as int);
    }
}

/// An unstake of shares that are held is granted, whatever they are worth, as
/// long as the amounts and the clock stay in range.
pub proof fn an_unstake_of_held_shares_is_granted(
    s: Staking,
    after: Staking,
    inv: Invocation,
    from: Address,
    shares: i128,
    r: Result<Receipt<i128>, Fault<StakingError>>,
)
    requires
        s.sound(),
        s.request_unstake_step(after, inv, from, shares, r),
    ensures
        inv.signers@.contains(from) && 0 < shares <= held(s.token.balances@, from) && s.cooldown
            is Some && fits(shares * s.nav) && fits(
            pending_of(s.pending@, from).assets + shares * s.nav,
        ) && fits_u64(inv.timestamp + s.cooldown->0) ==> r is Ok,
        r == Err::<Receipt<i128>, Fault<StakingError>>(Fault::Trap(Trap::Unauthorized))
            <==> !inv.signers@.contains(from),
        r == Err::<Receipt<i128>, Fault<StakingError>>(Fault::Error(StakingError::InvalidAmount))
            ==> shares <= 0,
        r == Err::<Receipt<i128>, Fault<StakingError>>(Fault::Error(StakingError::NoSupply))
            ==> s.token.supply == 0,
        r == Err::<Receipt<i128>, Fault<StakingError>>(
            Fault::Trap(Trap::Token(TokenError::InsufficientBalance)),
        ) ==> shares > held(s.token.balances@, from),
{
    s.token.supply_covers_every_balance(from);
    if 0 < shares <= held(s.token.balances@, from) {
        let supply = s.token.supply as int;
        let nav = s.nav as int;
        shares_are_redeemed_for_their_part(shares as int, supply, nav);
        let assets = assets_for(shares as int, supply, nav);
        let x = shares * nav;
        assert(assets <= x) by (nonlinear_arith)
            requires
                assets * supply <= x,
                supply >= 1,
                assets >= 0,
        ;
        assert(assets <= nav) by (nonlinear_arith)
            requires
                assets * supply <= x,
                x == shares * nav,
                shares <= supply,
                supply >= 1,
                nav >= 0,
        ;
        assert(pending_of(s.pending@, from).assets >= 0);
    }
}

/// A claim takes the staker's signature and a cooldown that is over, pays
/// exactly what is pending and leaves nothing pending, and moves nothing else.
pub proof fn a_claim_pays_what_is_pending(
    s: Staking,
    after: Staking,
    inv: Invocation,
    from: Address,
    r: Result<Receipt<i128>, Fault<StakingError>>,
    other: Address,
)
    requires
        s.claim_step(after, inv, from, r),
        other != from,
    ensures
        r is Ok <==> {
            &&& inv.signers@.contains(from)
            &&& s.agusd is Some
            &&& s.pending@.dom().contains(from)
            &&& s.pending@[from].assets > 0
            &&& s.pending@[from].claimable_at <= inv.timestamp
        },
        r is Ok ==> {
            &&& r->Ok_0.value == s.pending@[from].assets
            &&& pending_of(after.pending@, from).assets == 0
            &&& r->Ok_0.effects.calls@ == seq![
                Call::Transfer {
                    token: s.agusd->0,
                    from: inv.contract,
                    to: from,
                    amount: s.pending@[from].assets,
                },
            ]
            &&& r->Ok_0.effects.events@.len() == 1
            &&& r->Ok_0.effects.events@[0] matches Event::UnstakeClaimed(e) && e.staker == from
                && e.assets == s.pending@[from].assets
        },
        pending_of(after.pending@, other) == pending_of(s.pending@, other),
        after == (Staking { pending: after.pending, ..s }),
        r is Err ==> after == s,
        r == Err::<Receipt<i128>, Fault<StakingError>>(Fault::Error(StakingError::StillInCooldown))
            ==> inv.timestamp < s.pending@[from].claimable_at,
        r == Err::<Receipt<i128>, Fault<StakingError>>(Fault::Error(StakingError::NothingPending))
            ==> pending_of(s.pending@, from).assets <= 0,
{
}

/// What is set aside by an unstake can be claimed once the cooldown has passed
/// and not before.
pub proof fn an_unstake_is_claimed_after_its_cooldown(
    s: Staking,
    after: Staking,
    inv: Invocation,
    from: Address,
    shares: i128,
    r: Result<Receipt<i128>, Fault<StakingError>>,
    paid: Staking,
    later: Invocation,
    p: Result<Receipt<i128>, Fault<StakingError>>,
)
    requires
        s.sound(),
        s.request_unstake_step(after, inv, from, shares, r),
        r is Ok,
        after.claim_step(paid, later, from, p),
        later.signers@.contains(from),
        s.agusd is Some,
        pending_of(s.pending@, from).assets + r->Ok_0.value > 0,
    ensures
        p is Ok <==> later.timestamp >= inv.timestamp + s.cooldown->0,
        p is Ok ==> p->Ok_0.value == pending_of(s.pending@, from).assets + r->Ok_0.value,
        p is Err ==> p->Err_0 == Fault::<StakingError>::Error(StakingError::StillInCooldown),
{
}

/// Yield is paid in by the admin, all of it goes to what the shares are worth,
/// and no share is issued for it.
pub proof fn yield_goes_to_every_share(
    s: Staking,
    after: Staking,
    inv: Invocation,
    amount: i128,
    r: Result<Receipt<()>, Fault<StakingError>>,
)
    requires
        s.distribute_yield_step(after, inv, amount, r),
    ensures
        r is Ok <==> {
            &&& s.role.admin is Some && inv.signers@.contains(s.role.admin->0)
            &&& s.agusd is Some
            &&& amount > 0
            &&& fits(s.nav + amount)
        },
        r is Ok ==> {
            &&& after.nav == s.nav + amount
            &&& r->Ok_0.effects.calls@ == seq![
                Call::Transfer {
                    token: s.agusd->0,
                    from: s.role.admin->0,
                    to: inv.contract,
                    amount,
                },
            ]
            &&& r->Ok_0.effects.events@.len() == 1
            &&& r->Ok_0.effects.events@[0] matches Event::YieldDistributed(e) && e.amount == amount
                && e.nav == after.nav && e.supply == after.token.supply
        },
        after == (Staking { nav: after.nav, ..s }),
        r is Err ==> after == s,
{
}

/// The token that is staked changes only by the admin, before anything was
/// ever staked, and while none of the old one is held.
pub proof fn the_staked_token_changes_before_custody(
    s: Staking,
    after: Staking,
    inv: Invocation,
    admin: Address,
    agusd: Address,
    holding: Result<i128, InvokeError>,
    r: Result<Receipt<()>, Fault<StakingError>>,
)
    requires
        s.set_agusd_step(after, inv, admin, agusd, holding, r),
    ensures
        r is Ok <==> {
            &&& s.role.admin == Some(admin) && inv.signers@.contains(admin)
            &&& s.stakes == 0
            &&& s.nav == 0
            &&& s.agusd is Some
            &&& holding is Ok && holding->Ok_0 == 0
        },
        r is Ok ==> after.agusd == Some(agusd),
        after == (Staking { agusd: after.agusd, ..s }),
        r is Err ==> after == s,
{
}

/// A vault starts with the terms given and with shares worth nothing; its
/// plan of allocations is the admin's; and its role changes hands by an offer
/// and an acceptance, each signed.
pub proof fn the_vault_is_its_admins(
    s: Staking,
    after: Staking,
    inv: Invocation,
    admin: Address,
    next: Address,
    agusd: Address,
    cooldown: u64,
    decimal: u32,
    name: String,
    symbol: String,
    allocations: Vec<Allocation>,
    r: Result<Receipt<()>, Fault<StakingError>>,
    t: Result<Receipt<()>, Trap>,
)
    ensures
        s.__constructor_step(after, inv, admin, agusd, cooldown, decimal, name, symbol, r) ==> {
            &&& r is Ok <==> inv.signers@.contains(admin)
            &&& r is Ok ==> {
                &&& after.role.admin == Some(admin)
                &&& after.agusd == Some(agusd)
                &&& after.nav == 0
                &&& after.cooldown == Some(cooldown)
                &&& after.token.supply == s.token.supply
                &&& after.pending == s.pending
            }
            &&& r is Err ==> after == s && r->Err_0 == Fault::<StakingError>::Trap(
                Trap::Unauthorized,
            )
        },
        s.set_allocations_step(after, inv, allocations, t) ==> {
            &&& t is Ok <==> s.role.admin is Some && inv.signers@.contains(s.role.admin->0)
            &&& t is Ok ==> after.allocations == allocations
            &&& after == (Staking { allocations: after.allocations, ..s })
            &&& t is Err ==> after == s
        },
        s.propose_admin_step(after, inv, admin, next, r) ==> {
            &&& r is Ok <==> s.role.admin == Some(admin) && inv.signers@.contains(admin)
            &&& r is Ok ==> after.role.admin == s.role.admin && after.role.pending == Some(next)
            &&& after == (Staking { role: after.role, ..s })
            &&& r is Err ==> after == s
        },
        s.accept_admin_step(after, inv, next, r) ==> {
            &&& r is Ok <==> s.role.pending == Some(next) && inv.signers@.contains(next)
            &&& r is Ok ==> after.role.admin == Some(next) && after.role.pending is None
            &&& after == (Staking { role: after.role, ..s })
            &&& r is Err ==> after == s
        },
{
}

/// Every setting that is changed is announced as it now is, asks nothing of
/// any other contract, and keeps the vault alive; and every movement keeps
/// alive the balances it wrote.
pub proof fn a_change_is_announced_and_kept_alive(
    s: Staking,
    after: Staking,
    inv: Invocation,
    admin: Address,
    next: Address,
    amount: i128,
    holding: Result<i128, InvokeError>,
    d: Receipt<()>,
    n: Receipt<i128>,
)
    ensures
        ({
            let r = Ok::<Receipt<()>, Fault<StakingError>>(d);
            let quiet = d.effects.calls@.len() == 0 && d.effects.rent@ == seq![Rent::Instance];
            let events = d.effects.events@;
            &&& s.set_agusd_step(after, inv, admin, next, holding, r) ==> quiet && events.len() == 1
                && (events[0] matches Event::StakingAgUsdRepointed(e) && e.agusd == next)
            &&& s.propose_admin_step(after, inv, admin, next, r) ==> quiet && events.len() == 1 && (
            events[0] matches Event::StakingAdminProposed(e) && e.new_admin == next)
            &&& s.accept_admin_step(after, inv, next, r) ==> quiet && events.len() == 1 && (
            events[0] matches Event::StakingAdminChanged(e) && e.admin == next)
            &&& s.distribute_yield_step(after, inv, amount, r) ==> d.effects.rent@ == seq![
                Rent::Instance,
            ]
            &&& s.stake_step(after, inv, next, amount, Ok(n)) ==> n.effects.rent@ == seq![
                Rent::Instance,
                Rent::Balance { of: next },
            ]
            &&& s.request_unstake_step(after, inv, next, amount, Ok(n)) ==> n.effects.rent@ == seq![
                Rent::Instance,
                Rent::Balance { of: next },
                Rent::Pending { of: next },
            ]
            &&& s.bump_pending_step(next, r) ==> pending_of(s.pending@, next).assets > 0
                && d.effects.rent@ == seq![Rent::Pending { of: next }]
        }),
{
}

/// Each refusal names what stands against it, and what is granted kept every
/// amount in range.
pub proof fn a_refusal_names_its_reason(
    s: Staking,
    after: Staking,
    inv: Invocation,
    admin: Address,
    who: Address,
    amount: i128,
    allocations: Vec<Allocation>,
    holding: Result<i128, InvokeError>,
    t: Trap,
    f: Fault<StakingError>,
)
    requires
        s.sound(),
    ensures
        s.set_agusd_fault(inv, admin, holding) matches Some(f) ==> match f {
            Fault::Error(StakingError::NotInitialized) => (s.role.admin is None)
                || (s.agusd is None),
            Fault::Error(StakingError::NotAdmin) => s.role.admin is Some
                && s.role.admin != Some(admin),
            Fault::Trap(Trap::Unauthorized) => s.role.admin == Some(admin)
                && !inv.signers@.contains(admin),
            Fault::Error(StakingError::CustodyTaken) => (s.stakes > 0 || s.nav != 0
                || (holding is Ok && holding->Ok_0 != 0)),
            Fault::Trap(Trap::Callee(e)) => holding is Err && holding->Err_0 == e,
            _ => false,
        },
        s.stake_fault(inv, who, amount) matches Some(f) ==> match f {
            Fault::Trap(Trap::Unauthorized) => !inv.signers@.contains(who),
            Fault::Error(StakingError::InvalidAmount) => amount <= 0,
            Fault::Error(StakingError::NotInitialized) => s.agusd is None,
            Fault::Error(StakingError::ZeroShares) => s.token.supply > 0 && s.nav > 0
                && amount * s.token.supply < s.nav,
            Fault::Trap(Trap::Overflow) => !fits(amount * s.token.supply)
                || s.token.supply + shares_for(
                    amount as int,
                    s.token.supply as int,
                    s.nav as int,
                ) > i128::MAX || s.nav + amount > i128::MAX || s.stakes == u64::MAX,
            _ => false,
        },
        s.request_unstake_fault(inv, who, amount) matches Some(f) ==> match f {
            Fault::Trap(Trap::Unauthorized) => !inv.signers@.contains(who),
            Fault::Error(StakingError::InvalidAmount) => amount <= 0,
            Fault::Error(StakingError::NoSupply) => s.token.supply == 0,
            Fault::Trap(Trap::Token(TokenError::InsufficientBalance)) => amount > held(
                s.token.balances@,
                who,
            ),
            Fault::Trap(Trap::Absent) => s.cooldown is None,
            Fault::Trap(Trap::Overflow) => !fits(amount * s.nav)
                || !fits_u64(inv.timestamp + s.cooldown->0) || !fits(
                    pending_of(s.pending@, who).assets + assets_for(
                        amount as int,
                        s.token.supply as int,
                        s.nav as int,
                    ),
                ),
            _ => false,
        },
        s.claim_fault(inv, who) matches Some(f) ==> match f {
            Fault::Trap(Trap::Unauthorized) => !inv.signers@.contains(who),
            Fault::Error(StakingError::NothingPending) => pending_of(s.pending@, who).assets <= 0,
            Fault::Error(StakingError::StillInCooldown) => inv.timestamp
                < s.pending@[who].claimable_at,
            Fault::Error(StakingError::NotInitialized) => s.agusd is None,
            _ => false,
        },
        s.distribute_yield_fault(inv, amount) matches Some(f) ==> match f {
            Fault::Trap(Trap::Absent) => s.role.admin is None,
            Fault::Trap(Trap::Unauthorized) => s.role.admin is Some
                && !inv.signers@.contains(s.role.admin->0),
            Fault::Error(StakingError::InvalidAmount) => amount <= 0,
            Fault::Error(StakingError::NotInitialized) => s.agusd is None,
            Fault::Trap(Trap::Overflow) => s.nav + amount > i128::MAX,
            _ => false,
        },
        s.set_allocations_step(after, inv, allocations, Err(t)) ==> match t {
            Trap::Absent => s.role.admin is None,
            Trap::Unauthorized => s.role.admin is Some && !inv.signers@.contains(s.role.admin->0),
            _ => false,
        },
        s.bump_pending_step(who, Err(f)) ==> f == Fault::<StakingError>::Error(
            StakingError::NothingPending,
        ) && pending_of(s.pending@, who).assets <= 0,
        s.stake_fault(inv, who, amount) is None ==> fits(amount * s.token.supply) || s.nav == 0,
        s.request_unstake_fault(inv, who, amount) is None ==> fits(amount * s.nav),
        s.token.supply > 0 && !fits(s.nav * 10_000_000) ==> s.exchange_rate_answer() == Err::<
            i128,
            Trap,
        >(Trap::Overflow) && s.share_price_answer() == Err::<i128, Trap>(Trap::Overflow),
{
    let supply = s.token.supply as int;
    let nav = s.nav as int;
    s.token.supply_covers_every_balance(who);
    assert(pending_of(s.pending@, who).assets >= 0);
    if amount > 0 {
        shares_are_issued_at_their_value(amount as int, supply, nav);
        let shares = shares_for(amount as int, supply, nav);
        let x = amount * supply;
        if supply > 0 && nav > 0 {
            assert(shares <= x) by (nonlinear_arith)
                requires
                    shares * nav <= x,
                    nav >= 1,
                    shares >= 0,
            ;
            if shares == 0 {
                assert(x < nav) by (nonlinear_arith)
                    requires
                        x < (shares + 1) * nav,
                        shares == 0,
                ;
            }
        }
    }
    if 0 < amount <= supply {
        shares_are_redeemed_for_their_part(amount as int, supply, nav);
        let assets = assets_for(amount as int, supply, nav);
        let x = amount * nav;
        assert(assets <= x && assets <= nav) by (nonlinear_arith)
            requires
                assets * supply <= x,
                x == amount * nav,
                0 < amount <= supply,
                assets >= 0,
                nav >= 0,
        ;
    }
    if amount > supply && supply > 0 {
        lemma_product(amount as int, nav);
        lemma_floor(amount * nav, supply);
        if fits(amount * nav) {
            crate::math::lemma_quotient_shrinks(amount * nav, supply);
        }
    }
}

/// A handover is refused for the reason named.
pub proof fn a_handover_is_refused_for_the_reason_named(
    s: Staking,
    after: Staking,
    inv: Invocation,
    admin: Address,
    next: Address,
    f: Fault<StakingError>,
)
    ensures
        s.propose_admin_step(after, inv, admin, next, Err(f)) ==> match f {
            Fault::Error(StakingError::NotInitialized) => s.role.admin is None,
            Fault::Error(StakingError::NotAdmin) => s.role.admin is Some
                && s.role.admin != Some(admin),
            Fault::Trap(Trap::Unauthorized) => s.role.admin == Some(admin)
                && !inv.signers@.contains(admin),
            _ => false,
        },
        s.accept_admin_step(after, inv, next, Err(f)) ==> match f {
            Fault::Error(StakingError::NoPendingAdmin) => s.role.pending is None,
            Fault::Error(StakingError::NotPendingAdmin) => s.role.pending is Some
                && s.role.pending != Some(next),
            Fault::Trap(Trap::Unauthorized) => s.role.pending == Some(next)
                && !inv.signers@.contains(next),
            _ => false,
        },
{
}

} // verus!
