//! Laws of the allocation engine.

use crate::address::{Address, Symbol};
use crate::engine::{AllocationEngine, Caps, EngineError, Group, Pool, Wiring};
use crate::host::{Call, Event, Fault, InvokeError, Invocation, Receipt, Rent, Trap};
use crate::math::fits;
use crate::table::{ordered, total};
use crate::token::held;
use vstd::prelude::*;

verus! {

/// Only the admin may act as the admin, and only signed.
pub proof fn an_admin_call_is_the_admins(o: AllocationEngine, inv: Invocation, admin: Address)
    ensures
        o.admin_fault(inv, admin) is None <==> o.role.admin == Some(admin)
            && inv.signers@.contains(admin),
        o.admin_fault(inv, admin) == Some(Fault::<EngineError>::Error(EngineError::NotInitialized))
            <==> o.role.admin is None,
        o.admin_fault(inv, admin) == Some(Fault::<EngineError>::Error(EngineError::NotAdmin))
            <==> o.role.admin is Some && o.role.admin != Some(admin),
        o.admin_fault(inv, admin) == Some(Fault::<EngineError>::Trap(Trap::Unauthorized))
            <==> o.role.admin == Some(admin) && !inv.signers@.contains(admin),
{
}

/// An adapter is wired to the engine that calls it, to the engine's own vault,
/// and to the token that vault keeps, or it is refused.
pub proof fn an_adapter_is_wired_to_its_engine(o: AllocationEngine, inv: Invocation, w: Wiring)
    ensures
        o.adapter_fault(inv, w) is None <==> {
            &&& o.vault is Some
            &&& w.engine == Ok::<Address, InvokeError>(inv.contract)
            &&& w.vault == Ok::<Address, InvokeError>(o.vault->0)
            &&& w.usdc is Ok && w.custodied is Ok
            &&& w.usdc->Ok_0 == w.custodied->Ok_0
        },
        o.vault is None <==> o.adapter_fault(inv, w) == Some(
            Fault::<EngineError>::Error(EngineError::NotInitialized),
        ),
        o.adapter_fault(inv, w) is Some && o.vault is Some ==> o.adapter_fault(inv, w) == Some(
            Fault::<EngineError>::Error(EngineError::AdapterMismatch),
        ),
{
}

/// What a pool is charged is what is out with it and what was lost on it.
pub proof fn a_pool_is_charged_its_exposure_and_its_losses(o: AllocationEngine, pool: Address)
    ensures
        o.exposure(pool) == held(o.exposures@, pool),
        o.charge(pool) == held(o.written_off_pools@, pool),
        o.charged(pool) == held(o.exposures@, pool) + held(o.written_off_pools@, pool),
        fits(o.charged(pool)) ==> o.charged_exposure_answer(pool) is Ok
            && o.charged_exposure_answer(pool)->Ok_0 == held(o.exposures@, pool) + held(
            o.written_off_pools@,
            pool,
        ),
{
}

/// What a group is charged is what is charged to the pools registered under
/// its name, and to no others.
pub proof fn a_group_is_charged_for_its_own_pools(
    o: AllocationEngine,
    pool: Pool,
    group: Group,
)
    ensures
        group.counts(pool) <==> (group == Group::Originator(pool.originator) || group
            == Group::Jurisdiction(pool.jurisdiction)),
        o.charged_group(group) == total(
            o.pools@,
            |id: Address, p: Pool|
                if group.counts(p) {
                    held(o.exposures@, id) + held(o.written_off_pools@, id)
                } else {
                    0
                },
        ),
{
    let f = |id: Address, p: Pool|
        if group.counts(p) {
            o.charged(id)
        } else {
            0
        };
    let g = |id: Address, p: Pool|
        if group.counts(p) {
            held(o.exposures@, id) + held(o.written_off_pools@, id)
        } else {
            0
        };
    assert(f =~= g);
}

/// On a sound engine the walk over the registered pools adds up what the group
/// is charged.
proof fn lemma_walk_is_the_sum(o: AllocationEngine, group: Group)
    requires
        o.sound(),
        ordered(o.pools.listing()),
    ensures
        o.charged_group(group) >= 0,
        o.walk(o.pools.listing(), group) == (if fits(o.charged_group(group)) {
            Some(o.charged_group(group))
        } else {
            None
        }),
{
    let pools = o.pools.listing();
    o.pools.holds_what_it_lists();
    o.lemma_walk(pools, group, pools.len() as int);
    assert(pools.take(pools.len() as int) =~= pools);
}

/// An allocation that is granted leaves what is charged to the pool, the live
/// and the lost, within the pool's own cap and within the cap on every pool,
/// each a share of the book, which is what is free and what is out and has no
/// loss in it; and what stays free is no less of the floor base than the floor.
pub proof fn an_allocation_keeps_both_pool_caps_and_the_floor(
    o: AllocationEngine,
    after: AllocationEngine,
    inv: Invocation,
    admin: Address,
    pool: Address,
    amount: i128,
    w: Wiring,
    free: i128,
    base: i128,
    r: Result<Receipt<()>, Fault<EngineError>>,
)
    requires
        o.sound(),
        o.allocate_step(
            after,
            inv,
            admin,
            pool,
            amount,
            w,
            Ok::<i128, InvokeError>(free),
            Ok::<i128, InvokeError>(base),
            r,
        ),
        r is Ok,
    ensures
        ({
            let live = held(o.exposures@, pool);
            let lost = held(o.written_off_pools@, pool);
            let book = free + o.total_allocated;
            &&& o.pools@.dom().contains(pool)
            &&& (live + lost + amount) * 10_000 <= o.pools@[pool].cap_bps * book
            &&& (live + lost + amount) * 10_000 <= o.caps.pool_bps * book
            &&& o.floor_bps * base <= (free - amount) * 10_000
            &&& 0 < amount <= free
        }),
{
    let book = free + o.total_allocated;
    o.total_covers_every_exposure(pool);
    let c = o.pool_cap(pool);
    let x = o.pools@[pool].cap_bps as int;
    let y = o.caps.pool_bps as int;
    assert(c * book <= x * book && c * book <= y * book) by (nonlinear_arith)
        requires
            c <= x,
            c <= y,
            book >= 0,
    ;
}

/// An allocation that is granted leaves what is charged to the pools of the
/// same originator, and to those of the same jurisdiction, within the cap on
/// each as a share of the book.
pub proof fn an_allocation_keeps_both_group_caps(
    o: AllocationEngine,
    after: AllocationEngine,
    inv: Invocation,
    admin: Address,
    pool: Address,
    amount: i128,
    w: Wiring,
    free: i128,
    base: i128,
    r: Result<Receipt<()>, Fault<EngineError>>,
)
    requires
        o.sound(),
        ordered(o.pools.listing()),
        o.allocate_step(
            after,
            inv,
            admin,
            pool,
            amount,
            w,
            Ok::<i128, InvokeError>(free),
            Ok::<i128, InvokeError>(base),
            r,
        ),
        r is Ok,
    ensures
        ({
            let terms = o.pools@[pool];
            let book = free + o.total_allocated;
            &&& (o.charged_group(Group::Originator(terms.originator)) + amount) * 10_000
                <= o.caps.originator_bps * book
            &&& (o.charged_group(Group::Jurisdiction(terms.jurisdiction)) + amount) * 10_000
                <= o.caps.jurisdiction_bps * book
        }),
{
    let terms = o.pools@[pool];
    lemma_walk_is_the_sum(o, Group::Originator(terms.originator));
    lemma_walk_is_the_sum(o, Group::Jurisdiction(terms.jurisdiction));
}

/// To be within the limits is to be within each of them.
pub proof fn the_limits_are_these(
    o: AllocationEngine,
    pool: Address,
    amount: int,
    free: int,
    base: int,
)
    requires
        free + o.total_allocated >= 0,
    ensures
        o.within_limits(pool, amount, free, base) <==> {
            let terms = o.pools@[pool];
            let live = held(o.exposures@, pool);
            let lost = held(o.written_off_pools@, pool);
            let book = free + o.total_allocated;
            &&& (live + lost + amount) * 10_000 <= terms.cap_bps * book
            &&& (live + lost + amount) * 10_000 <= o.caps.pool_bps * book
            &&& (o.charged_group(Group::Originator(terms.originator)) + amount) * 10_000
                <= o.caps.originator_bps * book
            &&& (o.charged_group(Group::Jurisdiction(terms.jurisdiction)) + amount) * 10_000
                <= o.caps.jurisdiction_bps * book
            &&& o.floor_bps * base <= (free - amount) * 10_000
        },
{
    let book = free + o.total_allocated;
    let c = o.pool_cap(pool);
    let x = o.pools@[pool].cap_bps as int;
    let y = o.caps.pool_bps as int;
    assert(c * book <= x * book && c * book <= y * book) by (nonlinear_arith)
        requires
            c <= x,
            c <= y,
            book >= 0,
    ;
}

/// An allocation that the admin signed, of an amount that is free, to a
/// registered pool whose adapter is wired here, and that keeps every limit, is
/// granted, wherever the amounts stay in range.
pub proof fn an_allocation_within_every_limit_is_granted(
    o: AllocationEngine,
    after: AllocationEngine,
    inv: Invocation,
    admin: Address,
    pool: Address,
    amount: i128,
    w: Wiring,
    free: i128,
    base: i128,
    r: Result<Receipt<()>, Fault<EngineError>>,
)
    requires
        o.sound(),
        ordered(o.pools.listing()),
        o.allocate_step(
            after,
            inv,
            admin,
            pool,
            amount,
            w,
            Ok::<i128, InvokeError>(free),
            Ok::<i128, InvokeError>(base),
            r,
        ),
        o.role.admin == Some(admin),
        inv.signers@.contains(admin),
        o.pools@.dom().contains(pool),
        o.adapter_fault(inv, w) is None,
        0 < amount <= free,
        fits((free + o.total_allocated) * 10_000),
        -i128::MAX <= o.floor_bps * base <= (free - amount) * 10_000,
        ({
            let terms = o.pools@[pool];
            let live = held(o.exposures@, pool);
            let lost = held(o.written_off_pools@, pool);
            let book = free + o.total_allocated;
            &&& (live + lost + amount) * 10_000 <= terms.cap_bps * book
            &&& (live + lost + amount) * 10_000 <= o.caps.pool_bps * book
            &&& (o.charged_group(Group::Originator(terms.originator)) + amount) * 10_000
                <= o.caps.originator_bps * book
            &&& (o.charged_group(Group::Jurisdiction(terms.jurisdiction)) + amount) * 10_000
                <= o.caps.jurisdiction_bps * book
        }),
    ensures
        r is Ok,
        after.total_allocated == o.total_allocated + amount,
        held(after.exposures@, pool) == held(o.exposures@, pool) + amount,
{
    let terms = o.pools@[pool];
    lemma_walk_is_the_sum(o, Group::Originator(terms.originator));
    lemma_walk_is_the_sum(o, Group::Jurisdiction(terms.jurisdiction));
    o.total_covers_every_exposure(pool);
    let book = free + o.total_allocated;
    lemma_share(book, o.pool_cap(pool));
    lemma_share(book, o.caps.originator_bps as int);
    lemma_share(book, o.caps.jurisdiction_bps as int);
    assert(held(o.written_off_pools@, pool) >= 0);
}

/// A share of a book is between nothing and the book.
proof fn lemma_share(book: int, bps: int)
    requires
        book >= 0,
        0 <= bps <= 10_000,
    ensures
        0 <= bps * book <= book * 10_000,
{
    assert(0 <= bps * book <= book * 10_000) by (nonlinear_arith)
        requires
            book >= 0,
            0 <= bps <= 10_000,
    ;
}

/// A refusal that names a limit is of an amount that breaks that limit.
pub proof fn a_limit_refuses_only_what_breaks_it(
    o: AllocationEngine,
    inv: Invocation,
    admin: Address,
    pool: Address,
    amount: i128,
    w: Wiring,
    free: i128,
    base: i128,
)
    requires
        o.sound(),
        ordered(o.pools.listing()),
    ensures
        ({
            let fault = o.allocate_fault(
                inv,
                admin,
                pool,
                amount,
                w,
                Ok::<i128, InvokeError>(free),
                Ok::<i128, InvokeError>(base),
            );
            let terms = o.pools@[pool];
            let live = held(o.exposures@, pool);
            let lost = held(o.written_off_pools@, pool);
            let book = free + o.total_allocated;
            &&& fault == Some(Fault::<EngineError>::Error(EngineError::PoolCapExceeded)) ==> {
                ||| (live + lost + amount) * 10_000 > terms.cap_bps * book
                ||| (live + lost + amount) * 10_000 > o.caps.pool_bps * book
            }
            &&& fault == Some(Fault::<EngineError>::Error(EngineError::OriginatorCapExceeded))
                ==> (o.charged_group(Group::Originator(terms.originator)) + amount) * 10_000
                > o.caps.originator_bps * book
            &&& fault == Some(Fault::<EngineError>::Error(EngineError::JurisdictionCapExceeded))
                ==> (o.charged_group(Group::Jurisdiction(terms.jurisdiction)) + amount) * 10_000
                > o.caps.jurisdiction_bps * book
            &&& fault == Some(Fault::<EngineError>::Error(EngineError::ReserveFloorBreached)) ==> (
            free - amount) * 10_000 < o.floor_bps * base
            &&& fault == Some(Fault::<EngineError>::Error(EngineError::InsufficientReserves))
                ==> amount > free
            &&& fault == Some(Fault::<EngineError>::Error(EngineError::InvalidAmount)) ==> amount
                <= 0
            &&& fault == Some(Fault::<EngineError>::Error(EngineError::PoolNotRegistered))
                ==> !o.pools@.dom().contains(pool)
        }),
{
    let terms = o.pools@[pool];
    lemma_walk_is_the_sum(o, Group::Originator(terms.originator));
    lemma_walk_is_the_sum(o, Group::Jurisdiction(terms.jurisdiction));
}

/// A walk looks at the pools and at what each is charged, and at nothing else.
proof fn lemma_walks_agree(
    a: AllocationEngine,
    b: AllocationEngine,
    pools: Seq<(Address, Pool)>,
    group: Group,
)
    requires
        a.exposures == b.exposures,
        a.written_off_pools == b.written_off_pools,
    ensures
        a.walk(pools, group) == b.walk(pools, group),
    decreases pools.len(),
{
    if pools.len() > 0 {
        lemma_walks_agree(a, b, pools.drop_last(), group);
    }
}

/// The losses on the book are no part of what a cap is a share of: two engines
/// that differ in nothing else, and in who may still be offered the role,
/// answer every allocation alike.
pub proof fn the_losses_on_the_book_move_no_cap(
    a: AllocationEngine,
    b: AllocationEngine,
    inv: Invocation,
    admin: Address,
    pool: Address,
    amount: i128,
    w: Wiring,
    free: Result<i128, InvokeError>,
    base: Result<i128, InvokeError>,
)
    requires
        a.role.admin == b.role.admin,
        a.vault == b.vault,
        a.caps == b.caps,
        a.floor_bps == b.floor_bps,
        a.pools == b.pools,
        a.exposures == b.exposures,
        a.written_off_pools == b.written_off_pools,
        a.total_allocated == b.total_allocated,
    ensures
        a.allocate_fault(inv, admin, pool, amount, w, free, base) == b.allocate_fault(
            inv,
            admin,
            pool,
            amount,
            w,
            free,
            base,
        ),
{
    let terms = a.pools@[pool];
    let pools = a.pools.listing();
    lemma_walks_agree(a, b, pools, Group::Originator(terms.originator));
    lemma_walks_agree(a, b, pools, Group::Jurisdiction(terms.jurisdiction));
}

/// A smaller allocation is granted wherever a larger one is.
pub proof fn a_smaller_allocation_is_no_harder(
    o: AllocationEngine,
    inv: Invocation,
    admin: Address,
    pool: Address,
    amount: i128,
    less: i128,
    w: Wiring,
    free: i128,
    base: i128,
)
    requires
        o.sound(),
        ordered(o.pools.listing()),
        0 < less <= amount,
        fits((free + o.total_allocated) * 10_000),
        o.allocate_fault(
            inv,
            admin,
            pool,
            amount,
            w,
            Ok::<i128, InvokeError>(free),
            Ok::<i128, InvokeError>(base),
        ) is None,
    ensures
        o.allocate_fault(
            inv,
            admin,
            pool,
            less,
            w,
            Ok::<i128, InvokeError>(free),
            Ok::<i128, InvokeError>(base),
        ) is None,
{
    let terms = o.pools@[pool];
    lemma_walk_is_the_sum(o, Group::Originator(terms.originator));
    lemma_walk_is_the_sum(o, Group::Jurisdiction(terms.jurisdiction));
    o.total_covers_every_exposure(pool);
    assert(held(o.written_off_pools@, pool) >= 0);
}

/// An allocation has the vault pay exactly the amount to the pool and the pool
/// book exactly it, in this order, and books it here, on that pool and on the
/// total, and nowhere else.
pub proof fn an_allocation_moves_the_amount_to_the_pool(
    o: AllocationEngine,
    after: AllocationEngine,
    inv: Invocation,
    admin: Address,
    pool: Address,
    amount: i128,
    w: Wiring,
    free: Result<i128, InvokeError>,
    base: Result<i128, InvokeError>,
    r: Result<Receipt<()>, Fault<EngineError>>,
    other: Address,
)
    requires
        o.allocate_step(after, inv, admin, pool, amount, w, free, base, r),
        other != pool,
    ensures
        r is Ok ==> {
            &&& o.role.admin == Some(admin) && inv.signers@.contains(admin)
            &&& o.adapter_fault(inv, w) is None
            &&& o.pools@.dom().contains(pool)
            &&& free is Ok && base is Ok
            &&& held(after.exposures@, pool) == held(o.exposures@, pool) + amount
            &&& after.total_allocated == o.total_allocated + amount
            &&& r->Ok_0.effects.calls@ == seq![
                Call::SettleAllocation { vault: o.vault->0, pool, amount },
                Call::Allocate { pool, amount },
            ]
            &&& r->Ok_0.effects.events@.len() == 1
            &&& r->Ok_0.effects.events@[0] matches Event::Allocated(e) && e.pool == pool && e.amount
                == amount && e.pool_exposure == held(after.exposures@, pool) && e.idle_after
                == free->Ok_0 - amount
        },
        held(after.exposures@, other) == held(o.exposures@, other),
        after.role == o.role && after.vault == o.vault && after.caps == o.caps && after.floor_bps
            == o.floor_bps && after.pools == o.pools && after.written_off == o.written_off
            && after.written_off_pools == o.written_off_pools,
        r is Err ==> after == o,
{
}

/// A repayment is granted whenever the admin of the day signed it, the pool is
/// registered and wired here and has as much out, whatever the caps and the
/// floor. It has the pool pay exactly the amount and the vault book it, and
/// takes it off that pool and the total.
pub proof fn a_repayment_takes_the_amount_off_the_pool(
    o: AllocationEngine,
    after: AllocationEngine,
    inv: Invocation,
    pool: Address,
    amount: i128,
    w: Wiring,
    r: Result<Receipt<()>, Fault<EngineError>>,
    other: Address,
)
    requires
        o.deallocate_step(after, inv, pool, amount, w, r),
        other != pool,
    ensures
        r is Ok <==> {
            &&& o.role.admin is Some && inv.signers@.contains(o.role.admin->0)
            &&& o.adapter_fault(inv, w) is None
            &&& o.pools@.dom().contains(pool)
            &&& 0 < amount <= held(o.exposures@, pool)
            &&& fits(o.total_allocated - amount)
        },
        r is Ok ==> {
            &&& held(after.exposures@, pool) == held(o.exposures@, pool) - amount
            &&& after.total_allocated == o.total_allocated - amount
            &&& r->Ok_0.effects.calls@ == seq![
                Call::Deallocate { pool, amount },
                Call::RecordRepayment { vault: o.vault->0, amount },
            ]
            &&& r->Ok_0.effects.events@.len() == 1
            &&& r->Ok_0.effects.events@[0] matches Event::Deallocated(e) && e.pool == pool
                && e.amount == amount && e.pool_exposure == held(after.exposures@, pool)
        },
        held(after.exposures@, other) == held(o.exposures@, other),
        after.role == o.role && after.vault == o.vault && after.caps == o.caps && after.floor_bps
            == o.floor_bps && after.pools == o.pools && after.written_off == o.written_off
            && after.written_off_pools == o.written_off_pools,
        r is Err ==> after == o,
        r == Err::<Receipt<()>, Fault<EngineError>>(Fault::Error(EngineError::ExposureUnderflow))
            ==> amount > held(o.exposures@, pool),
        r == Err::<Receipt<()>, Fault<EngineError>>(Fault::Error(EngineError::InvalidAmount))
            ==> amount <= 0,
        r == Err::<Receipt<()>, Fault<EngineError>>(Fault::Error(EngineError::PoolNotRegistered))
            ==> !o.pools@.dom().contains(pool),
{
}

/// A write-down is granted when the admin signed it, is the vault's admin too,
/// and the registered pool has as much out. It takes exactly the amount off
/// the pool's exposure and the total, books exactly it as lost on that pool and
/// on the whole, and has the pool and the vault book it too.
pub proof fn a_write_down_turns_exposure_into_loss(
    o: AllocationEngine,
    after: AllocationEngine,
    inv: Invocation,
    admin: Address,
    pool: Address,
    amount: i128,
    reason: Symbol,
    vault_admin: Result<Address, InvokeError>,
    r: Result<Receipt<()>, Fault<EngineError>>,
    other: Address,
)
    requires
        o.write_down_step(after, inv, admin, pool, amount, reason, vault_admin, r),
        other != pool,
    ensures
        r is Ok <==> {
            &&& o.role.admin == Some(admin) && inv.signers@.contains(admin)
            &&& o.vault is Some && vault_admin is Ok && vault_admin->Ok_0 == admin
            &&& o.pools@.dom().contains(pool)
            &&& 0 < amount <= held(o.exposures@, pool)
            &&& fits(o.total_allocated - amount) && fits(o.written_off + amount) && fits(
                held(o.written_off_pools@, pool) + amount,
            )
        },
        r is Ok ==> {
            &&& held(after.exposures@, pool) == held(o.exposures@, pool) - amount
            &&& held(after.written_off_pools@, pool) == held(o.written_off_pools@, pool) + amount
            &&& after.total_allocated == o.total_allocated - amount
            &&& after.written_off == o.written_off + amount
            &&& r->Ok_0.effects.calls@ == seq![
                Call::WriteDown { pool, amount },
                Call::RecordWritedown { vault: o.vault->0, admin, amount },
            ]
            &&& r->Ok_0.effects.events@.len() == 1
            &&& r->Ok_0.effects.events@[0] matches Event::WrittenDown(e) && e.pool == pool
                && e.amount == amount && e.pool_exposure == held(after.exposures@, pool)
                && e.reason == reason
        },
        held(after.exposures@, other) == held(o.exposures@, other),
        held(after.written_off_pools@, other) == held(o.written_off_pools@, other),
        after.role == o.role && after.vault == o.vault && after.caps == o.caps && after.floor_bps
            == o.floor_bps && after.pools == o.pools,
        r is Err ==> after == o,
        r == Err::<Receipt<()>, Fault<EngineError>>(
            Fault::Error(EngineError::WriteDownExceedsExposure),
        ) ==> amount > held(o.exposures@, pool),
        r == Err::<Receipt<()>, Fault<EngineError>>(Fault::Error(EngineError::AdminMismatch))
            ==> vault_admin is Ok && vault_admin->Ok_0 != admin,
{
}

/// A recovery forgives a pool what came back, up to all it lost, and the whole
/// book what came back, up to all it lost; it has the vault book all that came
/// back, and touches no exposure and no other pool.
pub proof fn a_recovery_forgives_what_came_back(
    o: AllocationEngine,
    after: AllocationEngine,
    inv: Invocation,
    admin: Address,
    pool: Address,
    vault_admin: Result<Address, InvokeError>,
    w: Wiring,
    swept: Result<i128, InvokeError>,
    r: Result<Receipt<i128>, Fault<EngineError>>,
    other: Address,
)
    requires
        o.sound(),
        o.recover_step(after, inv, admin, pool, vault_admin, w, swept, r),
        other != pool,
        swept is Ok ==> swept->Ok_0 >= 0,
    ensures
        r is Ok <==> {
            &&& o.role.admin == Some(admin) && inv.signers@.contains(admin)
            &&& o.pools@.dom().contains(pool)
            &&& vault_admin is Ok && vault_admin->Ok_0 == admin
            &&& o.adapter_fault(inv, w) is None
            &&& swept is Ok
        },
        r is Ok ==> {
            let back = swept->Ok_0;
            &&& r->Ok_0.value == back
            &&& r->Ok_0.effects.calls@ == seq![
                Call::RecordRecovery { vault: o.vault->0, admin, amount: back },
            ]
            &&& back <= held(o.written_off_pools@, pool) ==> held(after.written_off_pools@, pool)
                == held(o.written_off_pools@, pool) - back
            &&& back >= held(o.written_off_pools@, pool) ==> held(after.written_off_pools@, pool)
                == 0
            &&& back <= o.written_off ==> after.written_off == o.written_off - back
            &&& back >= o.written_off ==> after.written_off == 0
            &&& r->Ok_0.effects.events@.len() == 1
            &&& r->Ok_0.effects.events@[0] matches Event::Recovered(e) && e.pool == pool && e.amount
                == back && e.released == held(o.written_off_pools@, pool) - held(
                after.written_off_pools@,
                pool,
            ) && e.written_off == after.written_off
        },
        held(after.written_off_pools@, other) == held(o.written_off_pools@, other),
        after.role == o.role && after.vault == o.vault && after.caps == o.caps && after.floor_bps
            == o.floor_bps && after.pools == o.pools && after.exposures == o.exposures
            && after.total_allocated == o.total_allocated,
        r is Err ==> after == o,
{
    assert(held(o.written_off_pools@, pool) >= 0);
    assert(held(o.written_off_pools@, other) >= 0);
}

/// A recovery booked against cash already in the vault forgives what a swept
/// one would, and asks nothing of the adapter.
pub proof fn a_booked_recovery_forgives_what_is_booked(
    o: AllocationEngine,
    after: AllocationEngine,
    inv: Invocation,
    admin: Address,
    pool: Address,
    amount: i128,
    vault_admin: Result<Address, InvokeError>,
    r: Result<Receipt<()>, Fault<EngineError>>,
    other: Address,
)
    requires
        o.sound(),
        o.book_recovery_step(after, inv, admin, pool, amount, vault_admin, r),
        other != pool,
    ensures
        r is Ok <==> {
            &&& o.role.admin == Some(admin) && inv.signers@.contains(admin)
            &&& o.pools@.dom().contains(pool)
            &&& o.vault is Some && vault_admin is Ok && vault_admin->Ok_0 == admin
            &&& amount > 0
        },
        r is Ok ==> {
            &&& r->Ok_0.effects.calls@ == seq![
                Call::RecordRecovery { vault: o.vault->0, admin, amount },
            ]
            &&& amount <= held(o.written_off_pools@, pool) ==> held(after.written_off_pools@, pool)
                == held(o.written_off_pools@, pool) - amount
            &&& amount >= held(o.written_off_pools@, pool) ==> held(after.written_off_pools@, pool)
                == 0
            &&& amount <= o.written_off ==> after.written_off == o.written_off - amount
            &&& amount >= o.written_off ==> after.written_off == 0
        },
        held(after.written_off_pools@, other) == held(o.written_off_pools@, other),
        after.role == o.role && after.vault == o.vault && after.caps == o.caps && after.floor_bps
            == o.floor_bps && after.pools == o.pools && after.exposures == o.exposures
            && after.total_allocated == o.total_allocated,
        r is Err ==> after == o,
{
    assert(held(o.written_off_pools@, pool) >= 0);
    assert(held(o.written_off_pools@, other) >= 0);
}

/// A sweep is asked of the pool named, on the engine's own behalf, and of
/// nothing else.
pub proof fn a_sweep_is_asked_of_the_pool(
    o: AllocationEngine,
    inv: Invocation,
    admin: Address,
    pool: Address,
    vault_admin: Result<Address, InvokeError>,
    w: Wiring,
    r: Result<Call, Fault<EngineError>>,
)
    requires
        o.recoverable_step(inv, admin, pool, vault_admin, w, r),
    ensures
        r is Ok <==> {
            &&& o.role.admin == Some(admin) && inv.signers@.contains(admin)
            &&& o.pools@.dom().contains(pool)
            &&& vault_admin is Ok && vault_admin->Ok_0 == admin
            &&& o.adapter_fault(inv, w) is None
        },
        r is Ok ==> r->Ok_0 == (Call::RecoverSurplus { pool, caller: inv.contract }),
{
}

/// A pool is registered once, under the terms given, by the admin, with a cap
/// of no more than the whole book and an adapter wired here.
pub proof fn a_pool_is_registered_on_its_terms(
    o: AllocationEngine,
    after: AllocationEngine,
    inv: Invocation,
    admin: Address,
    pool: Address,
    originator: Symbol,
    jurisdiction: Symbol,
    cap_bps: u32,
    w: Wiring,
    r: Result<Receipt<()>, Fault<EngineError>>,
    other: Address,
)
    requires
        o.register_pool_step(after, inv, admin, pool, originator, jurisdiction, cap_bps, w, r),
        other != pool,
    ensures
        r is Ok <==> {
            &&& o.role.admin == Some(admin) && inv.signers@.contains(admin)
            &&& cap_bps <= 10_000
            &&& !o.pools@.dom().contains(pool)
            &&& o.adapter_fault(inv, w) is None
        },
        r is Ok ==> {
            &&& after.pools@.dom().contains(pool)
            &&& after.pools@[pool].originator == originator
            &&& after.pools@[pool].jurisdiction == jurisdiction
            &&& after.pools@[pool].cap_bps == cap_bps
            &&& r->Ok_0.effects.calls@.len() == 0
        },
        after.pools@.dom().contains(other) == o.pools@.dom().contains(other),
        o.pools@.dom().contains(other) ==> after.pools@[other] == o.pools@[other],
        after == (AllocationEngine { pools: after.pools, ..o }),
        r is Err ==> after == o,
{
}

/// A pool's cap is reset by the admin, on a registered pool, to no more than
/// the whole book, and nothing else of the pool or of any other moves.
pub proof fn a_cap_is_reset_on_one_pool(
    o: AllocationEngine,
    after: AllocationEngine,
    inv: Invocation,
    admin: Address,
    pool: Address,
    cap_bps: u32,
    r: Result<Receipt<()>, Fault<EngineError>>,
    other: Address,
)
    requires
        o.set_pool_cap_step(after, inv, admin, pool, cap_bps, r),
        other != pool,
    ensures
        r is Ok <==> {
            &&& o.role.admin == Some(admin) && inv.signers@.contains(admin)
            &&& cap_bps <= 10_000
            &&& o.pools@.dom().contains(pool)
        },
        r is Ok ==> {
            &&& after.pools@.dom().contains(pool)
            &&& after.pools@[pool].cap_bps == cap_bps
            &&& after.pools@[pool].originator == o.pools@[pool].originator
            &&& after.pools@[pool].jurisdiction == o.pools@[pool].jurisdiction
        },
        after.pools@.dom().contains(other) == o.pools@.dom().contains(other),
        o.pools@.dom().contains(other) ==> after.pools@[other] == o.pools@[other],
        after == (AllocationEngine { pools: after.pools, ..o }),
        r is Err ==> after == o,
{
}

/// A pool is taken off the book by the admin when nothing is out with it, on
/// the engine's books or the adapter's, and no loss is charged to it.
pub proof fn a_pool_leaves_the_book_clean(
    o: AllocationEngine,
    after: AllocationEngine,
    inv: Invocation,
    admin: Address,
    pool: Address,
    adapter_exposure: Result<i128, InvokeError>,
    r: Result<Receipt<()>, Fault<EngineError>>,
    other: Address,
)
    requires
        o.sound(),
        o.unregister_pool_step(after, inv, admin, pool, adapter_exposure, r),
        other != pool,
    ensures
        r is Ok <==> {
            &&& o.role.admin == Some(admin) && inv.signers@.contains(admin)
            &&& o.pools@.dom().contains(pool)
            &&& held(o.exposures@, pool) == 0
            &&& held(o.written_off_pools@, pool) == 0
            &&& adapter_exposure is Ok && adapter_exposure->Ok_0 <= 0
        },
        r is Ok ==> !after.pools@.dom().contains(pool),
        after.pools@.dom().contains(other) == o.pools@.dom().contains(other),
        o.pools@.dom().contains(other) ==> after.pools@[other] == o.pools@[other],
        held(after.exposures@, pool) == held(o.exposures@, pool),
        held(after.exposures@, other) == held(o.exposures@, other),
        held(after.written_off_pools@, other) == held(o.written_off_pools@, other),
        after.total_allocated == o.total_allocated && after.written_off == o.written_off
            && after.caps == o.caps && after.floor_bps == o.floor_bps && after.role == o.role
            && after.vault == o.vault,
        r is Err ==> after == o,
        r == Err::<Receipt<()>, Fault<EngineError>>(Fault::Error(EngineError::PoolHasExposure))
            ==> held(o.exposures@, pool) > 0 || (adapter_exposure is Ok && adapter_exposure->Ok_0
            > 0),
        r == Err::<Receipt<()>, Fault<EngineError>>(
            Fault::Error(EngineError::PoolHasWrittenOffCharge),
        ) ==> held(o.written_off_pools@, pool) > 0,
{
    assert(held(o.exposures@, pool) >= 0);
    assert(held(o.written_off_pools@, pool) >= 0);
}

/// Caps and floor are set by the admin to what was given, none above the whole
/// book, and an engine that was just set up has caps of nothing and a floor of
/// everything.
pub proof fn caps_and_floor_are_what_was_set(
    o: AllocationEngine,
    after: AllocationEngine,
    inv: Invocation,
    admin: Address,
    a: u32,
    b: u32,
    c: u32,
    r: Result<Receipt<()>, Fault<EngineError>>,
)
    ensures
        o.set_caps_step(after, inv, admin, a, b, c, r) ==> {
            &&& r is Ok <==> o.role.admin == Some(admin) && inv.signers@.contains(admin) && a
                <= 10_000 && b <= 10_000 && c <= 10_000
            &&& r is Ok ==> after == (AllocationEngine {
                caps: Caps { pool_bps: a, originator_bps: b, jurisdiction_bps: c },
                ..o
            })
            &&& r is Err ==> after == o
        },
        o.set_reserve_floor_step(after, inv, admin, a, r) ==> {
            &&& r is Ok <==> o.role.admin == Some(admin) && inv.signers@.contains(admin) && a
                <= 10_000
            &&& r is Ok ==> after.floor_bps == a && after == (AllocationEngine {
                floor_bps: a,
                ..o
            })
            &&& r is Err ==> after == o
        },
{
}

/// An engine is pointed at a vault its own admin administers, and only while
/// nothing is out; one set up for the first time has caps of nothing and a
/// floor of the whole base, and is the given admin's.
pub proof fn an_engine_serves_a_vault_of_its_admin(
    o: AllocationEngine,
    after: AllocationEngine,
    inv: Invocation,
    admin: Address,
    vault: Address,
    vault_admin: Result<Address, InvokeError>,
    r: Result<Receipt<()>, Fault<EngineError>>,
)
    ensures
        o.set_vault_step(after, inv, admin, vault, vault_admin, r) ==> {
            &&& r is Ok <==> o.role.admin == Some(admin) && inv.signers@.contains(admin)
                && o.total_allocated <= 0 && vault_admin is Ok && vault_admin->Ok_0 == admin
            &&& r is Ok ==> after == (AllocationEngine { vault: Some(vault), ..o })
            &&& r is Err ==> after == o
        },
        o.__constructor_step(after, inv, admin, vault, vault_admin, r) ==> {
            &&& r is Ok <==> inv.signers@.contains(admin) && vault_admin is Ok
                && vault_admin->Ok_0 == admin
            &&& r is Ok ==> {
                &&& after.role.admin == Some(admin)
                &&& after.vault == Some(vault)
                &&& after.caps.pool_bps == 0 && after.caps.originator_bps == 0
                    && after.caps.jurisdiction_bps == 0
                &&& after.floor_bps == 10_000
                &&& forall|p: Address| !after.pools@.dom().contains(p)
            }
            &&& r is Err ==> after == o
        },
{
}

/// The role changes hands by an offer the admin signed and an acceptance the
/// one it was offered to signed.
pub proof fn the_role_changes_hands(
    o: AllocationEngine,
    after: AllocationEngine,
    inv: Invocation,
    admin: Address,
    next: Address,
    r: Result<Receipt<()>, Fault<EngineError>>,
)
    ensures
        o.propose_admin_step(after, inv, admin, next, r) ==> {
            &&& r is Ok <==> o.role.admin == Some(admin) && inv.signers@.contains(admin)
            &&& r is Ok ==> after.role.admin == o.role.admin && after.role.pending == Some(next)
            &&& after == (AllocationEngine { role: after.role, ..o })
            &&& r is Err ==> after == o
        },
        o.accept_admin_step(after, inv, next, r) ==> {
            &&& r is Ok <==> o.role.pending == Some(next) && inv.signers@.contains(next)
            &&& r is Ok ==> after.role.admin == Some(next) && after.role.pending is None
            &&& after == (AllocationEngine { role: after.role, ..o })
            &&& r is Err ==> after == o
        },
{
}

/// The reserve ratio is the free reserves as a share of the floor base, in
/// basis points, rounded down, and the whole where there is no base.
pub proof fn the_reserve_ratio_is_free_over_base(o: AllocationEngine, free: i128, base: i128)
    requires
        o.vault is Some,
        0 <= free,
        fits(free * 10_000),
    ensures
        ({
            let r = o.get_reserve_ratio_answer(
                Ok::<i128, InvokeError>(free),
                Ok::<i128, InvokeError>(base),
            );
            &&& r is Ok
            &&& base <= 0 ==> r->Ok_0 == 10_000
            &&& 0 < base && free <= base ==> r->Ok_0 * base <= free * 10_000 < (r->Ok_0 + 1) * base
            &&& 0 < base ==> AllocationEngine::ratio(free, base) * base <= free * 10_000 < (
            AllocationEngine::ratio(free, base) + 1) * base
        }),
{
    if base > 0 {
        let x = free * 10_000;
        let d = base as int;
        let q = x / d;
        assert(q >= 0 && q * d <= x < (q + 1) * d) by (nonlinear_arith)
            requires
                q == x / d,
                x >= 0,
                d > 0,
        ;
        if free <= base {
            assert(q <= 10_000) by (nonlinear_arith)
                requires
                    q * d <= x,
                    x <= d * 10_000,
                    d > 0,
            ;
        }
    }
}

/// Every setting that is changed is announced as it now is, asks nothing of
/// any other contract, and keeps the engine alive.
pub proof fn a_setting_is_announced(
    o: AllocationEngine,
    after: AllocationEngine,
    inv: Invocation,
    admin: Address,
    next: Address,
    a: u32,
    b: u32,
    c: u32,
    originator: Symbol,
    jurisdiction: Symbol,
    w: Wiring,
    answer: Result<Address, InvokeError>,
    exposure: Result<i128, InvokeError>,
    d: Receipt<()>,
)
    ensures
        ({
            let r = Ok::<Receipt<()>, Fault<EngineError>>(d);
            let quiet = d.effects.calls@.len() == 0 && d.effects.rent@ == seq![Rent::Instance];
            let events = d.effects.events@;
            &&& o.__constructor_step(after, inv, admin, next, answer, r) ==> quiet && events.len()
                == 0
            &&& o.set_vault_step(after, inv, admin, next, answer, r) ==> quiet && events.len() == 1
                && (events[0] matches Event::VaultRepointed(e) && e.vault == next)
            &&& o.register_pool_step(
                after,
                inv,
                admin,
                next,
                originator,
                jurisdiction,
                a,
                w,
                r,
            ) ==> quiet && events.len() == 1 && (events[0] matches Event::PoolRegistered(e)
                && e.pool == next && e.originator == originator && e.jurisdiction == jurisdiction
                && e.cap_bps == a)
            &&& o.set_pool_cap_step(after, inv, admin, next, a, r) ==> quiet && events.len() == 1
                && (events[0] matches Event::PoolCapSet(e) && e.pool == next && e.cap_bps == a)
            &&& o.unregister_pool_step(after, inv, admin, next, exposure, r) ==> quiet
                && events.len() == 1 && (events[0] matches Event::PoolUnregistered(e) && e.pool
                == next && e.originator == o.pools@[next].originator && e.jurisdiction
                == o.pools@[next].jurisdiction)
            &&& o.set_caps_step(after, inv, admin, a, b, c, r) ==> quiet && events.len() == 1 && (
            events[0] matches Event::CapsUpdated(e) && e.pool_bps == a && e.originator_bps == b
                && e.jurisdiction_bps == c)
            &&& o.set_reserve_floor_step(after, inv, admin, a, r) ==> quiet && events.len() == 1
                && (events[0] matches Event::ReserveFloorUpdated(e) && e.floor_bps == a)
            &&& o.propose_admin_step(after, inv, admin, next, r) ==> quiet && events.len() == 1 && (
            events[0] matches Event::EngineAdminProposed(e) && e.new_admin == next)
            &&& o.accept_admin_step(after, inv, next, r) ==> quiet && events.len() == 1 && (
            events[0] matches Event::EngineAdminChanged(e) && e.admin == next)
        }),
{
}

/// Every movement keeps alive the engine and the books it wrote.
pub proof fn a_movement_keeps_its_books_alive(
    o: AllocationEngine,
    after: AllocationEngine,
    inv: Invocation,
    admin: Address,
    pool: Address,
    amount: i128,
    reason: Symbol,
    w: Wiring,
    answer: Result<Address, InvokeError>,
    x: Result<i128, InvokeError>,
    y: Result<i128, InvokeError>,
    d: Receipt<()>,
    s: Receipt<i128>,
)
    ensures
        o.allocate_step(after, inv, admin, pool, amount, w, x, y, Ok(d)) || o.deallocate_step(
            after,
            inv,
            pool,
            amount,
            w,
            Ok(d),
        ) ==> d.effects.rent@ == seq![
            Rent::Exposure { pool },
            Rent::TotalAllocated,
            Rent::Instance,
        ],
        o.write_down_step(after, inv, admin, pool, amount, reason, answer, Ok(d))
            ==> d.effects.rent@ == seq![
            Rent::Exposure { pool },
            Rent::TotalAllocated,
            Rent::WrittenOff,
            Rent::WrittenOffPool { pool },
            Rent::Instance,
        ],
        o.recover_step(after, inv, admin, pool, answer, w, x, Ok(s)) ==> s.effects.rent@ == seq![
            Rent::WrittenOffPool { pool },
            Rent::WrittenOff,
            Rent::Instance,
        ],
        o.book_recovery_step(after, inv, admin, pool, amount, answer, Ok(d)) ==> {
            &&& d.effects.rent@ == seq![
                Rent::WrittenOffPool { pool },
                Rent::WrittenOff,
                Rent::Instance,
            ]
            &&& d.effects.events@.len() == 1
            &&& d.effects.events@[0] matches Event::Recovered(e) && e.pool == pool && e.amount
                == amount
        },
{
}

/// Each refusal of a setting names what stands against it.
pub proof fn a_setting_is_refused_for_the_reason_named(
    o: AllocationEngine,
    inv: Invocation,
    admin: Address,
    pool: Address,
    bps: u32,
    caps: Caps,
    w: Wiring,
    answer: Result<Address, InvokeError>,
    reading: Result<i128, InvokeError>,
)
    ensures
        AllocationEngine::constructor_fault(inv, admin, answer) matches Some(f) ==> match f {
            Fault::Trap(Trap::Unauthorized) => !inv.signers@.contains(admin),
            Fault::Error(EngineError::VaultMismatch) => answer is Err || answer->Ok_0 != admin,
            _ => false,
        },
        o.set_vault_fault(inv, admin, answer) matches Some(f) ==> match f {
            Fault::Error(EngineError::NotInitialized) => o.role.admin is None,
            Fault::Error(EngineError::NotAdmin) => o.role.admin is Some
                && o.role.admin != Some(admin),
            Fault::Trap(Trap::Unauthorized) => o.role.admin == Some(admin)
                && !inv.signers@.contains(admin),
            Fault::Error(EngineError::CapitalDeployed) => o.total_allocated > 0,
            Fault::Error(EngineError::VaultMismatch) => answer is Err || answer->Ok_0 != admin,
            _ => false,
        },
        o.register_pool_fault(inv, admin, pool, bps, w) matches Some(f) ==> match f {
            Fault::Error(EngineError::NotInitialized) => (o.role.admin is None)
                || (o.vault is None),
            Fault::Error(EngineError::NotAdmin) => o.role.admin is Some
                && o.role.admin != Some(admin),
            Fault::Trap(Trap::Unauthorized) => o.role.admin == Some(admin)
                && !inv.signers@.contains(admin),
            Fault::Error(EngineError::InvalidCap) => bps > 10_000,
            Fault::Error(EngineError::PoolAlreadyRegistered) => o.pools@.dom().contains(pool),
            Fault::Error(EngineError::AdapterMismatch) => o.adapter_fault(inv, w) is Some,
            _ => false,
        },
        o.set_pool_cap_fault(inv, admin, pool, bps) matches Some(f) ==> match f {
            Fault::Error(EngineError::NotInitialized) => o.role.admin is None,
            Fault::Error(EngineError::NotAdmin) => o.role.admin is Some
                && o.role.admin != Some(admin),
            Fault::Trap(Trap::Unauthorized) => o.role.admin == Some(admin)
                && !inv.signers@.contains(admin),
            Fault::Error(EngineError::InvalidCap) => bps > 10_000,
            Fault::Error(EngineError::PoolNotRegistered) => !o.pools@.dom().contains(pool),
            _ => false,
        },
        o.set_caps_fault(inv, admin, caps) matches Some(f) ==> match f {
            Fault::Error(EngineError::NotInitialized) => o.role.admin is None,
            Fault::Error(EngineError::NotAdmin) => o.role.admin is Some
                && o.role.admin != Some(admin),
            Fault::Trap(Trap::Unauthorized) => o.role.admin == Some(admin)
                && !inv.signers@.contains(admin),
            Fault::Error(EngineError::InvalidCap) => caps.pool_bps > 10_000
                || caps.originator_bps > 10_000 || caps.jurisdiction_bps > 10_000,
            _ => false,
        },
        o.set_reserve_floor_fault(inv, admin, bps) matches Some(f) ==> match f {
            Fault::Error(EngineError::NotInitialized) => o.role.admin is None,
            Fault::Error(EngineError::NotAdmin) => o.role.admin is Some
                && o.role.admin != Some(admin),
            Fault::Trap(Trap::Unauthorized) => o.role.admin == Some(admin)
                && !inv.signers@.contains(admin),
            Fault::Error(EngineError::InvalidCap) => bps > 10_000,
            _ => false,
        },
        o.unregister_pool_fault(inv, admin, pool, reading) matches Some(f) ==> match f {
            Fault::Error(EngineError::NotInitialized) => o.role.admin is None,
            Fault::Error(EngineError::NotAdmin) => o.role.admin is Some
                && o.role.admin != Some(admin),
            Fault::Trap(Trap::Unauthorized) => o.role.admin == Some(admin)
                && !inv.signers@.contains(admin),
            Fault::Error(EngineError::PoolNotRegistered) => !o.pools@.dom().contains(pool),
            Fault::Error(EngineError::PoolHasExposure) => (held(o.exposures@, pool) > 0
                || (reading is Ok && reading->Ok_0 > 0)),
            Fault::Trap(Trap::Callee(e)) => reading is Err && reading->Err_0 == e,
            Fault::Error(EngineError::PoolHasWrittenOffCharge) => held(
                o.written_off_pools@,
                pool,
            ) > 0,
            _ => false,
        },
{
}

/// Each refusal of a movement names what stands against it.
pub proof fn a_movement_is_refused_for_the_reason_named(
    o: AllocationEngine,
    inv: Invocation,
    admin: Address,
    pool: Address,
    amount: i128,
    w: Wiring,
    answer: Result<Address, InvokeError>,
    reading: Result<i128, InvokeError>,
)
    requires
        o.sound(),
    ensures
        o.deallocate_fault(inv, pool, amount, w) matches Some(f) ==> match f {
            Fault::Error(EngineError::NotInitialized) => (o.role.admin is None)
                || (o.vault is None),
            Fault::Trap(Trap::Unauthorized) => o.role.admin is Some
                && !inv.signers@.contains(o.role.admin->0),
            Fault::Error(EngineError::InvalidAmount) => amount <= 0,
            Fault::Error(EngineError::PoolNotRegistered) => !o.pools@.dom().contains(pool),
            Fault::Error(EngineError::AdapterMismatch) => o.adapter_fault(inv, w) is Some,
            Fault::Error(EngineError::ExposureUnderflow) => amount > held(o.exposures@, pool),
            Fault::Trap(Trap::Overflow) => !fits(o.total_allocated - amount),
            _ => false,
        },
        o.write_down_fault(inv, admin, pool, amount, answer) matches Some(f) ==> match f {
            Fault::Error(EngineError::NotInitialized) => (o.role.admin is None)
                || (o.vault is None),
            Fault::Error(EngineError::NotAdmin) => o.role.admin is Some
                && o.role.admin != Some(admin),
            Fault::Trap(Trap::Unauthorized) => o.role.admin == Some(admin)
                && !inv.signers@.contains(admin),
            Fault::Error(EngineError::AdminMismatch) => answer is Ok && answer->Ok_0 != admin,
            Fault::Trap(Trap::Callee(e)) => answer is Err && answer->Err_0 == e,
            Fault::Error(EngineError::InvalidAmount) => amount <= 0,
            Fault::Error(EngineError::PoolNotRegistered) => !o.pools@.dom().contains(pool),
            Fault::Error(EngineError::WriteDownExceedsExposure) => amount > held(
                o.exposures@,
                pool,
            ),
            Fault::Trap(Trap::Overflow) => !fits(o.total_allocated - amount)
                || !fits(o.written_off + amount)
                || !fits(held(o.written_off_pools@, pool) + amount),
            _ => false,
        },
        o.recoverable_fault(inv, admin, pool, answer, w) matches Some(f) ==> match f {
            Fault::Error(EngineError::NotInitialized) => (o.role.admin is None)
                || (o.vault is None) || (o.vault is None),
            Fault::Error(EngineError::NotAdmin) => o.role.admin is Some
                && o.role.admin != Some(admin),
            Fault::Trap(Trap::Unauthorized) => o.role.admin == Some(admin)
                && !inv.signers@.contains(admin),
            Fault::Error(EngineError::PoolNotRegistered) => !o.pools@.dom().contains(pool),
            Fault::Error(EngineError::AdminMismatch) => answer is Ok && answer->Ok_0 != admin,
            Fault::Trap(Trap::Callee(e)) => answer is Err && answer->Err_0 == e,
            Fault::Error(EngineError::AdapterMismatch) => o.adapter_fault(inv, w) is Some,
            _ => false,
        },
        o.recover_fault(inv, admin, pool, answer, w, reading) matches Some(f) ==> match f {
            Fault::Error(EngineError::NotInitialized) => ((o.role.admin is None)
                || (o.vault is None) || (o.vault is None)),
            Fault::Error(EngineError::NotAdmin) => o.role.admin is Some
                && o.role.admin != Some(admin),
            Fault::Trap(Trap::Unauthorized) => o.role.admin == Some(admin)
                && !inv.signers@.contains(admin),
            Fault::Error(EngineError::PoolNotRegistered) => !o.pools@.dom().contains(pool),
            Fault::Error(EngineError::AdminMismatch) => answer is Ok && answer->Ok_0 != admin,
            Fault::Trap(Trap::Callee(e)) => (answer is Err && answer->Err_0 == e)
                || (reading is Err && reading->Err_0 == e),
            Fault::Error(EngineError::AdapterMismatch) => o.adapter_fault(inv, w) is Some,
            Fault::Trap(Trap::Overflow) => reading is Ok && reading->Ok_0 < 0,
            _ => false,
        },
        o.book_recovery_fault(inv, admin, pool, amount, answer) matches Some(f) ==> match f {
            Fault::Error(EngineError::NotInitialized) => (o.role.admin is None)
                || (o.vault is None),
            Fault::Error(EngineError::NotAdmin) => o.role.admin is Some
                && o.role.admin != Some(admin),
            Fault::Trap(Trap::Unauthorized) => o.role.admin == Some(admin)
                && !inv.signers@.contains(admin),
            Fault::Error(EngineError::InvalidAmount) => amount <= 0,
            Fault::Error(EngineError::PoolNotRegistered) => !o.pools@.dom().contains(pool),
            Fault::Error(EngineError::AdminMismatch) => answer is Ok && answer->Ok_0 != admin,
            Fault::Trap(Trap::Callee(e)) => answer is Err && answer->Err_0 == e,
            _ => false,
        },
        o.aligned(answer) <==> o.vault is Some && o.role.admin is Some && answer is Ok
            && answer->Ok_0 == o.role.admin->0,
{
    assert(held(o.written_off_pools@, pool) >= 0);
}

/// An allocation is refused for the reason named, and one that is not refused
/// keeps every limit, with every amount in range.
pub proof fn an_allocation_is_refused_for_the_reason_named(
    o: AllocationEngine,
    inv: Invocation,
    admin: Address,
    pool: Address,
    amount: i128,
    w: Wiring,
    free: Result<i128, InvokeError>,
    base: Result<i128, InvokeError>,
)
    requires
        o.sound(),
        ordered(o.pools.listing()),
    ensures
        ({
            let terms = o.pools@[pool];
            let charged = held(o.exposures@, pool) + held(o.written_off_pools@, pool);
            let by_originator = o.charged_group(Group::Originator(terms.originator));
            let by_jurisdiction = o.charged_group(Group::Jurisdiction(terms.jurisdiction));
            let book = free->Ok_0 + o.total_allocated;
            let in_range = {
                &&& fits(book)
                &&& fits(o.total_allocated + amount)
                &&& fits((charged + amount) * 10_000)
                &&& fits((by_originator + amount) * 10_000)
                &&& fits((by_jurisdiction + amount) * 10_000)
                &&& fits(o.pools@[pool].cap_bps * book) || fits(o.caps.pool_bps * book)
                &&& fits(o.caps.originator_bps * book)
                &&& fits(o.caps.jurisdiction_bps * book)
                &&& fits((free->Ok_0 - amount) * 10_000)
                &&& fits(o.floor_bps * base->Ok_0)
            };
            match o.allocate_fault(inv, admin, pool, amount, w, free, base) {
                None => {
                    &&& free is Ok && base is Ok
                    &&& in_range
                    &&& (charged + amount) * 10_000 <= terms.cap_bps * book
                    &&& (charged + amount) * 10_000 <= o.caps.pool_bps * book
                    &&& (by_originator + amount) * 10_000 <= o.caps.originator_bps * book
                    &&& (by_jurisdiction + amount) * 10_000 <= o.caps.jurisdiction_bps * book
                    &&& o.floor_bps * base->Ok_0 <= (free->Ok_0 - amount) * 10_000
                },
                Some(f) => match f {
                    Fault::Error(EngineError::NotInitialized) => (o.role.admin is None)
                        || (o.vault is None),
                    Fault::Error(EngineError::NotAdmin) => o.role.admin is Some
                        && o.role.admin != Some(admin),
                    Fault::Trap(Trap::Unauthorized) => o.role.admin == Some(admin)
                        && !inv.signers@.contains(admin),
                    Fault::Error(EngineError::InvalidAmount) => amount <= 0,
                    Fault::Error(EngineError::PoolNotRegistered) => !o.pools@.dom().contains(pool),
                    Fault::Error(EngineError::AdapterMismatch) => o.adapter_fault(inv, w) is Some,
                    Fault::Trap(Trap::Callee(e)) => ((free is Err && free->Err_0 == e)
                        || (base is Err && base->Err_0 == e)),
                    Fault::Error(EngineError::InsufficientReserves) => free is Ok
                        && amount > free->Ok_0,
                    Fault::Trap(Trap::Overflow) => free is Ok && (base is Err || !in_range
                        || !fits(o.pools@[pool].cap_bps * book) || !fits(o.caps.pool_bps * book)),
                    Fault::Error(EngineError::PoolCapExceeded) => true,
                    Fault::Error(EngineError::OriginatorCapExceeded) => true,
                    Fault::Error(EngineError::JurisdictionCapExceeded) => true,
                    Fault::Error(EngineError::ReserveFloorBreached) => true,
                    _ => false,
                },
            }
        }),
{
    let terms = o.pools@[pool];
    lemma_walk_is_the_sum(o, Group::Originator(terms.originator));
    lemma_walk_is_the_sum(o, Group::Jurisdiction(terms.jurisdiction));
    assert(held(o.exposures@, pool) >= 0);
    assert(held(o.written_off_pools@, pool) >= 0);
    o.total_covers_every_exposure(pool);
    if free is Ok && free->Ok_0 >= 0 {
        let book = free->Ok_0 + o.total_allocated;
        let c = o.pool_cap(pool);
        let x = terms.cap_bps as int;
        let y = o.caps.pool_bps as int;
        assert(c * book <= x * book && c * book <= y * book) by (nonlinear_arith)
            requires
                c <= x,
                c <= y,
                book >= 0,
        ;
    }
}

/// A handover is refused for the reason named.
pub proof fn a_handover_is_refused_for_the_reason_named(
    o: AllocationEngine,
    after: AllocationEngine,
    inv: Invocation,
    admin: Address,
    next: Address,
    f: Fault<EngineError>,
)
    ensures
        o.propose_admin_step(after, inv, admin, next, Err(f)) ==> match f {
            Fault::Error(EngineError::NotInitialized) => o.role.admin is None,
            Fault::Error(EngineError::NotAdmin) => o.role.admin is Some
                && o.role.admin != Some(admin),
            Fault::Trap(Trap::Unauthorized) => o.role.admin == Some(admin)
                && !inv.signers@.contains(admin),
            _ => false,
        },
        o.accept_admin_step(after, inv, next, Err(f)) ==> match f {
            Fault::Error(EngineError::NoPendingAdmin) => o.role.pending is None,
            Fault::Error(EngineError::NotPendingAdmin) => o.role.pending is Some
                && o.role.pending != Some(next),
            Fault::Trap(Trap::Unauthorized) => o.role.pending == Some(next)
                && !inv.signers@.contains(next),
            _ => false,
        },
{
}

} // verus!
