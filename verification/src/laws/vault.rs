//! Laws of the vault.

use crate::address::{Address, Symbol};
use crate::host::{Call, Event, Fault, InvokeError, Invocation, Receipt, Rent, Trap};
use crate::math::fits;
use crate::table::total;
use crate::vault::{stepped_over, unpaid, Claim, ClaimStatus, Vault, VaultError};
use vstd::prelude::*;

verus! {

/// Only the admin may act as the admin, and only signed; only the engine may
/// move the deployed book, and only signed.
pub proof fn an_admin_call_is_the_admins(v: Vault, inv: Invocation, admin: Address)
    ensures
        v.admin_fault(inv, admin) is None <==> v.role.admin == Some(admin)
            && inv.signers@.contains(admin),
        v.admin_fault(inv, admin) == Some(Fault::<VaultError>::Error(VaultError::NotInitialized))
            <==> v.role.admin is None,
        v.admin_fault(inv, admin) == Some(Fault::<VaultError>::Error(VaultError::NotAdmin))
            <==> v.role.admin is Some && v.role.admin != Some(admin),
        v.admin_fault(inv, admin) == Some(Fault::<VaultError>::Trap(Trap::Unauthorized))
            <==> v.role.admin == Some(admin) && !inv.signers@.contains(admin),
        v.engine_fault(inv) is None <==> v.engine is Some && inv.signers@.contains(v.engine->0),
        v.engine_fault(inv) == Some(Fault::<VaultError>::Error(VaultError::NotInitialized))
            <==> v.engine is None,
{
}

/// What is free is what is held and not owed to the queue; the floor base adds
/// what is out and what was lost, so that a loss does not shrink it.
pub proof fn what_is_free_and_what_it_is_a_share_of(v: Vault, balance: i128)
    requires
        v.usdc is Some,
    ensures
        v.idle(balance) == balance,
        balance >= v.queued ==> v.free(balance) == balance - v.queued,
        balance <= v.queued ==> v.free(balance) == 0,
        balance - v.queued + v.deployed + v.written_off >= 0 ==> v.base(balance) == balance
            - v.queued + v.deployed + v.written_off,
        balance - v.queued + v.deployed + v.written_off <= 0 ==> v.base(balance) == 0,
        v.backed(balance) <==> v.booked <= balance,
        v.floor_stands(balance) <==> v.floor_bps * v.base(balance) <= v.free(balance) * 10_000,
{
}

/// A vault that knows no token holds nothing of it.
pub proof fn without_a_token_nothing_is_held(v: Vault, balance: i128)
    requires
        v.usdc is None,
    ensures
        v.idle(balance) == 0,
{
}

/// What is owed is the sum of the claims not yet paid.
pub proof fn what_is_owed_is_every_unpaid_claim(
    claims: Map<u64, Claim>,
    deferred: Map<u64, bool>,
    id: u64,
)
    ensures
        unpaid(claims) == total(
            claims,
            |i: u64, c: Claim|
                if !c.claimed {
                    c.amount as int
                } else {
                    0
                },
        ),
        stepped_over(deferred, id) <==> deferred.dom().contains(id) && deferred[id],
{
    let f = |i: u64, c: Claim|
        if c.claimed {
            0
        } else {
            c.amount as int
        };
    let g = |i: u64, c: Claim|
        if !c.claimed {
            c.amount as int
        } else {
            0
        };
    assert(f =~= g);
}

/// What the vault says it holds: the free reserves, all it holds and has out,
/// what of that is not owed to the queue, and the floor base.
pub proof fn the_vault_says_what_it_has(v: Vault, balance: i128)
    requires
        v.usdc is Some,
        v.engine is Some,
        0 <= balance,
        0 <= v.queued,
        0 <= v.deployed,
        0 <= v.written_off,
        balance + v.deployed + v.written_off <= i128::MAX,
    ensures
        v.free_reserves_answer(balance) == Ok::<i128, Trap>(
            (if balance > v.queued {
                balance - v.queued
            } else {
                0
            }) as i128,
        ),
        v.get_total_assets_answer(balance) == Ok::<i128, Fault<VaultError>>(
            (balance + v.deployed) as i128,
        ),
        v.get_net_assets_answer(balance) == Ok::<i128, Fault<VaultError>>(
            ((if balance > v.queued {
                balance - v.queued
            } else {
                0
            }) + v.deployed) as i128,
        ),
        v.floor_base_answer(balance) == Ok::<i128, Fault<VaultError>>(
            (if balance + v.deployed + v.written_off > v.queued {
                balance - v.queued + v.deployed + v.written_off
            } else {
                0
            }) as i128,
        ),
{
}

/// What the vault says it holds is said whenever it can be, and never out of
/// range.
pub proof fn the_vault_says_only_what_is_in_range(v: Vault, balance: i128)
    ensures
        ({
            let loose = v.idle(balance) - v.queued;
            &&& v.free_reserves_answer(balance) is Ok <==> fits(loose)
            &&& v.get_total_assets_answer(balance) is Ok <==> v.engine is Some && fits(
                v.idle(balance) + v.deployed,
            )
            &&& v.get_net_assets_answer(balance) is Ok <==> v.engine is Some && fits(loose)
                && fits(v.free(balance) + v.deployed)
            &&& v.floor_base_answer(balance) is Ok <==> v.engine is Some && fits(loose) && fits(
                loose + v.deployed,
            ) && fits(loose + v.deployed + v.written_off)
        }),
{
}

/// A vault without an engine has no book to report, and one without an oracle
/// no value; where there is one, its reading is handed on as it came.
pub proof fn a_vault_reports_only_what_it_is_wired_to(
    v: Vault,
    balance: i128,
    reading: Result<i128, InvokeError>,
)
    ensures
        v.engine is None ==> v.get_total_assets_answer(balance) is Err && v.get_net_assets_answer(
            balance,
        ) is Err && v.floor_base_answer(balance) is Err,
        v.get_nav_answer(reading) is Ok <==> v.oracle is Some && v.oracle_feed is Some && reading
            is Ok,
        v.get_nav_answer(reading) is Ok ==> v.get_nav_answer(reading)->Ok_0 == reading->Ok_0,
{
}

/// A deposit takes the depositor's signature, while the vault is not paused,
/// pulls exactly the amount of USDC and mints exactly as much.
pub proof fn a_deposit_mints_what_it_takes(
    v: Vault,
    after: Vault,
    inv: Invocation,
    from: Address,
    amount: i128,
    r: Result<Receipt<i128>, Fault<VaultError>>,
)
    requires
        v.deposit_step(after, inv, from, amount, r),
    ensures
        r is Ok <==> {
            &&& !v.paused
            &&& inv.signers@.contains(from)
            &&& amount > 0
            &&& v.usdc is Some && v.agusd is Some
            &&& v.deposits < u64::MAX
            &&& v.booked + amount <= i128::MAX
        },
        r is Ok ==> {
            &&& r->Ok_0.value == amount
            &&& after.booked == v.booked + amount
            &&& after.deposits == v.deposits + 1
            &&& r->Ok_0.effects.calls@ == seq![
                Call::Transfer { token: v.usdc->0, from, to: inv.contract, amount },
                Call::Mint { token: v.agusd->0, to: from, amount },
            ]
            &&& r->Ok_0.effects.events@.len() == 1
            &&& r->Ok_0.effects.events@[0] matches Event::Deposit(e) && e.user == from && e.amount
                == amount && e.minted == amount
        },
        after == (Vault { booked: after.booked, deposits: after.deposits, ..v }),
        r is Err ==> after == v,
        r == Err::<Receipt<i128>, Fault<VaultError>>(Fault::Error(VaultError::Paused))
            <==> v.paused,
        r == Err::<Receipt<i128>, Fault<VaultError>>(Fault::Error(VaultError::InvalidAmount))
            ==> amount <= 0,
{
}

/// A request takes the owner's signature and at least one whole unit, burns
/// exactly the amount, and puts a claim of it at the end of the queue.
pub proof fn a_request_joins_the_end_of_the_queue(
    v: Vault,
    after: Vault,
    inv: Invocation,
    from: Address,
    amount: i128,
    r: Result<Receipt<u64>, Fault<VaultError>>,
    other: u64,
)
    requires
        v.sound(),
        v.request_withdrawal_step(after, inv, from, amount, r),
        other != v.queue_tail,
    ensures
        r is Ok <==> {
            &&& !v.paused
            &&& inv.signers@.contains(from)
            &&& amount >= 10_000_000
            &&& v.agusd is Some
            &&& v.queue_tail < u64::MAX
            &&& v.queued + amount <= i128::MAX
        },
        r is Ok ==> {
            let id = v.queue_tail;
            &&& r->Ok_0.value == id
            &&& !v.claims@.dom().contains(id)
            &&& after.claims@.dom().contains(id)
            &&& after.claims@[id].owner == from
            &&& after.claims@[id].amount == amount
            &&& after.claims@[id].requested_at == inv.timestamp
            &&& !after.claims@[id].claimed
            &&& after.queue_tail == v.queue_tail + 1
            &&& after.queue_head == v.queue_head
            &&& after.queued == v.queued + amount
            &&& r->Ok_0.effects.calls@ == seq![Call::Burn { token: v.agusd->0, from, amount }]
            &&& r->Ok_0.effects.events@.len() == 1
            &&& r->Ok_0.effects.events@[0] matches Event::WithdrawalRequested(e) && e.user == from
                && e.claim_id == id && e.amount == amount && e.queue_position == id - v.queue_head
        },
        after.claims@.dom().contains(other) == v.claims@.dom().contains(other),
        v.claims@.dom().contains(other) ==> after.claims@[other] == v.claims@[other],
        after == (Vault {
            claims: after.claims,
            queue_tail: after.queue_tail,
            queued: after.queued,
            ..v
        }),
        r is Err ==> after == v,
        r == Err::<Receipt<u64>, Fault<VaultError>>(Fault::Error(VaultError::Paused)) <==> v.paused,
        r == Err::<Receipt<u64>, Fault<VaultError>>(Fault::Error(VaultError::InvalidAmount))
            ==> amount <= 0,
        r == Err::<Receipt<u64>, Fault<VaultError>>(Fault::Error(VaultError::BelowMinWithdrawal))
            ==> 0 < amount < 10_000_000,
{
    v.queued_is_not_negative();
}

/// A claim is collected by its owner, once, when it is at the head of the queue
/// or was stepped over, and when what is held covers it; the owner is paid the
/// amount it was made for.
pub proof fn a_claim_is_collected_by_its_owner(
    v: Vault,
    inv: Invocation,
    from: Address,
    id: u64,
    balance: i128,
    r: Result<Call, Fault<VaultError>>,
)
    requires
        v.collectable_step(inv, from, id, balance, r),
    ensures
        r is Ok <==> {
            &&& inv.signers@.contains(from)
            &&& v.claims@.dom().contains(id)
            &&& v.claims@[id].owner == from
            &&& !v.claims@[id].claimed
            &&& id == v.queue_head || (v.deferred@.dom().contains(id) && v.deferred@[id])
            &&& v.usdc is Some
            &&& v.claims@[id].amount <= balance
        },
        r is Ok ==> r->Ok_0 == (Call::Transfer {
            token: v.usdc->0,
            from: inv.contract,
            to: v.claims@[id].owner,
            amount: v.claims@[id].amount,
        }),
        r == Err::<Call, Fault<VaultError>>(Fault::Error(VaultError::ClaimNotFound))
            ==> !v.claims@.dom().contains(id),
        r == Err::<Call, Fault<VaultError>>(Fault::Error(VaultError::NotClaimOwner))
            ==> v.claims@[id].owner != from,
        r == Err::<Call, Fault<VaultError>>(Fault::Error(VaultError::AlreadyClaimed))
            ==> v.claims@[id].claimed,
        r == Err::<Call, Fault<VaultError>>(Fault::Error(VaultError::NotAtQueueHead)) ==> id
            != v.queue_head && !(v.deferred@.dom().contains(id) && v.deferred@[id]),
        r == Err::<Call, Fault<VaultError>>(Fault::Error(VaultError::InsufficientLiquidity))
            ==> v.idle(balance) < v.claims@[id].amount,
        r == Err::<Call, Fault<VaultError>>(Fault::Trap(Trap::Unauthorized))
            <==> !inv.signers@.contains(from),
{
}

/// Collecting a claim takes it off what is owed and off what is booked, marks
/// it paid, and moves the queue on past it if it was at its head; it leaves
/// every other claim alone. A payment that was turned away changes nothing.
pub proof fn a_collected_claim_is_paid_off(
    v: Vault,
    after: Vault,
    inv: Invocation,
    from: Address,
    id: u64,
    balance: i128,
    delivered: bool,
    r: Result<Receipt<()>, Fault<VaultError>>,
    other: u64,
)
    requires
        v.sound(),
        v.claim_withdrawal_step(after, inv, from, id, balance, delivered, r),
        other != id,
    ensures
        r is Ok <==> {
            &&& v.collectable_fault(inv, from, id, balance) is None
            &&& delivered
            &&& v.booked - v.claims@[id].amount >= i128::MIN
        },
        r is Ok ==> {
            let amount = v.claims@[id].amount;
            &&& after.claims@.dom().contains(id)
            &&& after.claims@[id].claimed
            &&& after.claims@[id].owner == v.claims@[id].owner
            &&& after.claims@[id].amount == amount
            &&& after.queued == v.queued - amount
            &&& after.booked == v.booked - amount
            &&& !stepped_over(after.deferred@, id)
            &&& after.queue_head == (if id == v.queue_head {
                v.queue_head + 1
            } else {
                v.queue_head as int
            })
            &&& r->Ok_0.effects.events@.len() == 1
            &&& r->Ok_0.effects.events@[0] matches Event::WithdrawalClaimed(e) && e.user == from
                && e.claim_id == id && e.amount == amount
        },
        after.claims@.dom().contains(other) == v.claims@.dom().contains(other),
        v.claims@.dom().contains(other) ==> after.claims@[other] == v.claims@[other],
        stepped_over(after.deferred@, other) == stepped_over(v.deferred@, other),
        after.queue_tail == v.queue_tail && after.deployed == v.deployed && after.written_off
            == v.written_off && after.deposits == v.deposits && after.floor_bps == v.floor_bps
            && after.paused == v.paused && after.role == v.role && after.usdc == v.usdc
            && after.agusd == v.agusd && after.engine == v.engine && after.oracle == v.oracle
            && after.oracle_feed == v.oracle_feed,
        r is Err ==> after == v,
{
    v.queued_is_not_negative();
    if v.claims@.dom().contains(id) && !v.claims@[id].claimed {
        v.queue_covers_a_claim(id);
    }
    assert(v.claims@.dom().contains(id) ==> id < v.queue_tail);
    assert(stepped_over(v.deferred@, id) ==> id < v.queue_head);
    assert(v.claims@.dom().contains(id) ==> v.claims@[id].amount >= 0);
}

/// Anyone may settle the claim at the head of the queue, to its owner, once
/// what is held covers it. One that is delivered is paid off; one that is
/// turned away is stepped over, and stays owed. Either way the queue moves on
/// by one.
pub proof fn the_head_of_the_queue_is_settled(
    v: Vault,
    after: Vault,
    inv: Invocation,
    balance: i128,
    delivered: bool,
    r: Result<Receipt<u64>, Fault<VaultError>>,
    other: u64,
)
    requires
        v.sound(),
        v.settle_withdrawal_step(after, inv, balance, delivered, r),
        other != v.queue_head,
    ensures
        r is Ok <==> {
            &&& v.queue_head < v.queue_tail
            &&& v.usdc is Some
            &&& v.claims@[v.queue_head].amount <= balance
            &&& delivered ==> v.booked - v.claims@[v.queue_head].amount >= i128::MIN
        },
        r is Ok ==> {
            let id = v.queue_head;
            let claim = v.claims@[id];
            &&& r->Ok_0.value == id
            &&& after.queue_head == id + 1
            &&& delivered ==> {
                &&& after.claims@[id].claimed
                &&& after.queued == v.queued - claim.amount
                &&& after.booked == v.booked - claim.amount
                &&& after.deferred == v.deferred
                &&& r->Ok_0.effects.events@.len() == 1
                &&& r->Ok_0.effects.events@[0] matches Event::WithdrawalClaimed(e) && e.user
                    == claim.owner && e.claim_id == id && e.amount == claim.amount
            }
            &&& !delivered ==> {
                &&& after.claims == v.claims
                &&& stepped_over(after.deferred@, id)
                &&& after.queued == v.queued
                &&& after.booked == v.booked
                &&& r->Ok_0.effects.events@.len() == 1
                &&& r->Ok_0.effects.events@[0] matches Event::WithdrawalDeferred(e) && e.user
                    == claim.owner && e.claim_id == id && e.amount == claim.amount
            }
        },
        v.claims@.dom().contains(other) ==> after.claims@[other] == v.claims@[other],
        stepped_over(after.deferred@, other) == stepped_over(v.deferred@, other),
        after.queue_tail == v.queue_tail && after.deployed == v.deployed && after.written_off
            == v.written_off && after.deposits == v.deposits && after.floor_bps == v.floor_bps
            && after.paused == v.paused && after.role == v.role && after.usdc == v.usdc
            && after.agusd == v.agusd && after.engine == v.engine,
        r is Err ==> after == v,
        r == Err::<Receipt<u64>, Fault<VaultError>>(Fault::Error(VaultError::QueueEmpty))
            <==> v.queue_head == v.queue_tail,
        r == Err::<Receipt<u64>, Fault<VaultError>>(Fault::Error(VaultError::InsufficientLiquidity))
            ==> v.idle(balance) < v.claims@[v.queue_head].amount,
{
    v.queued_is_not_negative();
    assert(v.claims@.dom().contains(v.queue_head) <==> 1 <= v.queue_head < v.queue_tail);
    if v.queue_head < v.queue_tail {
        assert(!v.claims@[v.queue_head].claimed);
        assert(v.claims@[v.queue_head].amount >= 10_000_000);
        v.queue_covers_a_claim(v.queue_head);
    }
}

/// The next payment that is due is that of the claim at the head of the queue,
/// to its owner, of its amount, out of the vault.
pub proof fn the_next_payment_is_the_heads(
    v: Vault,
    inv: Invocation,
    balance: i128,
    r: Result<Call, Fault<VaultError>>,
)
    requires
        v.sound(),
        v.next_due_step(inv, balance, r),
    ensures
        r is Ok <==> v.queue_head < v.queue_tail && v.usdc is Some
            && v.claims@[v.queue_head].amount <= balance,
        r is Ok ==> r->Ok_0 == (Call::Transfer {
            token: v.usdc->0,
            from: inv.contract,
            to: v.claims@[v.queue_head].owner,
            amount: v.claims@[v.queue_head].amount,
        }),
{
    assert(v.claims@.dom().contains(v.queue_head) <==> 1 <= v.queue_head < v.queue_tail);
    if v.queue_head < v.queue_tail {
        assert(!v.claims@[v.queue_head].claimed);
        assert(v.claims@[v.queue_head].amount >= 10_000_000);
    }
}

/// Capital is released to a pool at the engine's signature, while the vault is
/// not paused, out of what is held and not owed to the queue, and only if what
/// is then left is no less of the floor base than the floor. The pool is paid
/// exactly the amount, which is booked as out and no longer as held.
pub proof fn a_release_keeps_the_queue_and_the_floor(
    v: Vault,
    after: Vault,
    inv: Invocation,
    pool: Address,
    amount: i128,
    balance: i128,
    r: Result<Receipt<()>, Fault<VaultError>>,
)
    requires
        v.queued >= 0,
        v.deployed >= 0,
        v.written_off >= 0,
        v.settle_allocation_step(after, inv, pool, amount, balance, r),
    ensures
        r is Ok ==> {
            &&& v.engine is Some && inv.signers@.contains(v.engine->0)
            &&& !v.paused
            &&& v.usdc is Some
            &&& 0 < amount <= balance - v.queued
            &&& v.floor_bps * (balance - v.queued + v.deployed + v.written_off) <= (balance
                - v.queued - amount) * 10_000
            &&& after.deployed == v.deployed + amount
            &&& after.booked == v.booked - amount
            &&& r->Ok_0.effects.calls@ == seq![
                Call::Transfer { token: v.usdc->0, from: inv.contract, to: pool, amount },
            ]
        },
        after == (Vault { deployed: after.deployed, booked: after.booked, ..v }),
        r is Err ==> after == v,
{
}

/// A release that keeps the queue and the floor is granted, as long as the
/// amounts stay in range; and a refusal names what stands against it.
pub proof fn a_release_within_the_floor_is_granted(
    v: Vault,
    after: Vault,
    inv: Invocation,
    pool: Address,
    amount: i128,
    balance: i128,
    r: Result<Receipt<()>, Fault<VaultError>>,
)
    requires
        v.queued >= 0,
        v.deployed >= 0,
        v.written_off >= 0,
        v.floor_bps <= 10_000,
        v.settle_allocation_step(after, inv, pool, amount, balance, r),
    ensures
        v.engine is Some && inv.signers@.contains(v.engine->0) && !v.paused && v.usdc is Some && 0
            < amount <= balance - v.queued && v.floor_bps * (balance - v.queued + v.deployed
            + v.written_off) <= (balance - v.queued - amount) * 10_000 && fits(
            (balance - v.queued + v.deployed + v.written_off) * 10_000,
        ) && fits(v.booked - amount) ==> r is Ok,
        r == Err::<Receipt<()>, Fault<VaultError>>(Fault::Error(VaultError::Paused)) ==> v.paused,
        r == Err::<Receipt<()>, Fault<VaultError>>(Fault::Error(VaultError::InvalidAmount))
            ==> amount <= 0,
        r == Err::<Receipt<()>, Fault<VaultError>>(Fault::Error(VaultError::InsufficientLiquidity))
            ==> amount > v.free(balance),
        v.usdc is Some && r == Err::<Receipt<()>, Fault<VaultError>>(
            Fault::Error(VaultError::ReserveFloorBreached),
        ) ==> (balance - v.queued - amount) * 10_000 < v.floor_bps * (balance - v.queued
            + v.deployed + v.written_off) && amount <= balance - v.queued,
{
    let base = balance - v.queued + v.deployed + v.written_off;
    let floor = v.floor_bps as int;
    if base >= 0 {
        assert(0 <= floor * base <= base * 10_000) by (nonlinear_arith)
            requires
                base >= 0,
                0 <= floor <= 10_000,
        ;
    }
}

/// A repayment is booked at the engine's signature, of no more than is out and
/// no more than is held beyond what is booked, and moves the amount from what
/// is out to what is booked.
pub proof fn a_repayment_is_booked_when_it_is_there(
    v: Vault,
    after: Vault,
    inv: Invocation,
    amount: i128,
    balance: i128,
    r: Result<Receipt<()>, Fault<VaultError>>,
)
    requires
        v.usdc is Some,
        v.record_repayment_step(after, inv, amount, balance, r),
    ensures
        r is Ok <==> {
            &&& v.engine is Some && inv.signers@.contains(v.engine->0)
            &&& 0 < amount <= v.deployed
            &&& v.booked + amount <= balance
            &&& fits(balance - v.booked)
        },
        r is Ok ==> {
            &&& after.deployed == v.deployed - amount
            &&& after.booked == v.booked + amount
            &&& r->Ok_0.effects.calls@.len() == 0
            &&& r->Ok_0.effects.events@.len() == 1
            &&& r->Ok_0.effects.events@[0] matches Event::RepaymentRecorded(e) && e.amount == amount
                && e.deployed == after.deployed
        },
        after == (Vault { deployed: after.deployed, booked: after.booked, ..v }),
        r is Err ==> after == v,
        r == Err::<Receipt<()>, Fault<VaultError>>(Fault::Error(VaultError::DeployedUnderflow))
            ==> amount > v.deployed,
        r == Err::<Receipt<()>, Fault<VaultError>>(Fault::Error(VaultError::RepaymentNotReceived))
            ==> v.booked + amount > balance,
        r == Err::<Receipt<()>, Fault<VaultError>>(Fault::Error(VaultError::InvalidAmount))
            ==> amount <= 0,
{
}

/// A loss is booked at the engine's and the admin's signatures, of no more than
/// is out, and moves the amount from what is out to what was lost.
pub proof fn a_loss_is_booked_by_engine_and_admin(
    v: Vault,
    after: Vault,
    inv: Invocation,
    admin: Address,
    amount: i128,
    r: Result<Receipt<()>, Fault<VaultError>>,
)
    requires
        v.record_writedown_step(after, inv, admin, amount, r),
    ensures
        r is Ok <==> {
            &&& v.engine is Some && inv.signers@.contains(v.engine->0)
            &&& v.role.admin == Some(admin) && inv.signers@.contains(admin)
            &&& 0 < amount <= v.deployed
            &&& v.written_off + amount <= i128::MAX
        },
        r is Ok ==> {
            &&& after.deployed == v.deployed - amount
            &&& after.written_off == v.written_off + amount
            &&& r->Ok_0.effects.events@.len() == 1
            &&& r->Ok_0.effects.events@[0] matches Event::WriteDownRecorded(e) && e.amount == amount
                && e.deployed == after.deployed && e.recognised_losses == after.written_off
        },
        after == (Vault { deployed: after.deployed, written_off: after.written_off, ..v }),
        r is Err ==> after == v,
        r == Err::<Receipt<()>, Fault<VaultError>>(Fault::Error(VaultError::DeployedUnderflow))
            ==> amount > v.deployed,
{
}

/// A recovery is booked at the engine's and the admin's signatures, of no more
/// than is held beyond what is booked; it is all booked as held, and forgives
/// losses by as much, up to all of them.
pub proof fn a_recovery_is_booked_when_it_is_there(
    v: Vault,
    after: Vault,
    inv: Invocation,
    admin: Address,
    amount: i128,
    balance: i128,
    r: Result<Receipt<()>, Fault<VaultError>>,
)
    requires
        v.usdc is Some,
        v.written_off >= 0,
        v.record_recovery_step(after, inv, admin, amount, balance, r),
    ensures
        r is Ok <==> {
            &&& v.engine is Some && inv.signers@.contains(v.engine->0)
            &&& v.role.admin == Some(admin) && inv.signers@.contains(admin)
            &&& 0 < amount
            &&& v.booked + amount <= balance
            &&& fits(balance - v.booked)
        },
        r is Ok ==> {
            &&& after.booked == v.booked + amount
            &&& amount <= v.written_off ==> after.written_off == v.written_off - amount
            &&& amount >= v.written_off ==> after.written_off == 0
            &&& r->Ok_0.effects.events@.len() == 1
            &&& r->Ok_0.effects.events@[0] matches Event::RecoveryRecorded(e) && e.amount == amount
                && e.applied_to_losses == v.written_off - after.written_off && e.recognised_losses
                == after.written_off
        },
        after == (Vault { booked: after.booked, written_off: after.written_off, ..v }),
        r is Err ==> after == v,
        r == Err::<Receipt<()>, Fault<VaultError>>(Fault::Error(VaultError::RecoveryNotReceived))
            ==> v.booked + amount > balance,
{
}

/// A claim is known as paid, as ready where its owner could collect it now, and
/// as pending otherwise.
pub proof fn a_claims_status_is_what_can_be_done_with_it(v: Vault, id: u64, balance: i128)
    requires
        v.usdc is Some,
    ensures
        v.claim_status_answer(id, balance) is Err <==> !v.claims@.dom().contains(id),
        v.claims@.dom().contains(id) ==> {
            let status = v.claim_status_answer(id, balance)->Ok_0;
            &&& status is Claimed <==> v.claims@[id].claimed
            &&& status is Ready <==> {
                &&& !v.claims@[id].claimed
                &&& id == v.queue_head || (v.deferred@.dom().contains(id) && v.deferred@[id])
                &&& v.claims@[id].amount <= balance
            }
        },
{
}

/// What is ready can be collected, by its owner and with their signature, and
/// what can be collected is ready.
pub proof fn what_is_ready_can_be_collected(
    v: Vault,
    inv: Invocation,
    id: u64,
    balance: i128,
)
    requires
        v.usdc is Some,
        v.claims@.dom().contains(id),
        inv.signers@.contains(v.claims@[id].owner),
    ensures
        v.claim_status_answer(id, balance) == Ok::<ClaimStatus, VaultError>(ClaimStatus::Ready)
            <==> v.collectable_fault(inv, v.claims@[id].owner, id, balance) is None,
{
}

/// The queue is as long as there are claims from its head to its end.
pub proof fn the_queue_is_as_long_as_its_claims(v: Vault)
    requires
        v.sound(),
    ensures
        v.queue_length_answer() is Ok,
        v.queue_length_answer()->Ok_0 + v.queue_head == v.queue_tail,
{
}

/// The floor, the breaker and the oracle are the admin's to set; the floor is
/// no more than the whole, and the oracle knows the feed.
pub proof fn settings_are_the_admins(
    v: Vault,
    after: Vault,
    inv: Invocation,
    admin: Address,
    floor_bps: u32,
    paused: bool,
    oracle: Address,
    feed: Symbol,
    knows_feed: bool,
    r: Result<Receipt<()>, Fault<VaultError>>,
)
    ensures
        v.set_reserve_floor_step(after, inv, admin, floor_bps, r) ==> {
            &&& r is Ok <==> v.role.admin == Some(admin) && inv.signers@.contains(admin)
                && floor_bps <= 10_000
            &&& r is Ok ==> after.floor_bps == floor_bps
            &&& after == (Vault { floor_bps: after.floor_bps, ..v })
            &&& r is Err ==> after == v
        },
        v.set_paused_step(after, inv, admin, paused, r) ==> {
            &&& r is Ok <==> v.role.admin == Some(admin) && inv.signers@.contains(admin)
            &&& r is Ok ==> after.paused == paused
            &&& after == (Vault { paused: after.paused, ..v })
            &&& r is Err ==> after == v
        },
        v.set_oracle_step(after, inv, admin, oracle, feed, knows_feed, r) ==> {
            &&& r is Ok <==> v.role.admin == Some(admin) && inv.signers@.contains(admin)
                && knows_feed
            &&& r is Ok ==> after.oracle == Some(oracle) && after.oracle_feed == Some(feed)
            &&& after == (Vault { oracle: after.oracle, oracle_feed: after.oracle_feed, ..v })
            &&& r is Err ==> after == v
        },
{
}

/// The dollar token is set by the admin, before the first deposit, to one that
/// this vault mints and that has the decimals of USDC; the engine is set while
/// nothing is out, to one that serves this vault and has nothing out itself.
pub proof fn counterparties_are_wired_back(
    v: Vault,
    after: Vault,
    inv: Invocation,
    admin: Address,
    agusd: Address,
    minter: Result<Address, InvokeError>,
    decimals: Result<u32, InvokeError>,
    usdc_decimals: Result<u32, InvokeError>,
    engine: Address,
    governed: Result<Address, InvokeError>,
    booked: Result<i128, InvokeError>,
    r: Result<Receipt<()>, Fault<VaultError>>,
)
    ensures
        v.set_agusd_step(after, inv, admin, agusd, minter, decimals, usdc_decimals, r) ==> {
            &&& r is Ok <==> {
                &&& v.role.admin == Some(admin) && inv.signers@.contains(admin)
                &&& v.deposits == 0
                &&& v.usdc is Some
                &&& minter is Ok && minter->Ok_0 == inv.contract
                &&& decimals is Ok && usdc_decimals is Ok && decimals->Ok_0 == usdc_decimals->Ok_0
            }
            &&& r is Ok ==> after.agusd == Some(agusd)
            &&& after == (Vault { agusd: after.agusd, ..v })
            &&& r is Err ==> after == v
        },
        v.set_engine_step(after, inv, admin, engine, governed, booked, r) ==> {
            &&& r is Ok <==> {
                &&& v.role.admin == Some(admin) && inv.signers@.contains(admin)
                &&& v.deployed <= 0
                &&& governed is Ok && governed->Ok_0 == inv.contract
                &&& booked is Ok && booked->Ok_0 == 0
            }
            &&& r is Ok ==> after.engine == Some(engine)
            &&& after == (Vault { engine: after.engine, ..v })
            &&& r is Err ==> after == v
        },
{
}

/// A vault starts open, with an empty queue and a floor of everything, for the
/// admin that signed and a token that answers; and its role changes hands by an
/// offer and an acceptance, each signed.
pub proof fn the_vault_is_its_admins(
    v: Vault,
    after: Vault,
    inv: Invocation,
    admin: Address,
    next: Address,
    usdc: Address,
    answer: Result<i128, InvokeError>,
    r: Result<Receipt<()>, Fault<VaultError>>,
)
    ensures
        v.__constructor_step(after, inv, admin, usdc, answer, r) ==> {
            &&& r is Ok <==> inv.signers@.contains(admin) && answer is Ok
            &&& r is Ok ==> {
                &&& after.role.admin == Some(admin)
                &&& after.usdc == Some(usdc)
                &&& !after.paused
                &&& after.queue_head == after.queue_tail
                &&& after.queue_head == 1
                &&& after.floor_bps == 10_000
            }
            &&& r is Err ==> after == v
            &&& r matches Err(f) ==> match f {
                Fault::Trap(Trap::Unauthorized) => !inv.signers@.contains(admin),
                Fault::Error(VaultError::InvalidUsdc) => answer is Err,
                _ => false,
            }
        },
        v.propose_admin_step(after, inv, admin, next, r) ==> {
            &&& r is Ok <==> v.role.admin == Some(admin) && inv.signers@.contains(admin)
            &&& r is Ok ==> after.role.admin == v.role.admin && after.role.pending == Some(next)
            &&& after == (Vault { role: after.role, ..v })
            &&& r is Err ==> after == v
        },
        v.accept_admin_step(after, inv, next, r) ==> {
            &&& r is Ok <==> v.role.pending == Some(next) && inv.signers@.contains(next)
            &&& r is Ok ==> after.role.admin == Some(next) && after.role.pending is None
            &&& after == (Vault { role: after.role, ..v })
            &&& r is Err ==> after == v
        },
{
}

/// Every setting that is changed is announced as it now is, asks nothing of
/// any other contract, and keeps the vault alive.
pub proof fn a_setting_is_announced(
    v: Vault,
    after: Vault,
    inv: Invocation,
    admin: Address,
    next: Address,
    floor_bps: u32,
    paused: bool,
    feed: Symbol,
    knows_feed: bool,
    minter: Result<Address, InvokeError>,
    decimals: Result<u32, InvokeError>,
    usdc_decimals: Result<u32, InvokeError>,
    booked: Result<i128, InvokeError>,
    answer: Result<i128, InvokeError>,
    d: Receipt<()>,
)
    ensures
        ({
            let r = Ok::<Receipt<()>, Fault<VaultError>>(d);
            let quiet = d.effects.calls@.len() == 0 && d.effects.rent@ == seq![Rent::Instance];
            let events = d.effects.events@;
            &&& v.__constructor_step(after, inv, admin, next, answer, r) ==> quiet && events.len()
                == 0
            &&& v.set_reserve_floor_step(after, inv, admin, floor_bps, r) ==> quiet && events.len()
                == 1 && (events[0] matches Event::ReserveFloorSet(e) && e.floor_bps == floor_bps)
            &&& v.set_paused_step(after, inv, admin, paused, r) ==> quiet && events.len() == 1 && (
            events[0] matches Event::PauseToggled(e) && e.paused == paused)
            &&& v.set_oracle_step(after, inv, admin, next, feed, knows_feed, r) ==> quiet
                && events.len() == 1 && (events[0] matches Event::OracleRepointed(e) && e.oracle
                == next && e.feed_id == feed)
            &&& v.set_agusd_step(
                after,
                inv,
                admin,
                next,
                minter,
                decimals,
                usdc_decimals,
                r,
            ) ==> quiet && events.len() == 1 && (events[0] matches Event::VaultAgUsdRepointed(e)
                && e.agusd == next)
            &&& v.set_engine_step(after, inv, admin, next, minter, booked, r) ==> quiet
                && events.len() == 1 && (events[0] matches Event::EngineRepointed(e) && e.engine
                == next)
            &&& v.propose_admin_step(after, inv, admin, next, r) ==> quiet && events.len() == 1 && (
            events[0] matches Event::VaultAdminProposed(e) && e.new_admin == next)
            &&& v.accept_admin_step(after, inv, next, r) ==> quiet && events.len() == 1 && (
            events[0] matches Event::VaultAdminChanged(e) && e.admin == next)
        }),
{
}

/// Every movement keeps the vault alive, and the claim it wrote; recording one
/// asks nothing of any other contract.
pub proof fn a_movement_keeps_the_vault_alive(
    v: Vault,
    after: Vault,
    inv: Invocation,
    who: Address,
    amount: i128,
    balance: i128,
    id: u64,
    delivered: bool,
    a: Receipt<i128>,
    b: Receipt<u64>,
    d: Receipt<()>,
)
    ensures
        v.deposit_step(after, inv, who, amount, Ok(a)) ==> a.effects.rent@ == seq![Rent::Instance],
        v.request_withdrawal_step(after, inv, who, amount, Ok(b)) ==> b.effects.rent@ == seq![
            Rent::Claim { id: b.value },
            Rent::Instance,
        ],
        v.claim_withdrawal_step(after, inv, who, id, balance, delivered, Ok(d))
            ==> d.effects.calls@.len() == 0 && d.effects.rent@ == seq![
            Rent::Claim { id },
            Rent::Instance,
        ],
        v.settle_withdrawal_step(after, inv, balance, true, Ok(b)) ==> b.effects.calls@.len() == 0
            && b.effects.rent@ == seq![Rent::Claim { id: b.value }, Rent::Instance],
        v.settle_allocation_step(after, inv, who, amount, balance, Ok(d)) ==> d.effects.rent@
            == seq![Rent::Instance] && d.effects.events@.len() == 0,
        v.record_repayment_step(after, inv, amount, balance, Ok(d)) ==> d.effects.rent@ == seq![
            Rent::Instance,
        ],
        v.record_writedown_step(after, inv, who, amount, Ok(d)) ==> d.effects.calls@.len() == 0
            && d.effects.rent@ == seq![Rent::Instance],
        v.record_recovery_step(after, inv, who, amount, balance, Ok(d)) ==> d.effects.calls@.len()
            == 0 && d.effects.rent@ == seq![Rent::Instance],
{
}

/// Each refusal of a setting names what stands against it.
pub proof fn a_setting_is_refused_for_the_reason_named(
    v: Vault,
    inv: Invocation,
    admin: Address,
    floor_bps: u32,
    knows_feed: bool,
    minter: Result<Address, InvokeError>,
    decimals: Result<u32, InvokeError>,
    usdc_decimals: Result<u32, InvokeError>,
    booked: Result<i128, InvokeError>,
)
    ensures
        v.set_reserve_floor_fault(inv, admin, floor_bps) matches Some(f) ==> match f {
            Fault::Error(VaultError::NotInitialized) => v.role.admin is None,
            Fault::Error(VaultError::NotAdmin) => v.role.admin is Some
                && v.role.admin != Some(admin),
            Fault::Trap(Trap::Unauthorized) => v.role.admin == Some(admin)
                && !inv.signers@.contains(admin),
            Fault::Error(VaultError::InvalidFloor) => floor_bps > 10_000,
            _ => false,
        },
        v.set_oracle_fault(inv, admin, knows_feed) matches Some(f) ==> match f {
            Fault::Error(VaultError::NotInitialized) => v.role.admin is None,
            Fault::Error(VaultError::NotAdmin) => v.role.admin is Some
                && v.role.admin != Some(admin),
            Fault::Trap(Trap::Unauthorized) => v.role.admin == Some(admin)
                && !inv.signers@.contains(admin),
            Fault::Error(VaultError::OracleMismatch) => !knows_feed,
            _ => false,
        },
        v.set_agusd_fault(inv, admin, minter, decimals, usdc_decimals) matches Some(f) ==> match f {
            Fault::Error(VaultError::NotInitialized) => (v.role.admin is None) || (v.usdc is None),
            Fault::Error(VaultError::NotAdmin) => v.role.admin is Some
                && v.role.admin != Some(admin),
            Fault::Trap(Trap::Unauthorized) => v.role.admin == Some(admin)
                && !inv.signers@.contains(admin),
            Fault::Error(VaultError::DepositsExist) => v.deposits > 0,
            Fault::Error(VaultError::AgUsdMismatch) => minter is Err
                || minter->Ok_0 != inv.contract,
            Fault::Trap(Trap::Callee(e)) => usdc_decimals is Err && usdc_decimals->Err_0 == e,
            Fault::Error(VaultError::DecimalMismatch) => usdc_decimals is Ok
                && (decimals is Err || decimals->Ok_0 != usdc_decimals->Ok_0),
            _ => false,
        },
        v.set_engine_fault(inv, admin, minter, booked) matches Some(f) ==> match f {
            Fault::Error(VaultError::NotInitialized) => v.role.admin is None,
            Fault::Error(VaultError::NotAdmin) => v.role.admin is Some
                && v.role.admin != Some(admin),
            Fault::Trap(Trap::Unauthorized) => v.role.admin == Some(admin)
                && !inv.signers@.contains(admin),
            Fault::Error(VaultError::CapitalDeployed) => v.deployed > 0,
            Fault::Error(VaultError::EngineMismatch) => minter is Err
                || minter->Ok_0 != inv.contract || booked is Err || booked->Ok_0 != 0,
            _ => false,
        },
{
}

/// Each refusal of a movement names what stands against it.
pub proof fn a_movement_is_refused_for_the_reason_named(
    v: Vault,
    inv: Invocation,
    who: Address,
    id: u64,
    amount: i128,
    balance: i128,
    delivered: bool,
)
    requires
        v.sound(),
    ensures
        v.deposit_fault(inv, who, amount) matches Some(f) ==> match f {
            Fault::Error(VaultError::Paused) => v.paused,
            Fault::Trap(Trap::Unauthorized) => !inv.signers@.contains(who),
            Fault::Error(VaultError::InvalidAmount) => amount <= 0,
            Fault::Error(VaultError::NotInitialized) => v.usdc is None || v.agusd is None,
            Fault::Trap(Trap::Overflow) => v.deposits == u64::MAX || v.booked + amount > i128::MAX,
            _ => false,
        },
        v.request_withdrawal_fault(inv, who, amount) matches Some(f) ==> match f {
            Fault::Error(VaultError::Paused) => v.paused,
            Fault::Trap(Trap::Unauthorized) => !inv.signers@.contains(who),
            Fault::Error(VaultError::InvalidAmount) => amount <= 0,
            Fault::Error(VaultError::BelowMinWithdrawal) => 0 < amount < 10_000_000,
            Fault::Error(VaultError::NotInitialized) => v.agusd is None,
            Fault::Trap(Trap::Overflow) => v.queue_tail == u64::MAX
                || v.queued + amount > i128::MAX,
            _ => false,
        },
        v.collectable_fault(inv, who, id, balance) matches Some(f) ==> match f {
            Fault::Trap(Trap::Unauthorized) => !inv.signers@.contains(who),
            Fault::Error(VaultError::ClaimNotFound) => !v.claims@.dom().contains(id),
            Fault::Error(VaultError::NotClaimOwner) => v.claims@[id].owner != who,
            Fault::Error(VaultError::AlreadyClaimed) => v.claims@[id].claimed,
            Fault::Error(VaultError::NotAtQueueHead) => id != v.queue_head
                && !(v.deferred@.dom().contains(id) && v.deferred@[id]),
            Fault::Error(VaultError::InsufficientLiquidity) => v.usdc is None
                || balance < v.claims@[id].amount,
            Fault::Error(VaultError::NotInitialized) => v.usdc is None,
            _ => false,
        },
        v.claim_withdrawal_fault(inv, who, id, balance, delivered) matches Some(f) ==> match f {
            Fault::Trap(Trap::Unauthorized) => !inv.signers@.contains(who),
            Fault::Error(VaultError::ClaimNotFound) => !v.claims@.dom().contains(id),
            Fault::Error(VaultError::NotClaimOwner) => v.claims@[id].owner != who,
            Fault::Error(VaultError::AlreadyClaimed) => v.claims@[id].claimed,
            Fault::Error(VaultError::NotAtQueueHead) => id != v.queue_head
                && !(v.deferred@.dom().contains(id) && v.deferred@[id]),
            Fault::Error(VaultError::InsufficientLiquidity) => v.usdc is None
                || balance < v.claims@[id].amount,
            Fault::Error(VaultError::NotInitialized) => v.usdc is None,
            Fault::Error(VaultError::PaymentRejected) => !delivered,
            Fault::Trap(Trap::Overflow) => v.booked - v.claims@[id].amount < i128::MIN,
            _ => false,
        },
        v.next_due_fault(balance) matches Some(f) ==> match f {
            Fault::Error(VaultError::QueueEmpty) => v.queue_head == v.queue_tail,
            Fault::Error(VaultError::InsufficientLiquidity) => v.usdc is None
                || balance < v.claims@[v.queue_head].amount,
            _ => false,
        },
        v.settle_withdrawal_fault(balance, delivered) matches Some(f) ==> match f {
            Fault::Error(VaultError::QueueEmpty) => v.queue_head == v.queue_tail,
            Fault::Error(VaultError::InsufficientLiquidity) => v.usdc is None
                || balance < v.claims@[v.queue_head].amount,
            Fault::Trap(Trap::Overflow) => delivered
                && v.booked - v.claims@[v.queue_head].amount < i128::MIN,
            _ => false,
        },
        v.record_repayment_fault(inv, amount, balance) matches Some(f) ==> match f {
            Fault::Error(VaultError::NotInitialized) => v.engine is None,
            Fault::Trap(Trap::Unauthorized) => v.engine is Some
                && !inv.signers@.contains(v.engine->0),
            Fault::Error(VaultError::InvalidAmount) => amount <= 0,
            Fault::Error(VaultError::DeployedUnderflow) => amount > v.deployed,
            Fault::Error(VaultError::RepaymentNotReceived) => v.idle(balance) - v.booked < amount,
            Fault::Trap(Trap::Overflow) => !fits(v.idle(balance) - v.booked)
                || !fits(v.booked + amount),
            _ => false,
        },
        v.record_writedown_fault(inv, who, amount) matches Some(f) ==> match f {
            Fault::Error(VaultError::NotInitialized) => (v.engine is None)
                || (v.role.admin is None),
            Fault::Trap(Trap::Unauthorized) => (v.engine is Some
                && !inv.signers@.contains(v.engine->0))
                || (v.role.admin == Some(who) && !inv.signers@.contains(who)),
            Fault::Error(VaultError::NotAdmin) => v.role.admin is Some && v.role.admin != Some(who),
            Fault::Error(VaultError::InvalidAmount) => amount <= 0,
            Fault::Error(VaultError::DeployedUnderflow) => amount > v.deployed,
            Fault::Trap(Trap::Overflow) => v.written_off + amount > i128::MAX,
            _ => false,
        },
        v.record_recovery_fault(inv, who, amount, balance) matches Some(f) ==> match f {
            Fault::Error(VaultError::NotInitialized) => (v.engine is None)
                || (v.role.admin is None),
            Fault::Trap(Trap::Unauthorized) => (v.engine is Some
                && !inv.signers@.contains(v.engine->0))
                || (v.role.admin == Some(who) && !inv.signers@.contains(who)),
            Fault::Error(VaultError::NotAdmin) => v.role.admin is Some && v.role.admin != Some(who),
            Fault::Error(VaultError::InvalidAmount) => amount <= 0,
            Fault::Error(VaultError::RecoveryNotReceived) => v.idle(balance) - v.booked < amount,
            Fault::Trap(Trap::Overflow) => !fits(v.idle(balance) - v.booked)
                || !fits(v.booked + amount),
            _ => false,
        },
        v.settle_allocation_fault(inv, amount, balance) matches Some(f) ==> match f {
            Fault::Error(VaultError::NotInitialized) => (v.engine is None) || (v.usdc is None),
            Fault::Trap(Trap::Unauthorized) => v.engine is Some
                && !inv.signers@.contains(v.engine->0),
            Fault::Error(VaultError::Paused) => v.paused,
            Fault::Error(VaultError::InvalidAmount) => amount <= 0,
            Fault::Error(VaultError::InsufficientLiquidity) => v.free(balance) < amount,
            Fault::Error(VaultError::ReserveFloorBreached) => (v.free(balance) - amount) * 10_000
                < v.floor_bps * (v.free(balance) + v.deployed + v.written_off),
            Fault::Trap(Trap::Overflow) => !fits(v.idle(balance) - v.queued)
                || !fits(v.deployed + amount) || !fits(v.free(balance) + v.deployed)
                || !fits(v.free(balance) + v.deployed + v.written_off)
                || !fits((v.free(balance) - amount) * 10_000)
                || !fits(v.floor_bps * (v.free(balance) + v.deployed + v.written_off))
                || !fits(v.booked - amount),
            _ => false,
        },
        v.settle_allocation_fault(inv, amount, balance) is None ==> {
            &&& fits(v.deployed + amount)
            &&& fits(v.free(balance) + v.deployed + v.written_off)
            &&& fits((v.free(balance) - amount) * 10_000)
            &&& fits(v.floor_bps * (v.free(balance) + v.deployed + v.written_off))
        },
{
    v.queued_is_not_negative();
    assert(v.claims@.dom().contains(v.queue_head) <==> 1 <= v.queue_head < v.queue_tail);
    assert(v.claims@.dom().contains(id) <==> 1 <= id < v.queue_tail);
    if v.queue_head < v.queue_tail {
        assert(!v.claims@[v.queue_head].claimed);
        assert(v.claims@[v.queue_head].amount >= 10_000_000);
        v.queue_covers_a_claim(v.queue_head);
    }
    if v.claims@.dom().contains(id) && !v.claims@[id].claimed {
        assert(v.claims@[id].amount >= 10_000_000);
        v.queue_covers_a_claim(id);
    }
}

/// A handover is refused for the reason named.
pub proof fn a_handover_is_refused_for_the_reason_named(
    v: Vault,
    after: Vault,
    inv: Invocation,
    admin: Address,
    next: Address,
    f: Fault<VaultError>,
)
    ensures
        v.propose_admin_step(after, inv, admin, next, Err(f)) ==> match f {
            Fault::Error(VaultError::NotInitialized) => v.role.admin is None,
            Fault::Error(VaultError::NotAdmin) => v.role.admin is Some
                && v.role.admin != Some(admin),
            Fault::Trap(Trap::Unauthorized) => v.role.admin == Some(admin)
                && !inv.signers@.contains(admin),
            _ => false,
        },
        v.accept_admin_step(after, inv, next, Err(f)) ==> match f {
            Fault::Error(VaultError::NoPendingAdmin) => v.role.pending is None,
            Fault::Error(VaultError::NotPendingAdmin) => v.role.pending is Some
                && v.role.pending != Some(next),
            Fault::Trap(Trap::Unauthorized) => v.role.pending == Some(next)
                && !inv.signers@.contains(next),
            _ => false,
        },
{
}

} // verus!
