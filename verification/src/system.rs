//! The protocol as a whole: what stays true of the vault, the engine, the
//! adapters and the two tokens together, whatever is called in whatever order.
//!
//! Each contract's own file says what one call does to that contract. Here
//! the calls are put together the way the ledger runs them, and the books that
//! several contracts keep of the same thing are shown to agree forever.

use crate::address::Address;
use crate::engine::{AllocationEngine, Wiring};
use crate::etherfuse::EtherfuseAdapter;
use crate::host::Invocation;
use crate::math::{fits, BPS};
use crate::private_credit::PrivateCreditAdapter;
use crate::table::{lemma_total_insert, total};
use crate::token::{held, Token};
use crate::vault::{stepped_over, Vault};
use vstd::prelude::*;

verus! {

/// A pool's adapter, of either make.
pub enum Adapter {
    Credit(PrivateCreditAdapter),
    Bond(EtherfuseAdapter),
}

impl Adapter {
    /// The capital it has booked.
    pub open spec fn exposure(self) -> int {
        match self {
            Adapter::Credit(a) => a.exposure as int,
            Adapter::Bond(a) => a.exposure as int,
        }
    }

    /// Whether it names this engine, this vault and this token.
    pub open spec fn names(self, engine: Address, vault: Address, usdc: Address) -> bool {
        match self {
            Adapter::Credit(a) => a.engine == Some(engine) && a.vault == Some(vault) && a.usdc
                == Some(usdc),
            Adapter::Bond(a) => a.engine == Some(engine) && a.vault == Some(vault) && a.usdc
                == Some(usdc),
        }
    }

    /// The same adapter with another exposure.
    pub open spec fn rebooked(self, after: Adapter, exposure: int) -> bool {
        match (self, after) {
            (Adapter::Credit(a), Adapter::Credit(b)) => a.rebooked(b, exposure),
            (Adapter::Bond(a), Adapter::Bond(b)) => a.rebooked(b, exposure),
            _ => false,
        }
    }

    /// Whether it books capital.
    pub open spec fn takes(self, inv: Invocation, amount: i128) -> bool {
        match self {
            Adapter::Credit(a) => a.allocate_fault(inv, amount) is None,
            Adapter::Bond(a) => a.allocate_fault(inv, amount) is None,
        }
    }

    /// Whether it returns capital.
    pub open spec fn returns_capital(self, inv: Invocation, amount: i128) -> bool {
        match self {
            Adapter::Credit(a) => a.deallocate_fault(inv, amount) is None,
            Adapter::Bond(a) => a.deallocate_fault(inv, amount) is None,
        }
    }

    /// Whether it takes a loss.
    pub open spec fn takes_loss(self, inv: Invocation, amount: i128) -> bool {
        match self {
            Adapter::Credit(a) => a.write_down_fault(inv, amount) is None,
            Adapter::Bond(a) => a.write_down_fault(inv, amount) is None,
        }
    }

    /// Whether it sweeps its surplus home.
    pub open spec fn sweeps(self, inv: Invocation, caller: Address, held: i128) -> bool {
        match self {
            Adapter::Credit(a) => a.recover_surplus_fault(inv, caller, Ok(held)) is None,
            Adapter::Bond(a) => a.recover_surplus_fault(inv, caller, Ok(held)) is None,
        }
    }
}

/// What the adapters have booked together.
pub open spec fn booked_out(pools: Map<Address, Adapter>) -> int {
    total(pools, |p: Address, a: Adapter| a.exposure())
}

/// One deployment: the contracts' storage and their addresses.
///
/// The pointers between the contracts are settled here: which of them can
/// still move, and when, is said where each pointer is kept.
pub struct Deployment {
    pub usdc: Token,
    pub agusd: Token,
    pub vault: Vault,
    pub engine: AllocationEngine,
    pub pools: Map<Address, Adapter>,
    pub usdc_at: Address,
    pub agusd_at: Address,
    pub vault_at: Address,
    pub engine_at: Address,
}

/// One transaction on a deployment. Each call into a contract of it carries
/// its own circumstances.
pub enum Step {
    /// `vault.deposit`.
    Deposit { inv: Invocation, from: Address, amount: i128 },
    /// `vault.request_withdrawal`.
    Request { inv: Invocation, from: Address, amount: i128 },
    /// `vault.claim_withdrawal`.
    Claim { inv: Invocation, from: Address, id: u64 },
    /// `vault.settle_withdrawal`, with the payment delivered.
    Settle,
    /// `vault.settle_withdrawal`, with the payment refused.
    StepOver,
    /// `engine.allocate`.
    Allocate {
        inv: Invocation,
        to_vault: Invocation,
        to_pool: Invocation,
        admin: Address,
        pool: Address,
        amount: i128,
    },
    /// `engine.deallocate`.
    Deallocate {
        inv: Invocation,
        to_vault: Invocation,
        to_pool: Invocation,
        pool: Address,
        amount: i128,
    },
    /// `engine.write_down`.
    WriteDown {
        inv: Invocation,
        to_vault: Invocation,
        to_pool: Invocation,
        admin: Address,
        pool: Address,
        amount: i128,
    },
    /// `engine.recover`.
    Recover {
        inv: Invocation,
        to_vault: Invocation,
        to_pool: Invocation,
        admin: Address,
        pool: Address,
    },
    /// `engine.book_recovery`.
    BookRecovery {
        inv: Invocation,
        to_vault: Invocation,
        admin: Address,
        pool: Address,
        amount: i128,
    },
    /// `recover_surplus` on an adapter, by its own admin.
    Sweep { inv: Invocation, pool: Address, caller: Address },
    /// USDC moved between outsiders, or from one to a contract.
    Pay { from: Address, to: Address, amount: i128 },
    /// USDC came into being.
    Issue { to: Address, amount: i128 },
    /// An outsider's USDC ceased to be.
    Retire { from: Address, amount: i128 },
    /// agUSD changed hands.
    PayAgUsd { from: Address, to: Address, amount: i128 },
    /// A holder burned agUSD.
    RetireAgUsd { from: Address, amount: i128 },
    /// A setting of the vault or the engine changed: an admin, the breaker, a
    /// floor, a cap, the oracle, the list of pools.
    Configure,
    /// An adapter joined, with nothing booked.
    Admit { pool: Address },
}

impl Deployment {
    /// What USDC says the vault holds.
    pub open spec fn cash(self) -> i128 {
        self.usdc.holds(self.vault_at) as i128
    }

    /// An address that none of the custodians answers to.
    pub open spec fn outside(self, who: Address) -> bool {
        who != self.vault_at && !self.pools.dom().contains(who)
    }

    /// What the adapters and the vault answer when the engine asks how an
    /// adapter is wired.
    pub open spec fn wiring(self) -> Wiring {
        Wiring {
            engine: Ok(self.engine_at),
            vault: Ok(self.vault_at),
            usdc: Ok(self.usdc_at),
            custodied: Ok(self.usdc_at),
        }
    }

    /// Everything that has to agree.
    ///
    /// Each contract's own books are sound, and the contracts point at each
    /// other. What the engine has booked for an adapter is what the adapter
    /// has booked; all of it together is what the vault has booked as
    /// deployed. The vault and the engine count the same losses. No custodian
    /// holds less than it has booked. And every agUSD, outstanding or already
    /// queued, is accounted for: by cash booked, by capital deployed, or by a
    /// recognised loss.
    pub open spec fn consistent(self) -> bool {
        &&& self.usdc.sound() && self.agusd.sound() && self.vault.sound() && self.engine.sound()
        &&& self.vault.usdc == Some(self.usdc_at) && self.vault.agusd == Some(self.agusd_at)
            && self.vault.engine == Some(self.engine_at) && self.engine.vault == Some(self.vault_at)
        &&& self.pools.dom().finite() && !self.pools.dom().contains(self.vault_at)
        &&& forall|p: Address| #[trigger]
            self.pools.dom().contains(p) ==> {
                &&& self.pools[p].names(self.engine_at, self.vault_at, self.usdc_at)
                &&& 0 <= self.pools[p].exposure() <= self.usdc.holds(p)
                &&& self.pools[p].exposure() == self.engine.exposure(p)
            }
        &&& self.vault.deployed == booked_out(self.pools)
        &&& self.vault.deployed == self.engine.total_allocated
        &&& self.vault.written_off == self.engine.written_off
        &&& self.vault.booked <= self.usdc.holds(self.vault_at)
        &&& self.agusd.supply + self.vault.queued <= self.vault.booked + self.vault.deployed
            + self.vault.written_off
    }

    /// Everything but these parts is as it was.
    pub open spec fn otherwise_same(self, after: Deployment) -> bool {
        &&& after.usdc_at == self.usdc_at && after.agusd_at == self.agusd_at
        &&& after.vault_at == self.vault_at && after.engine_at == self.engine_at
    }

    /// An adapter's exposure moved, and nothing else about the adapters.
    pub open spec fn pool_rebooked(self, after: Deployment, pool: Address, exposure: int) -> bool {
        &&& self.pools.dom().contains(pool)
        &&& self.pools[pool].rebooked(after.pools[pool], exposure)
        &&& after.pools == self.pools.insert(pool, after.pools[pool])
    }

    /// What a transaction that succeeds does.
    pub open spec fn steps(self, after: Deployment, step: Step) -> bool {
        self.otherwise_same(after) && match step {
            Step::Deposit { inv, from, amount } => {
                &&& inv.contract == self.vault_at
                &&& self.outside(from)
                &&& self.vault.deposit_fault(inv, from, amount) is None
                &&& self.vault.deposited(after.vault, amount)
                &&& self.usdc.pays(after.usdc, from, self.vault_at, amount)
                &&& self.agusd.issues(after.agusd, from, amount)
                &&& after.engine == self.engine && after.pools == self.pools
            },
            Step::Request { inv, from, amount } => {
                &&& inv.contract == self.vault_at
                &&& self.vault.request_withdrawal_fault(inv, from, amount) is None
                &&& self.vault.requested(after.vault, from, amount, inv.timestamp)
                &&& self.agusd.retires(after.agusd, from, amount)
                &&& after.usdc == self.usdc && after.engine == self.engine && after.pools
                    == self.pools
            },
            Step::Claim { inv, from, id } => {
                &&& inv.contract == self.vault_at
                &&& self.vault.claim_withdrawal_fault(inv, from, id, self.cash(), true) is None
                &&& self.vault.collected(after.vault, id)
                &&& self.usdc.pays(
                    after.usdc,
                    self.vault_at,
                    from,
                    self.vault.claims@[id].amount,
                )
                &&& after.agusd == self.agusd && after.engine == self.engine && after.pools
                    == self.pools
            },
            Step::Settle => {
                let claim = self.vault.claims@[self.vault.queue_head];
                &&& self.vault.settle_withdrawal_fault(self.cash(), true) is None
                &&& self.vault.settled(after.vault)
                &&& self.usdc.pays(after.usdc, self.vault_at, claim.owner, claim.amount)
                &&& after.agusd == self.agusd && after.engine == self.engine && after.pools
                    == self.pools
            },
            Step::StepOver => {
                &&& self.vault.settle_withdrawal_fault(self.cash(), false) is None
                &&& self.vault.deferred_head(after.vault)
                &&& after.usdc == self.usdc && after.agusd == self.agusd && after.engine
                    == self.engine && after.pools == self.pools
            },
            Step::Allocate { inv, to_vault, to_pool, admin, pool, amount } => {
                &&& inv.contract == self.engine_at && to_vault.contract == self.vault_at
                &&& self.engine.allocate_fault(
                    inv,
                    admin,
                    pool,
                    amount,
                    self.wiring(),
                    Ok(self.vault.free(self.cash()) as i128),
                    Ok(self.vault.base(self.cash()) as i128),
                ) is None
                &&& self.engine.allocated(after.engine, pool, amount)
                &&& self.vault.settle_allocation_fault(to_vault, amount, self.cash()) is None
                &&& self.vault.released(after.vault, amount)
                &&& self.usdc.pays(after.usdc, self.vault_at, pool, amount)
                &&& self.pools[pool].takes(to_pool, amount)
                &&& self.pool_rebooked(after, pool, self.pools[pool].exposure() + amount)
                &&& after.agusd == self.agusd
            },
            Step::Deallocate { inv, to_vault, to_pool, pool, amount } => {
                &&& inv.contract == self.engine_at && to_vault.contract == self.vault_at
                &&& self.engine.deallocate_fault(inv, pool, amount, self.wiring()) is None
                &&& self.engine.deallocated(after.engine, pool, amount)
                &&& self.pools[pool].returns_capital(to_pool, amount)
                &&& self.pool_rebooked(after, pool, self.pools[pool].exposure() - amount)
                &&& self.usdc.pays(after.usdc, pool, self.vault_at, amount)
                &&& self.vault.record_repayment_fault(to_vault, amount, after.cash()) is None
                &&& self.vault.repaid(after.vault, amount)
                &&& after.agusd == self.agusd
            },
            Step::WriteDown { inv, to_vault, to_pool, admin, pool, amount } => {
                &&& inv.contract == self.engine_at && to_vault.contract == self.vault_at
                &&& self.vault.role.admin is Some
                &&& self.engine.write_down_fault(
                    inv,
                    admin,
                    pool,
                    amount,
                    Ok(self.vault.role.admin->0),
                ) is None
                &&& self.engine.wrote_down(after.engine, pool, amount)
                &&& self.pools[pool].takes_loss(to_pool, amount)
                &&& self.pool_rebooked(after, pool, self.pools[pool].exposure() - amount)
                &&& self.vault.record_writedown_fault(to_vault, admin, amount) is None
                &&& self.vault.wrote_down(after.vault, amount)
                &&& after.usdc == self.usdc && after.agusd == self.agusd
            },
            Step::Recover { inv, to_vault, to_pool, admin, pool } => {
                let surplus = (self.usdc.holds(pool) - self.pools[pool].exposure()) as i128;
                &&& inv.contract == self.engine_at && to_vault.contract == self.vault_at
                &&& self.pools.dom().contains(pool)
                &&& self.pools[pool].sweeps(
                    to_pool,
                    self.engine_at,
                    self.usdc.holds(pool) as i128,
                )
                &&& self.usdc.pays(after.usdc, pool, self.vault_at, surplus)
                &&& self.vault.role.admin is Some
                &&& self.engine.recover_fault(
                    inv,
                    admin,
                    pool,
                    Ok(self.vault.role.admin->0),
                    self.wiring(),
                    Ok(surplus),
                ) is None
                &&& self.engine.recovered(after.engine, pool, surplus)
                &&& self.vault.record_recovery_fault(to_vault, admin, surplus, after.cash())
                    is None
                &&& self.vault.recouped(after.vault, surplus)
                &&& after.agusd == self.agusd && after.pools == self.pools
            },
            Step::BookRecovery { inv, to_vault, admin, pool, amount } => {
                &&& inv.contract == self.engine_at && to_vault.contract == self.vault_at
                &&& self.vault.role.admin is Some
                &&& self.engine.book_recovery_fault(
                    inv,
                    admin,
                    pool,
                    amount,
                    Ok(self.vault.role.admin->0),
                ) is None
                &&& self.engine.recovered(after.engine, pool, amount)
                &&& self.vault.record_recovery_fault(to_vault, admin, amount, self.cash())
                    is None
                &&& self.vault.recouped(after.vault, amount)
                &&& after.usdc == self.usdc && after.agusd == self.agusd && after.pools
                    == self.pools
            },
            Step::Sweep { inv, pool, caller } => {
                let surplus = (self.usdc.holds(pool) - self.pools[pool].exposure()) as i128;
                &&& self.pools.dom().contains(pool)
                &&& self.pools[pool].sweeps(inv, caller, self.usdc.holds(pool) as i128)
                &&& self.usdc.pays(after.usdc, pool, self.vault_at, surplus)
                &&& after.agusd == self.agusd && after.vault == self.vault && after.engine
                    == self.engine && after.pools == self.pools
            },
            Step::Pay { from, to, amount } => {
                &&& self.outside(from)
                &&& self.usdc.pays(after.usdc, from, to, amount)
                &&& after.agusd == self.agusd && after.vault == self.vault && after.engine
                    == self.engine && after.pools == self.pools
            },
            Step::Issue { to, amount } => {
                &&& self.usdc.issues(after.usdc, to, amount)
                &&& after.agusd == self.agusd && after.vault == self.vault && after.engine
                    == self.engine && after.pools == self.pools
            },
            Step::Retire { from, amount } => {
                &&& self.outside(from)
                &&& self.usdc.retires(after.usdc, from, amount)
                &&& after.agusd == self.agusd && after.vault == self.vault && after.engine
                    == self.engine && after.pools == self.pools
            },
            Step::PayAgUsd { from, to, amount } => {
                &&& self.agusd.pays(after.agusd, from, to, amount)
                &&& after.usdc == self.usdc && after.vault == self.vault && after.engine
                    == self.engine && after.pools == self.pools
            },
            Step::RetireAgUsd { from, amount } => {
                &&& self.agusd.retires(after.agusd, from, amount)
                &&& after.usdc == self.usdc && after.vault == self.vault && after.engine
                    == self.engine && after.pools == self.pools
            },
            Step::Configure => {
                &&& after.vault == (Vault {
                    role: after.vault.role,
                    paused: after.vault.paused,
                    floor_bps: after.vault.floor_bps,
                    oracle: after.vault.oracle,
                    oracle_feed: after.vault.oracle_feed,
                    ..self.vault
                })
                &&& after.vault.floor_bps <= BPS
                &&& after.engine.sound()
                &&& after.engine.vault == self.engine.vault
                &&& after.engine.total_allocated == self.engine.total_allocated
                &&& after.engine.written_off == self.engine.written_off
                &&& forall|p: Address| #[trigger]
                    after.engine.exposure(p) == self.engine.exposure(p)
                &&& after.usdc == self.usdc && after.agusd == self.agusd && after.pools
                    == self.pools
            },
            Step::Admit { pool } => {
                let fresh = after.pools[pool];
                &&& self.outside(pool)
                &&& self.engine.exposure(pool) == 0
                &&& fresh.exposure() == 0
                &&& fresh.names(self.engine_at, self.vault_at, self.usdc_at)
                &&& after.pools == self.pools.insert(pool, fresh)
                &&& after.usdc == self.usdc && after.agusd == self.agusd && after.vault
                    == self.vault && after.engine == self.engine
            },
        }
    }
}

proof fn lemma_booked_out(pools: Map<Address, Adapter>, pool: Address, a: Adapter)
    requires
        pools.dom().finite(),
    ensures
        booked_out(pools.insert(pool, a)) == booked_out(pools) + a.exposure() - (
        if pools.dom().contains(pool) {
            pools[pool].exposure()
        } else {
            0
        }),
{
    lemma_total_insert(pools, |p: Address, a: Adapter| a.exposure(), pool, a);
}

/// A custodian is paid or pays, and every other balance is as it was.
proof fn lemma_usdc(
    before: Deployment,
    after: Deployment,
    from: Address,
    to: Address,
    amount: i128,
)
    requires
        before.usdc.sound(),
        before.usdc.pays(after.usdc, from, to, amount),
    ensures
        after.usdc.sound(),
        forall|a: Address| #[trigger]
            after.usdc.holds(a) == before.usdc.holds(a) + (if a == to {
                amount as int
            } else {
                0
            }) - (if a == from {
                amount as int
            } else {
                0
            }),
{
    before.usdc.a_payment_brings_what_it_says(after.usdc, from, to, amount, before.usdc_at);
}

/// The adapters still agree with the engine after one of them was rebooked.
proof fn lemma_pools(before: Deployment, after: Deployment, pool: Address)
    requires
        before.consistent(),
        before.otherwise_same(after),
        before.pools.dom().contains(pool),
        after.pools == before.pools.insert(pool, after.pools[pool]),
        after.pools[pool].names(before.engine_at, before.vault_at, before.usdc_at),
        0 <= after.pools[pool].exposure() <= after.usdc.holds(pool),
        after.pools[pool].exposure() == after.engine.exposure(pool),
        forall|p: Address|
            p != pool ==> #[trigger] after.engine.exposure(p) == before.engine.exposure(p),
        forall|p: Address|
            p != pool && p != before.vault_at ==> #[trigger] after.usdc.holds(p)
                == before.usdc.holds(p),
    ensures
        after.pools.dom().finite() && !after.pools.dom().contains(after.vault_at),
        forall|p: Address| #[trigger]
            after.pools.dom().contains(p) ==> {
                &&& after.pools[p].names(after.engine_at, after.vault_at, after.usdc_at)
                &&& 0 <= after.pools[p].exposure() <= after.usdc.holds(p)
                &&& after.pools[p].exposure() == after.engine.exposure(p)
            },
{
    assert forall|p: Address| #[trigger] after.pools.dom().contains(p) implies {
        &&& after.pools[p].names(after.engine_at, after.vault_at, after.usdc_at)
        &&& 0 <= after.pools[p].exposure() <= after.usdc.holds(p)
        &&& after.pools[p].exposure() == after.engine.exposure(p)
    } by {
        if p != pool {
            assert(before.pools.dom().contains(p));
        }
    }
}

/// No transaction on a deployment makes its books disagree.
pub proof fn every_step_keeps_the_books(before: Deployment, after: Deployment, step: Step)
    requires
        before.consistent(),
        before.steps(after, step),
    ensures
        after.consistent(),
{
    before.vault.queued_is_not_negative();
    match step {
        Step::Deposit { inv, from, amount } => {
            lemma_usdc(before, after, from, before.vault_at, amount);
            before.agusd.an_issue_brings_what_it_says(
                after.agusd,
                from,
                amount,
                before.agusd_at,
            );
        },
        Step::Request { inv, from, amount } => {
            before.vault.lemma_requested(after.vault, from, amount, inv.timestamp);
            before.agusd.a_retirement_takes_what_it_says(
                after.agusd,
                from,
                amount,
                before.agusd_at,
            );
        },
        Step::Claim { inv, from, id } => {
            let amount = before.vault.claims@[id].amount;
            before.vault.lemma_paid(after.vault, id);
            lemma_usdc(before, after, before.vault_at, from, amount);
        },
        Step::Settle => {
            let id = before.vault.queue_head;
            let claim = before.vault.claims@[id];
            assert(!stepped_over(before.vault.deferred@, id));
            before.vault.lemma_paid(after.vault, id);
            lemma_usdc(before, after, before.vault_at, claim.owner, claim.amount);
        },
        Step::StepOver => {
            before.vault.lemma_deferred_head(after.vault);
        },
        Step::Allocate { inv, to_vault, to_pool, admin, pool, amount } => {
            before.engine.lemma_allocated(after.engine, pool, amount);
            lemma_usdc(before, after, before.vault_at, pool, amount);
            lemma_booked_out(before.pools, pool, after.pools[pool]);
            lemma_pools(before, after, pool);
        },
        Step::Deallocate { inv, to_vault, to_pool, pool, amount } => {
            before.engine.lemma_deallocated(after.engine, pool, amount);
            lemma_usdc(before, after, pool, before.vault_at, amount);
            lemma_booked_out(before.pools, pool, after.pools[pool]);
            lemma_pools(before, after, pool);
        },
        Step::WriteDown { inv, to_vault, to_pool, admin, pool, amount } => {
            before.engine.lemma_wrote_down(after.engine, pool, amount);
            lemma_booked_out(before.pools, pool, after.pools[pool]);
            lemma_pools(before, after, pool);
        },
        Step::Recover { inv, to_vault, to_pool, admin, pool } => {
            let surplus = (before.usdc.holds(pool) - before.pools[pool].exposure()) as i128;
            before.engine.lemma_recovered(after.engine, pool, surplus);
            lemma_usdc(before, after, pool, before.vault_at, surplus);
        },
        Step::BookRecovery { inv, to_vault, admin, pool, amount } => {
            before.engine.lemma_recovered(after.engine, pool, amount);
        },
        Step::Sweep { inv, pool, caller } => {
            let surplus = (before.usdc.holds(pool) - before.pools[pool].exposure()) as i128;
            lemma_usdc(before, after, pool, before.vault_at, surplus);
        },
        Step::Pay { from, to, amount } => {
            lemma_usdc(before, after, from, to, amount);
        },
        Step::Issue { to, amount } => {
            before.usdc.an_issue_brings_what_it_says(after.usdc, to, amount, before.usdc_at);
        },
        Step::Retire { from, amount } => {
            before.usdc.a_retirement_takes_what_it_says(
                after.usdc,
                from,
                amount,
                before.usdc_at,
            );
        },
        Step::PayAgUsd { from, to, amount } => {
            before.agusd.a_payment_brings_what_it_says(
                after.agusd,
                from,
                to,
                amount,
                before.agusd_at,
            );
        },
        Step::RetireAgUsd { from, amount } => {
            before.agusd.a_retirement_takes_what_it_says(
                after.agusd,
                from,
                amount,
                before.agusd_at,
            );
        },
        Step::Configure => {},
        Step::Admit { pool } => {
            lemma_booked_out(before.pools, pool, after.pools[pool]);
            assert(held(before.usdc.balances@, pool) >= 0);
        },
    }
}

/// The books are intact at every point of every history.
pub proof fn the_books_agree_forever(history: Seq<Deployment>, steps: Seq<Step>, at: int)
    requires
        history.len() == steps.len() + 1,
        history[0].consistent(),
        forall|i: int|
            0 <= i < steps.len() ==> (#[trigger] history[i]).steps(history[i + 1], steps[i]),
        0 <= at < history.len(),
    ensures
        history[at].consistent(),
    decreases at,
{
    if at > 0 {
        the_books_agree_forever(history, steps, at - 1);
        assert(history[at - 1].steps(history[at - 1 + 1], steps[at - 1]));
        every_step_keeps_the_books(history[at - 1], history[at], steps[at - 1]);
    }
}

/// Total assets are the vault's cash and what the adapters have booked, and
/// the engine's total is the latter.
pub proof fn total_assets_are_cash_and_exposures(d: Deployment)
    requires
        d.consistent(),
    ensures
        d.vault.idle(d.cash()) + d.vault.deployed == d.usdc.holds(d.vault_at) + booked_out(d.pools),
        d.engine.total_allocated == booked_out(d.pools),
{
}

/// Every agUSD, outstanding or queued, is covered by the vault's cash, by what
/// the adapters have booked, or by a recognised loss.
pub proof fn every_agusd_is_accounted_for(d: Deployment)
    requires
        d.consistent(),
    ensures
        d.agusd.supply + d.vault.queued <= d.usdc.holds(d.vault_at) + booked_out(d.pools)
            + d.vault.written_off,
{
}

/// No adapter holds less USDC than it has booked.
pub proof fn every_adapter_is_funded(d: Deployment, pool: Address)
    requires
        d.consistent(),
        d.pools.dom().contains(pool),
    ensures
        d.usdc.holds(pool) >= d.pools[pool].exposure(),
{
}

/// agUSD comes into being only by a deposit, one for one, and goes only by a
/// withdrawal request, one for one, or by a holder's own burn.
pub proof fn supply_follows_deposits_and_requests(
    before: Deployment,
    after: Deployment,
    step: Step,
)
    requires
        before.consistent(),
        before.steps(after, step),
    ensures
        after.agusd.supply == before.agusd.supply + (match step {
            Step::Deposit { amount, .. } => amount as int,
            Step::Request { amount, .. } => -amount,
            Step::RetireAgUsd { amount, .. } => -amount,
            _ => 0,
        }),
{
}

/// Capital that goes out to a pool or comes back moves between cash and
/// deployed capital, and total assets are what they were.
pub proof fn allocating_leaves_total_assets_alone(
    before: Deployment,
    after: Deployment,
    step: Step,
)
    requires
        before.consistent(),
        before.steps(after, step),
        step is Allocate || step is Deallocate,
    ensures
        after.vault.idle(after.cash()) + after.vault.deployed == before.vault.idle(before.cash())
            + before.vault.deployed,
{
    match step {
        Step::Allocate { inv, to_vault, to_pool, admin, pool, amount } => {
            lemma_usdc(before, after, before.vault_at, pool, amount);
        },
        Step::Deallocate { inv, to_vault, to_pool, pool, amount } => {
            lemma_usdc(before, after, pool, before.vault_at, amount);
        },
        _ => {},
    }
}

/// The losses on record rise only by a write-down, by what it writes off, and
/// fall only by a recovery, by no more than the cash it books.
pub proof fn losses_fall_only_to_cash(before: Deployment, after: Deployment, step: Step)
    requires
        before.consistent(),
        before.steps(after, step),
    ensures
        step matches Step::WriteDown { amount, .. } ==> after.vault.written_off
            == before.vault.written_off + amount,
        step is Recover || step is BookRecovery ==> 0 <= before.vault.written_off
            - after.vault.written_off <= after.vault.booked - before.vault.booked,
        !(step is WriteDown || step is Recover || step is BookRecovery)
            ==> after.vault.written_off == before.vault.written_off,
{
}

/// The floor base moves only with deposits, requests, outside payments and
/// recoveries: neither an allocation, a payout nor a write-down moves it.
pub proof fn the_floor_base_stands_still(before: Deployment, after: Deployment, step: Step)
    requires
        before.consistent(),
        before.steps(after, step),
        step is Allocate || step is Claim || step is Settle || step is StepOver
            || step is WriteDown || step is Configure,
        step matches Step::Claim { from, .. } ==> from != before.vault_at,
        step is Settle ==> before.vault.claims@[before.vault.queue_head].owner != before.vault_at,
    ensures
        after.vault.base(after.cash()) == before.vault.base(before.cash()),
{
    before.vault.queued_is_not_negative();
    match step {
        Step::Claim { inv, from, id } => {
            let amount = before.vault.claims@[id].amount;
            before.vault.lemma_paid(after.vault, id);
            lemma_usdc(before, after, before.vault_at, from, amount);
        },
        Step::Settle => {
            let id = before.vault.queue_head;
            let claim = before.vault.claims@[id];
            assert(!stepped_over(before.vault.deferred@, id));
            before.vault.lemma_paid(after.vault, id);
            lemma_usdc(before, after, before.vault_at, claim.owner, claim.amount);
        },
        Step::Allocate { inv, to_vault, to_pool, admin, pool, amount } => {
            lemma_usdc(before, after, before.vault_at, pool, amount);
        },
        _ => {},
    }
}

/// A repayment leaves the floor base where it was and a recovery never lowers
/// it, whatever the queue is owed.
pub proof fn capital_coming_home_never_lowers_the_floor_base(
    before: Deployment,
    after: Deployment,
    step: Step,
)
    requires
        before.consistent(),
        before.steps(after, step),
        step is Deallocate || step is Recover,
    ensures
        after.vault.base(after.cash()) >= before.vault.base(before.cash()),
        step is Deallocate ==> after.vault.base(after.cash()) == before.vault.base(before.cash()),
{
    match step {
        Step::Deallocate { inv, to_vault, to_pool, pool, amount } => {
            lemma_usdc(before, after, pool, before.vault_at, amount);
        },
        Step::Recover { inv, to_vault, to_pool, admin, pool } => {
            let surplus = (before.usdc.holds(pool) - before.pools[pool].exposure()) as i128;
            lemma_usdc(before, after, pool, before.vault_at, surplus);
        },
        _ => {},
    }
}

/// A booking moves no cash, so it lowers the floor base by exactly the losses
/// it takes off the books: the cash it books has been in the base since it
/// arrived.
pub proof fn a_booking_lowers_the_floor_base_by_the_losses_it_releases(
    before: Deployment,
    after: Deployment,
    step: Step,
)
    requires
        before.consistent(),
        before.steps(after, step),
        step is BookRecovery,
    ensures
        step matches Step::BookRecovery { amount, .. } ==> {
            &&& after.cash() == before.cash()
            &&& before.vault.base(before.cash()) - after.vault.base(after.cash())
                == before.vault.applied(amount)
            &&& before.vault.applied(amount) == before.vault.written_off - after.vault.written_off
        },
{
    every_step_keeps_the_books(before, after, step);
    before.agusd.supply_covers_every_balance(before.vault_at);
    after.agusd.supply_covers_every_balance(after.vault_at);
}

/// After an allocation the reserve floor stands, on the vault's own books and
/// on its balance as it then is. Where the vault and the engine have set it
/// differently, the tighter of the two does.
pub proof fn an_allocation_leaves_the_floor_standing(
    before: Deployment,
    after: Deployment,
    step: Step,
)
    requires
        before.consistent(),
        before.steps(after, step),
        step is Allocate,
    ensures
        after.vault.floor_stands(after.cash()),
        after.vault.free(after.cash()) * BPS >= before.engine.floor_bps * after.vault.base(
            after.cash(),
        ),
{
    before.vault.queued_is_not_negative();
    match step {
        Step::Allocate { inv, to_vault, to_pool, admin, pool, amount } => {
            lemma_usdc(before, after, before.vault_at, pool, amount);
        },
        _ => {},
    }
}

/// An engine whose own floor is at least the vault's never meets the vault's:
/// what the engine lets through on the vault's numbers, the vault releases.
pub proof fn an_honest_engine_never_meets_the_vaults_floor(
    d: Deployment,
    inv: Invocation,
    to_vault: Invocation,
    admin: Address,
    pool: Address,
    amount: i128,
)
    requires
        d.consistent(),
        d.engine.allocate_fault(
            inv,
            admin,
            pool,
            amount,
            d.wiring(),
            Ok(d.vault.free(d.cash()) as i128),
            Ok(d.vault.base(d.cash()) as i128),
        ) is None,
        d.vault.floor_bps <= d.engine.floor_bps,
        !d.vault.paused,
        to_vault.signed(d.engine_at),
        fits(d.vault.base(d.cash())),
        fits(d.vault.booked - amount),
    ensures
        d.vault.settle_allocation_fault(to_vault, amount, d.cash()) is None,
{
    d.vault.queued_is_not_negative();
    assert(held(d.usdc.balances@, d.vault_at) >= 0);
    let base = d.vault.base(d.cash());
    assert(d.vault.floor_bps * base <= d.engine.floor_bps * base) by (nonlinear_arith)
        requires
            d.vault.floor_bps <= d.engine.floor_bps,
            base >= 0,
    ;
    assert(0 <= d.vault.floor_bps * base) by (nonlinear_arith)
        requires
            0 <= d.vault.floor_bps,
            base >= 0,
    ;
}

/// A claim on record keeps its owner, its amount and its date for good, and
/// once paid stays paid. The two ends of the queue only move forward.
pub proof fn a_claim_on_record_stands(before: Deployment, after: Deployment, step: Step, id: u64)
    requires
        before.consistent(),
        before.steps(after, step),
        before.vault.claims@.dom().contains(id),
    ensures
        after.vault.claims@.dom().contains(id),
        after.vault.claims@[id].owner == before.vault.claims@[id].owner,
        after.vault.claims@[id].amount == before.vault.claims@[id].amount,
        after.vault.claims@[id].requested_at == before.vault.claims@[id].requested_at,
        before.vault.claims@[id].claimed ==> after.vault.claims@[id].claimed,
        before.vault.queue_head <= after.vault.queue_head,
        before.vault.queue_tail <= after.vault.queue_tail,
{
    assert(!before.vault.claims@.dom().contains(before.vault.queue_tail));
}

/// Deployed capital rises only by an allocation, and falls only by a repayment
/// whose cash came in or by a write-down, each by its own amount.
pub proof fn deployed_capital_falls_in_two_ways(before: Deployment, after: Deployment, step: Step)
    requires
        before.consistent(),
        before.steps(after, step),
    ensures
        after.vault.deployed == before.vault.deployed + (match step {
            Step::Allocate { amount, .. } => amount as int,
            Step::Deallocate { amount, .. } => -amount,
            Step::WriteDown { amount, .. } => -amount,
            _ => 0,
        }),
        step matches Step::Deallocate { amount, .. } ==> after.usdc.holds(after.vault_at)
            == before.usdc.holds(before.vault_at) + amount,
{
    match step {
        Step::Deallocate { inv, to_vault, to_pool, pool, amount } => {
            lemma_usdc(before, after, pool, before.vault_at, amount);
        },
        _ => {},
    }
}

} // verus!
