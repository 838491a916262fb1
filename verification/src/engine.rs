//! The allocation engine, the constraint layer between the vault and the
//! pools.
//!
//! An operator says where capital goes; the engine refuses. Every allocation
//! is held to a cap per pool, a cap per originator, a cap per jurisdiction and
//! a reserve floor. The caps measure what a pool has had, not only what it
//! still owes: a write-down takes capital off the exposure and leaves it
//! charged, so recognising a loss reopens no limit. The charge is released
//! only by cash that reached the vault.

use crate::address::{Address, Key, Symbol};
use crate::host::{Call, Effects, Event, Fault, Invocation, InvokeError, Receipt, Rent, Trap};
use crate::math::{fits, lemma_quotient_shrinks, minus, over, plus, quotient, smaller, times, BPS};
use crate::role::{Role, RoleRefusal};
use crate::table::{lemma_total_agrees, lemma_total_bounds, lemma_total_insert};
use crate::table::{lemma_total_listing, lemma_total_none, lemma_total_remove, lemma_total_split};
use crate::table::{lists, mapped, ordered, total, Table};
use crate::token::held;
use vstd::prelude::*;

verus! {

/// How far ahead an exposure record is kept alive: ninety days of ledgers.
pub const EXPOSURE_BUMP: u32 = 1_555_200;

/// An exposure record with at least this long to live is left alone.
pub const EXPOSURE_LIFETIME: u32 = 1_537_920;

/// What the engine refuses.
#[derive(Clone, Copy, Debug, PartialEq, Eq, Structural)]
pub enum EngineError {
    /// Kept so that its code never means anything new.
    AlreadyInitialized,
    NotInitialized,
    NotAdmin,
    PoolAlreadyRegistered,
    PoolNotRegistered,
    /// A cap or floor above 10000 bps.
    InvalidCap,
    InvalidAmount,
    /// This pool would hold more than its cap allows.
    PoolCapExceeded,
    /// The pools of this originator would exceed the originator cap.
    OriginatorCapExceeded,
    /// The pools in this jurisdiction would exceed the jurisdiction cap.
    JurisdictionCapExceeded,
    /// Free reserves would fall below the floor.
    ReserveFloorBreached,
    /// The vault does not have the free reserves to fund the allocation.
    InsufficientReserves,
    /// More deallocated than the pool has booked as deployed.
    ExposureUnderflow,
    /// The vault pointer cannot move while anything is deployed.
    CapitalDeployed,
    /// The adapter does not name this engine and this vault back, or moves
    /// another token.
    AdapterMismatch,
    /// More written down than the pool has booked as deployed.
    WriteDownExceedsExposure,
    /// `accept_admin` with no handover in flight.
    NoPendingAdmin,
    /// `accept_admin` by an address that was not the one proposed.
    NotPendingAdmin,
    /// This engine's admin and the vault's are not the same address.
    AdminMismatch,
    /// The vault does not answer, or answers with a different admin.
    VaultMismatch,
    /// The engine or the adapter still books capital in the pool.
    PoolHasExposure,
    /// A write-down is still charged against the pool.
    PoolHasWrittenOffCharge,
}

impl EngineError {
    /// The code the ledger reports.
    pub open spec fn number(self) -> u32 {
        match self {
            EngineError::AlreadyInitialized => 400,
            EngineError::NotInitialized => 401,
            EngineError::NotAdmin => 402,
            EngineError::PoolAlreadyRegistered => 403,
            EngineError::PoolNotRegistered => 404,
            EngineError::InvalidCap => 405,
            EngineError::InvalidAmount => 406,
            EngineError::PoolCapExceeded => 407,
            EngineError::OriginatorCapExceeded => 408,
            EngineError::JurisdictionCapExceeded => 409,
            EngineError::ReserveFloorBreached => 410,
            EngineError::InsufficientReserves => 411,
            EngineError::ExposureUnderflow => 412,
            EngineError::CapitalDeployed => 413,
            EngineError::AdapterMismatch => 414,
            EngineError::WriteDownExceedsExposure => 415,
            EngineError::NoPendingAdmin => 416,
            EngineError::NotPendingAdmin => 417,
            EngineError::AdminMismatch => 418,
            EngineError::VaultMismatch => 419,
            EngineError::PoolHasExposure => 420,
            EngineError::PoolHasWrittenOffCharge => 421,
        }
    }

    /// The code the ledger reports.
    pub fn code(self) -> (n: u32)
        ensures
            n == self.number(),
    {
        match self {
            EngineError::AlreadyInitialized => 400,
            EngineError::NotInitialized => 401,
            EngineError::NotAdmin => 402,
            EngineError::PoolAlreadyRegistered => 403,
            EngineError::PoolNotRegistered => 404,
            EngineError::InvalidCap => 405,
            EngineError::InvalidAmount => 406,
            EngineError::PoolCapExceeded => 407,
            EngineError::OriginatorCapExceeded => 408,
            EngineError::JurisdictionCapExceeded => 409,
            EngineError::ReserveFloorBreached => 410,
            EngineError::InsufficientReserves => 411,
            EngineError::ExposureUnderflow => 412,
            EngineError::CapitalDeployed => 413,
            EngineError::AdapterMismatch => 414,
            EngineError::WriteDownExceedsExposure => 415,
            EngineError::NoPendingAdmin => 416,
            EngineError::NotPendingAdmin => 417,
            EngineError::AdminMismatch => 418,
            EngineError::VaultMismatch => 419,
            EngineError::PoolHasExposure => 420,
            EngineError::PoolHasWrittenOffCharge => 421,
        }
    }
}

/// A whitelisted pool. The concentration caps add pools up by originator and by
/// jurisdiction.
#[derive(Clone, Copy, Debug, PartialEq, Eq, Structural)]
pub struct Pool {
    pub originator: Symbol,
    pub jurisdiction: Symbol,
    pub cap_bps: u32,
}

/// Global concentration limits, in bps of total assets.
#[derive(Clone, Copy, Debug, PartialEq, Eq, Structural)]
pub struct Caps {
    pub pool_bps: u32,
    pub originator_bps: u32,
    pub jurisdiction_bps: u32,
}

/// A pool was whitelisted.
#[derive(Clone, Copy, Debug, PartialEq, Eq, Structural)]
pub struct PoolRegistered {
    pub pool: Address,
    pub originator: Symbol,
    pub jurisdiction: Symbol,
    pub cap_bps: u32,
}

/// The global caps were set.
#[derive(Clone, Copy, Debug, PartialEq, Eq, Structural)]
pub struct CapsUpdated {
    pub pool_bps: u32,
    pub originator_bps: u32,
    pub jurisdiction_bps: u32,
}

/// The reserve floor was set.
#[derive(Clone, Copy, Debug, PartialEq, Eq, Structural)]
pub struct ReserveFloorUpdated {
    pub floor_bps: u32,
}

/// The vault pointer moved.
#[derive(Clone, Copy, Debug, PartialEq, Eq, Structural)]
pub struct VaultRepointed {
    pub vault: Address,
}

/// Capital went out to a pool.
#[derive(Clone, Copy, Debug, PartialEq, Eq, Structural)]
pub struct Allocated {
    pub pool: Address,
    pub amount: i128,
    pub pool_exposure: i128,
    pub idle_after: i128,
}

/// Capital came back from a pool.
#[derive(Clone, Copy, Debug, PartialEq, Eq, Structural)]
pub struct Deallocated {
    pub pool: Address,
    pub amount: i128,
    pub pool_exposure: i128,
}

/// Part of a pool's exposure was recognised as lost.
#[derive(Clone, Copy, Debug, PartialEq, Eq, Structural)]
pub struct WrittenDown {
    pub pool: Address,
    pub amount: i128,
    pub pool_exposure: i128,
    pub reason: Symbol,
}

/// A pool's own cap was set.
#[derive(Clone, Copy, Debug, PartialEq, Eq, Structural)]
pub struct PoolCapSet {
    pub pool: Address,
    pub cap_bps: u32,
}

/// A pool left the registry.
#[derive(Clone, Copy, Debug, PartialEq, Eq, Structural)]
pub struct PoolUnregistered {
    pub pool: Address,
    pub originator: Symbol,
    pub jurisdiction: Symbol,
}

/// Written-off capital came home.
#[derive(Clone, Copy, Debug, PartialEq, Eq, Structural)]
pub struct Recovered {
    pub pool: Address,
    pub amount: i128,
    pub released: i128,
    pub written_off: i128,
}

/// A handover of the admin role was proposed.
#[derive(Clone, Copy, Debug, PartialEq, Eq, Structural)]
pub struct AdminProposed {
    pub new_admin: Address,
}

/// A proposed admin accepted the role.
#[derive(Clone, Copy, Debug, PartialEq, Eq, Structural)]
pub struct AdminChanged {
    pub admin: Address,
}

/// The storage of the allocation engine.
#[derive(Clone)]
pub struct AllocationEngine {
    pub role: Role,
    pub vault: Option<Address>,
    pub caps: Caps,
    pub floor_bps: u32,
    pub pools: Table<Address, Pool>,
    /// Capital deployed into each pool.
    pub exposures: Table<Address, i128>,
    pub total_allocated: i128,
    /// Exposure written off and not recovered.
    pub written_off: i128,
    /// The same, pool by pool: what a write-down charges against a pool's caps.
    pub written_off_pools: Table<Address, i128>,
}

/// What an adapter and the vault say about how an adapter is wired.
#[derive(Clone, Copy, Debug, PartialEq, Eq)]
pub struct Wiring {
    /// The engine the adapter takes instructions from.
    pub engine: Result<Address, InvokeError>,
    /// The vault the adapter repays.
    pub vault: Result<Address, InvokeError>,
    /// The token the adapter transfers with.
    pub usdc: Result<Address, InvokeError>,
    /// The token the engine's vault custodies.
    pub custodied: Result<Address, InvokeError>,
}

/// The sum of a book of amounts.
pub open spec fn sum_of(book: Map<Address, i128>) -> int {
    total(book, |pool: Address, amount: i128| amount as int)
}

/// Books that hold the same for everyone have one sum, whether or not they list
/// those with nothing.
proof fn lemma_sum_agrees(one: Map<Address, i128>, other: Map<Address, i128>)
    requires
        one.dom().finite(),
        other.dom().finite(),
        forall|p: Address| #[trigger] held(one, p) == held(other, p),
    ensures
        sum_of(one) == sum_of(other),
    decreases one.dom().len() + other.dom().len(),
{
    let f = |pool: Address, amount: i128| amount as int;
    if one.dom().len() > 0 || other.dom().len() > 0 {
        let k = if one.dom().len() > 0 {
            one.dom().choose()
        } else {
            other.dom().choose()
        };
        lemma_total_remove(one, f, k);
        lemma_total_remove(other, f, k);
        assert(held(one, k) == held(other, k));
        assert forall|p: Address| #[trigger] held(one.remove(k), p) == held(other.remove(k), p) by {
            assert(held(one, p) == held(other, p));
        }
        if !one.dom().contains(k) {
            assert(one.remove(k) =~= one);
        }
        if !other.dom().contains(k) {
            assert(other.remove(k) =~= other);
        }
        lemma_sum_agrees(one.remove(k), other.remove(k));
    }
}

proof fn lemma_sum_insert(book: Map<Address, i128>, pool: Address, amount: i128)
    requires
        book.dom().finite(),
    ensures
        sum_of(book.insert(pool, amount)) == sum_of(book) + amount - held(book, pool),
{
    lemma_total_insert(book, |pool: Address, amount: i128| amount as int, pool, amount);
}

proof fn lemma_sum_remove(book: Map<Address, i128>, pool: Address)
    requires
        book.dom().finite(),
    ensures
        sum_of(book.remove(pool)) == sum_of(book) - held(book, pool),
{
    lemma_total_remove(book, |pool: Address, amount: i128| amount as int, pool);
}

/// Which pools a concentration cap adds up.
#[derive(Clone, Copy, Debug, PartialEq, Eq, Structural)]
pub enum Group {
    /// Those fronted by one counterparty.
    Originator(Symbol),
    /// Those under one legal regime.
    Jurisdiction(Symbol),
}

impl Group {
    /// Whether a pool counts.
    pub open spec fn counts(self, pool: Pool) -> bool {
        match self {
            Group::Originator(s) => pool.originator == s,
            Group::Jurisdiction(s) => pool.jurisdiction == s,
        }
    }

    fn covers(&self, pool: &Pool) -> (b: bool)
        ensures
            b == self.counts(*pool),
    {
        match *self {
            Group::Originator(s) => pool.originator == s,
            Group::Jurisdiction(s) => pool.jurisdiction == s,
        }
    }
}

impl AllocationEngine {
    /// The contract's refusal for a refusal on the role.
    pub open spec fn denial(e: RoleRefusal) -> Fault<EngineError> {
        match e {
            RoleRefusal::Unset => Fault::Error(EngineError::NotInitialized),
            RoleRefusal::NotAdmin => Fault::Error(EngineError::NotAdmin),
            RoleRefusal::NoPending => Fault::Error(EngineError::NoPendingAdmin),
            RoleRefusal::NotPending => Fault::Error(EngineError::NotPendingAdmin),
            RoleRefusal::Unauthorized => Fault::Trap(Trap::Unauthorized),
        }
    }

    fn deny(e: RoleRefusal) -> (f: Fault<EngineError>)
        ensures
            f == AllocationEngine::denial(e),
    {
        match e {
            RoleRefusal::Unset => Fault::Error(EngineError::NotInitialized),
            RoleRefusal::NotAdmin => Fault::Error(EngineError::NotAdmin),
            RoleRefusal::NoPending => Fault::Error(EngineError::NoPendingAdmin),
            RoleRefusal::NotPending => Fault::Error(EngineError::NotPendingAdmin),
            RoleRefusal::Unauthorized => Fault::Trap(Trap::Unauthorized),
        }
    }

    /// Capital deployed into a pool.
    pub open spec fn exposure(self, pool: Address) -> int {
        held(self.exposures@, pool)
    }

    /// What has been written off against a pool and not recovered.
    pub open spec fn charge(self, pool: Address) -> int {
        held(self.written_off_pools@, pool)
    }

    /// What the concentration caps measure: what is deployed into a pool, and
    /// what was and has been written off.
    pub open spec fn charged(self, pool: Address) -> int {
        self.exposure(pool) + self.charge(pool)
    }

    /// The charged exposure of a group of pools.
    pub open spec fn charged_group(self, group: Group) -> int {
        total(
            self.pools@,
            |id: Address, pool: Pool|
                if group.counts(pool) {
                    self.charged(id)
                } else {
                    0
                },
        )
    }

    /// What every call keeps: no negative amount, totals that are the sums of
    /// their books, capital and charges only against registered pools, and
    /// limits that are shares of a whole.
    pub open spec fn sound(self) -> bool {
        &&& forall|p: Address| #[trigger] held(self.exposures@, p) >= 0
        &&& forall|p: Address| #[trigger] held(self.written_off_pools@, p) >= 0
        &&& forall|p: Address| #[trigger]
            held(self.exposures@, p) != 0 ==> self.pools@.dom().contains(p)
        &&& forall|p: Address| #[trigger]
            held(self.written_off_pools@, p) != 0 ==> self.pools@.dom().contains(p)
        &&& self.total_allocated == sum_of(self.exposures@)
        &&& 0 <= self.written_off <= sum_of(self.written_off_pools@)
        &&& self.floor_bps <= BPS
        &&& self.caps.pool_bps <= BPS && self.caps.originator_bps <= BPS
            && self.caps.jurisdiction_bps <= BPS
        &&& forall|p: Address| #[trigger]
            self.pools@.dom().contains(p) ==> self.pools@[p].cap_bps <= BPS
    }

    /// No pool has more deployed than there is in total.
    pub proof fn total_covers_every_exposure(self, pool: Address)
        requires
            self.sound(),
        ensures
            0 <= self.exposure(pool) <= self.total_allocated,
    {
        self.exposures.finite();
        let f = |pool: Address, amount: i128| amount as int;
        assert forall|p: Address| #[trigger] self.exposures@.dom().contains(p) implies f(
            p,
            self.exposures@[p],
        ) >= 0 by {
            assert(held(self.exposures@, p) >= 0);
        }
        lemma_total_bounds(self.exposures@, f, pool);
        assert(held(self.exposures@, pool) >= 0);
    }

    /// Why `admin` may not act as admin.
    pub open spec fn admin_fault(self, inv: Invocation, admin: Address) -> Option<
        Fault<EngineError>,
    > {
        match self.role.require_refusal(inv, admin) {
            Some(e) => Some(AllocationEngine::denial(e)),
            None => None,
        }
    }

    fn require_admin(&self, inv: &Invocation, admin: Address) -> (r: Result<(), Fault<EngineError>>)
        ensures
            match r {
                Ok(_) => self.admin_fault(*inv, admin) is None,
                Err(f) => self.admin_fault(*inv, admin) == Some(f),
            },
    {
        match self.role.require(inv, admin) {
            Ok(_) => Ok(()),
            Err(e) => Err(AllocationEngine::deny(e)),
        }
    }

    /// Why an adapter may not be used: it has to name this engine and this
    /// engine's vault, and transfer with the token that vault custodies.
    pub open spec fn adapter_fault(self, inv: Invocation, wiring: Wiring) -> Option<
        Fault<EngineError>,
    > {
        match self.vault {
            None => Some(Fault::Error(EngineError::NotInitialized)),
            Some(vault) => if wiring.engine == Ok::<Address, InvokeError>(inv.contract)
                && wiring.vault == Ok::<Address, InvokeError>(vault) && wiring.usdc is Ok
                && wiring.usdc == wiring.custodied {
                None
            } else {
                Some(Fault::Error(EngineError::AdapterMismatch))
            },
        }
    }

    fn require_adapter_matches(&self, inv: &Invocation, wiring: &Wiring) -> (r: Result<
        Address,
        Fault<EngineError>,
    >)
        ensures
            match r {
                Ok(vault) => self.adapter_fault(*inv, *wiring) is None && self.vault == Some(vault),
                Err(f) => self.adapter_fault(*inv, *wiring) == Some(f),
            },
    {
        let governed: Address = match self.vault {
            Some(v) => v,
            None => {
                return Err(Fault::Error(EngineError::NotInitialized));
            },
        };
        match (wiring.engine, wiring.vault, wiring.usdc, wiring.custodied) {
            (Ok(engine), Ok(vault), Ok(usdc), Ok(custodied)) => if engine == inv.contract && vault
                == governed && usdc == custodied {
                Ok(governed)
            } else {
                Err(Fault::Error(EngineError::AdapterMismatch))
            },
            _ => Err(Fault::Error(EngineError::AdapterMismatch)),
        }
    }

    /// An engine whose constructor has not run: every cap at zero and the
    /// floor at the whole, so it deploys nothing.
    pub fn empty() -> (x: AllocationEngine)
        ensures
            x.role == (Role { admin: None, pending: None }),
            x.vault is None,
            x.caps == (Caps { pool_bps: 0, originator_bps: 0, jurisdiction_bps: 0 }),
            x.floor_bps == BPS,
            x.pools@ == Map::<Address, Pool>::empty(),
            x.exposures@ == Map::<Address, i128>::empty(),
            x.written_off_pools@ == Map::<Address, i128>::empty(),
            x.total_allocated == 0 && x.written_off == 0,
            x.sound(),
    {
        let x = AllocationEngine {
            role: Role::vacant(),
            vault: None,
            caps: Caps { pool_bps: 0, originator_bps: 0, jurisdiction_bps: 0 },
            floor_bps: 10_000,
            pools: Table::new(),
            exposures: Table::new(),
            total_allocated: 0,
            written_off: 0,
            written_off_pools: Table::new(),
        };
        assert(x.exposures@.dom() =~= Set::empty());
        x
    }

    /// Why the constructor is refused, given who the vault says its admin is.
    pub open spec fn constructor_fault(
        inv: Invocation,
        admin: Address,
        vault_admin: Result<Address, InvokeError>,
    ) -> Option<Fault<EngineError>> {
        if !inv.signed(admin) {
            Some(Fault::Trap(Trap::Unauthorized))
        } else if vault_admin != Ok::<Address, InvokeError>(admin) {
            Some(Fault::Error(EngineError::VaultMismatch))
        } else {
            None
        }
    }

    /// Whether a vault answered with this admin.
    fn same_admin(answer: &Result<Address, InvokeError>, admin: Address) -> (b: bool)
        ensures
            b == (*answer == Ok::<Address, InvokeError>(admin)),
    {
        match *answer {
            Ok(a) => a == admin,
            Err(_) => false,
        }
    }

    /// What `__constructor` answers, and what it leaves behind.
    pub open spec fn __constructor_step(
        self,
        after: AllocationEngine,
        inv: Invocation,
        admin: Address,
        vault: Address,
        vault_admin: Result<Address, InvokeError>,
        r: Result<Receipt<()>, Fault<EngineError>>,
    ) -> bool {
        match r {
            Ok(d) => {
                &&& AllocationEngine::constructor_fault(inv, admin, vault_admin) is None
                &&& after.pools@ == Map::<Address, Pool>::empty()
                &&& after == (AllocationEngine {
                    role: Role { admin: Some(admin), ..self.role },
                    vault: Some(vault),
                    caps: Caps { pool_bps: 0, originator_bps: 0, jurisdiction_bps: 0 },
                    floor_bps: 10_000,
                    pools: after.pools,
                    ..self
                })
                &&& d.gives((), seq![], seq![], seq![Rent::Instance])
            },
            Err(f) => {
                &&& AllocationEngine::constructor_fault(inv, admin, vault_admin) == Some(f)
                &&& after == self
            },
        }
    }

    /// Records the admin and the vault, in the transaction that deploys the
    /// engine. The vault has to answer with the same admin, because
    /// recognising a loss takes one signature that satisfies both.
    pub fn __constructor(
        &mut self,
        inv: &Invocation,
        admin: Address,
        vault: Address,
        vault_admin: Result<Address, InvokeError>,
    ) -> (r: Result<Receipt<()>, Fault<EngineError>>)
        ensures
            old(self).__constructor_step(*final(self), *inv, admin, vault, vault_admin, r),
            old(self).sound() && old(self).exposures@ == Map::<Address, i128>::empty() && old(
                self,
            ).written_off_pools@ == Map::<Address, i128>::empty() ==> final(self).sound(),
    {
        if !inv.authorized(admin) {
            return Err(Fault::Trap(Trap::Unauthorized));
        }
        if !AllocationEngine::same_admin(&vault_admin, admin) {
            return Err(Fault::Error(EngineError::VaultMismatch));
        }
        self.role.admin = Some(admin);
        self.vault = Some(vault);
        self.caps = Caps { pool_bps: 0, originator_bps: 0, jurisdiction_bps: 0 };
        self.floor_bps = 10_000;
        self.pools = Table::new();
        Ok(Receipt { value: (), effects: Effects::none().keep(Rent::Instance) })
    }

    /// Why `set_vault` is refused, given who the vault says its admin is.
    pub open spec fn set_vault_fault(
        self,
        inv: Invocation,
        admin: Address,
        vault_admin: Result<Address, InvokeError>,
    ) -> Option<Fault<EngineError>> {
        if self.admin_fault(inv, admin) is Some {
            self.admin_fault(inv, admin)
        } else if self.total_allocated > 0 {
            Some(Fault::Error(EngineError::CapitalDeployed))
        } else if vault_admin != Ok::<Address, InvokeError>(admin) {
            Some(Fault::Error(EngineError::VaultMismatch))
        } else {
            None
        }
    }

    /// What `set_vault` answers, and what it leaves behind.
    pub open spec fn set_vault_step(
        self,
        after: AllocationEngine,
        inv: Invocation,
        admin: Address,
        vault: Address,
        vault_admin: Result<Address, InvokeError>,
        r: Result<Receipt<()>, Fault<EngineError>>,
    ) -> bool {
        match r {
            Ok(d) => {
                &&& self.set_vault_fault(inv, admin, vault_admin) is None
                &&& after == (AllocationEngine { vault: Some(vault), ..self })
                &&& d.gives(
                    (),
                    seq![],
                    seq![Event::VaultRepointed(VaultRepointed { vault })],
                    seq![Rent::Instance],
                )
            },
            Err(f) => {
                &&& self.set_vault_fault(inv, admin, vault_admin) == Some(f)
                &&& after == self
            },
        }
    }

    /// Points the engine at a different vault, while nothing is deployed.
    pub fn set_vault(
        &mut self,
        inv: &Invocation,
        admin: Address,
        vault: Address,
        vault_admin: Result<Address, InvokeError>,
    ) -> (r: Result<Receipt<()>, Fault<EngineError>>)
        ensures
            old(self).set_vault_step(*final(self), *inv, admin, vault, vault_admin, r),
            old(self).sound() ==> final(self).sound(),
    {
        match self.require_admin(inv, admin) {
            Ok(_) => {},
            Err(f) => {
                return Err(f);
            },
        }
        if self.total_allocated > 0 {
            return Err(Fault::Error(EngineError::CapitalDeployed));
        }
        if !AllocationEngine::same_admin(&vault_admin, admin) {
            return Err(Fault::Error(EngineError::VaultMismatch));
        }
        self.vault = Some(vault);
        Ok(
            Receipt {
                value: (),
                effects: Effects::none().keep(Rent::Instance).event(
                    Event::VaultRepointed(VaultRepointed { vault }),
                ),
            },
        )
    }

    /// Why `register_pool` is refused.
    pub open spec fn register_pool_fault(
        self,
        inv: Invocation,
        admin: Address,
        pool_id: Address,
        cap_bps: u32,
        wiring: Wiring,
    ) -> Option<Fault<EngineError>> {
        if self.admin_fault(inv, admin) is Some {
            self.admin_fault(inv, admin)
        } else if cap_bps > BPS {
            Some(Fault::Error(EngineError::InvalidCap))
        } else if self.pools@.dom().contains(pool_id) {
            Some(Fault::Error(EngineError::PoolAlreadyRegistered))
        } else {
            self.adapter_fault(inv, wiring)
        }
    }

    /// What `register_pool` answers, and what it leaves behind.
    pub open spec fn register_pool_step(
        self,
        after: AllocationEngine,
        inv: Invocation,
        admin: Address,
        pool_id: Address,
        originator: Symbol,
        jurisdiction: Symbol,
        cap_bps: u32,
        wiring: Wiring,
        r: Result<Receipt<()>, Fault<EngineError>>,
    ) -> bool {
        match r {
            Ok(d) => {
                &&& self.register_pool_fault(inv, admin, pool_id, cap_bps, wiring)
                    is None
                &&& after.pools@ == self.pools@.insert(
                    pool_id,
                    Pool { originator, jurisdiction, cap_bps },
                )
                &&& after == (AllocationEngine {
                    pools: after.pools,
                    ..self
                })
                &&& d.gives(
                    (),
                    seq![],
                    seq![
                        Event::PoolRegistered(
                            PoolRegistered { pool: pool_id, originator, jurisdiction, cap_bps },
                        ),
                    ],
                    seq![Rent::Instance],
                )
            },
            Err(f) => {
                &&& self.register_pool_fault(inv, admin, pool_id, cap_bps, wiring)
                    == Some(f)
                &&& after == self
            },
        }
    }

    /// Whitelists a pool with what the caps add up by.
    pub fn register_pool(
        &mut self,
        inv: &Invocation,
        admin: Address,
        pool_id: Address,
        originator: Symbol,
        jurisdiction: Symbol,
        cap_bps: u32,
        wiring: Wiring,
    ) -> (r: Result<Receipt<()>, Fault<EngineError>>)
        ensures
            old(self).register_pool_step(
                *final(self),
                *inv,
                admin,
                pool_id,
                originator,
                jurisdiction,
                cap_bps,
                wiring,
                r,
            ),
            old(self).sound() ==> final(self).sound(),
    {
        match self.require_admin(inv, admin) {
            Ok(_) => {},
            Err(f) => {
                return Err(f);
            },
        }
        if cap_bps > 10_000 {
            return Err(Fault::Error(EngineError::InvalidCap));
        }
        if self.pools.contains_key(pool_id) {
            return Err(Fault::Error(EngineError::PoolAlreadyRegistered));
        }
        match self.require_adapter_matches(inv, &wiring) {
            Ok(_) => {},
            Err(f) => {
                return Err(f);
            },
        }
        self.pools.set(pool_id, Pool { originator, jurisdiction, cap_bps });
        Ok(
            Receipt {
                value: (),
                effects: Effects::none().keep(Rent::Instance).event(
                    Event::PoolRegistered(
                        PoolRegistered { pool: pool_id, originator, jurisdiction, cap_bps },
                    ),
                ),
            },
        )
    }

    /// Why `set_pool_cap` is refused.
    pub open spec fn set_pool_cap_fault(
        self,
        inv: Invocation,
        admin: Address,
        pool_id: Address,
        cap_bps: u32,
    ) -> Option<Fault<EngineError>> {
        if self.admin_fault(inv, admin) is Some {
            self.admin_fault(inv, admin)
        } else if cap_bps > BPS {
            Some(Fault::Error(EngineError::InvalidCap))
        } else if !self.pools@.dom().contains(pool_id) {
            Some(Fault::Error(EngineError::PoolNotRegistered))
        } else {
            None
        }
    }

    /// What `set_pool_cap` answers, and what it leaves behind.
    pub open spec fn set_pool_cap_step(
        self,
        after: AllocationEngine,
        inv: Invocation,
        admin: Address,
        pool_id: Address,
        cap_bps: u32,
        r: Result<Receipt<()>, Fault<EngineError>>,
    ) -> bool {
        match r {
            Ok(d) => {
                &&& self.set_pool_cap_fault(inv, admin, pool_id, cap_bps) is None
                &&& after.pools@ == self.pools@.insert(
                    pool_id,
                    Pool { cap_bps, ..self.pools@[pool_id] },
                )
                &&& after == (AllocationEngine {
                    pools: after.pools,
                    ..self
                })
                &&& d.gives(
                    (),
                    seq![],
                    seq![Event::PoolCapSet(PoolCapSet { pool: pool_id, cap_bps })],
                    seq![Rent::Instance],
                )
            },
            Err(f) => {
                &&& self.set_pool_cap_fault(inv, admin, pool_id, cap_bps) == Some(f)
                &&& after == self
            },
        }
    }

    /// Changes a registered pool's own cap. A cap of zero freezes the pool.
    pub fn set_pool_cap(&mut self, inv: &Invocation, admin: Address, pool_id: Address, cap_bps: u32)
        -> (r: Result<Receipt<()>, Fault<EngineError>>)
        ensures
            old(self).set_pool_cap_step(*final(self), *inv, admin, pool_id, cap_bps, r),
            old(self).sound() ==> final(self).sound(),
    {
        match self.require_admin(inv, admin) {
            Ok(_) => {},
            Err(f) => {
                return Err(f);
            },
        }
        if cap_bps > 10_000 {
            return Err(Fault::Error(EngineError::InvalidCap));
        }
        let pool: Pool = match self.get_pool(pool_id) {
            Ok(p) => p,
            Err(e) => {
                return Err(Fault::Error(e));
            },
        };
        self.pools.set(
            pool_id,
            Pool { originator: pool.originator, jurisdiction: pool.jurisdiction, cap_bps },
        );
        Ok(
            Receipt {
                value: (),
                effects: Effects::none().keep(Rent::Instance).event(
                    Event::PoolCapSet(PoolCapSet { pool: pool_id, cap_bps }),
                ),
            },
        )
    }

    /// Why `unregister_pool` is refused, given what the adapter says it has
    /// booked.
    pub open spec fn unregister_pool_fault(
        self,
        inv: Invocation,
        admin: Address,
        pool_id: Address,
        adapter_exposure: Result<i128, InvokeError>,
    ) -> Option<Fault<EngineError>> {
        if self.admin_fault(inv, admin) is Some {
            self.admin_fault(inv, admin)
        } else if !self.pools@.dom().contains(pool_id) {
            Some(Fault::Error(EngineError::PoolNotRegistered))
        } else if self.exposure(pool_id) > 0 {
            Some(Fault::Error(EngineError::PoolHasExposure))
        } else if adapter_exposure is Err {
            Some(Fault::Trap(Trap::Callee(adapter_exposure->Err_0)))
        } else if adapter_exposure->Ok_0 > 0 {
            Some(Fault::Error(EngineError::PoolHasExposure))
        } else if self.charge(pool_id) > 0 {
            Some(Fault::Error(EngineError::PoolHasWrittenOffCharge))
        } else {
            None
        }
    }

    /// The state after a pool left the registry.
    pub open spec fn unregistered(self, after: AllocationEngine, pool_id: Address) -> bool {
        &&& after.pools@ == self.pools@.remove(pool_id)
        &&& after.exposures@ == self.exposures@.remove(pool_id)
        &&& after.written_off_pools@ == self.written_off_pools@.remove(pool_id)
        &&& after == (AllocationEngine {
            pools: after.pools,
            exposures: after.exposures,
            written_off_pools: after.written_off_pools,
            ..self
        })
    }

    /// What `unregister_pool` answers, and what it leaves behind.
    pub open spec fn unregister_pool_step(
        self,
        after: AllocationEngine,
        inv: Invocation,
        admin: Address,
        pool_id: Address,
        adapter_exposure: Result<i128, InvokeError>,
        r: Result<Receipt<()>, Fault<EngineError>>,
    ) -> bool {
        match r {
            Ok(d) => {
                let pool = self.pools@[pool_id];
                &&& self.unregister_pool_fault(inv, admin, pool_id, adapter_exposure)
                    is None
                &&& self.unregistered(after, pool_id)
                &&& d.gives(
                    (),
                    seq![],
                    seq![
                        Event::PoolUnregistered(
                            PoolUnregistered {
                                pool: pool_id,
                                originator: pool.originator,
                                jurisdiction: pool.jurisdiction,
                            },
                        ),
                    ],
                    seq![Rent::Instance],
                )
            },
            Err(f) => {
                &&& self.unregister_pool_fault(inv, admin, pool_id, adapter_exposure)
                    == Some(f)
                &&& after == self
            },
        }
    }

    /// Takes a pool out of the registry, once neither book has capital in it
    /// and no write-down is charged against it.
    pub fn unregister_pool(
        &mut self,
        inv: &Invocation,
        admin: Address,
        pool_id: Address,
        adapter_exposure: Result<i128, InvokeError>,
    ) -> (r: Result<Receipt<()>, Fault<EngineError>>)
        ensures
            old(self).unregister_pool_step(*final(self), *inv, admin, pool_id, adapter_exposure, r),
            old(self).sound() ==> final(self).sound(),
    {
        match self.require_admin(inv, admin) {
            Ok(_) => {},
            Err(f) => {
                return Err(f);
            },
        }
        let pool: Pool = match self.get_pool(pool_id) {
            Ok(p) => p,
            Err(e) => {
                return Err(Fault::Error(e));
            },
        };
        if self.get_exposure(pool_id) > 0 {
            return Err(Fault::Error(EngineError::PoolHasExposure));
        }
        match adapter_exposure {
            Err(e) => {
                return Err(Fault::Trap(Trap::Callee(e)));
            },
            Ok(n) => if n > 0 {
                return Err(Fault::Error(EngineError::PoolHasExposure));
            },
        }
        if self.written_off_pool(pool_id) > 0 {
            return Err(Fault::Error(EngineError::PoolHasWrittenOffCharge));
        }
        self.pools.remove(pool_id);
        self.exposures.remove(pool_id);
        self.written_off_pools.remove(pool_id);
        proof {
            if old(self).sound() {
                old(self).exposures.finite();
                old(self).written_off_pools.finite();
                lemma_sum_remove(old(self).exposures@, pool_id);
                lemma_sum_remove(old(self).written_off_pools@, pool_id);
                assert(held(old(self).exposures@, pool_id) == 0);
                assert(held(old(self).written_off_pools@, pool_id) == 0);
                assert forall|p: Address| #[trigger] held(self.exposures@, p) == held(
                    old(self).exposures@,
                    p,
                ) by {}
                assert forall|p: Address| #[trigger] held(self.written_off_pools@, p) == held(
                    old(self).written_off_pools@,
                    p,
                ) by {}
            }
        }
        Ok(
            Receipt {
                value: (),
                effects: Effects::none().keep(Rent::Instance).event(
                    Event::PoolUnregistered(
                        PoolUnregistered {
                            pool: pool_id,
                            originator: pool.originator,
                            jurisdiction: pool.jurisdiction,
                        },
                    ),
                ),
            },
        )
    }

    /// Why `set_caps` is refused.
    pub open spec fn set_caps_fault(self, inv: Invocation, admin: Address, caps: Caps) -> Option<
        Fault<EngineError>,
    > {
        if self.admin_fault(inv, admin) is Some {
            self.admin_fault(inv, admin)
        } else if caps.pool_bps > BPS || caps.originator_bps > BPS || caps.jurisdiction_bps > BPS {
            Some(Fault::Error(EngineError::InvalidCap))
        } else {
            None
        }
    }

    /// What `set_caps` answers, and what it leaves behind.
    pub open spec fn set_caps_step(
        self,
        after: AllocationEngine,
        inv: Invocation,
        admin: Address,
        pool_cap_bps: u32,
        originator_cap_bps: u32,
        jurisdiction_cap_bps: u32,
        r: Result<Receipt<()>, Fault<EngineError>>,
    ) -> bool {
        let caps = Caps {
            pool_bps: pool_cap_bps,
            originator_bps: originator_cap_bps,
            jurisdiction_bps: jurisdiction_cap_bps,
        };
        match r {
            Ok(d) => {
                &&& self.set_caps_fault(inv, admin, caps) is None
                &&& after == (AllocationEngine { caps, ..self })
                &&& d.gives(
                    (),
                    seq![],
                    seq![
                        Event::CapsUpdated(
                            CapsUpdated {
                                pool_bps: pool_cap_bps,
                                originator_bps: originator_cap_bps,
                                jurisdiction_bps: jurisdiction_cap_bps,
                            },
                        ),
                    ],
                    seq![Rent::Instance],
                )
            },
            Err(f) => {
                &&& self.set_caps_fault(inv, admin, caps) == Some(f)
                &&& after == self
            },
        }
    }

    /// Sets the global concentration limits, in bps of total assets.
    pub fn set_caps(
        &mut self,
        inv: &Invocation,
        admin: Address,
        pool_cap_bps: u32,
        originator_cap_bps: u32,
        jurisdiction_cap_bps: u32,
    ) -> (r: Result<Receipt<()>, Fault<EngineError>>)
        ensures
            old(self).set_caps_step(
                *final(self),
                *inv,
                admin,
                pool_cap_bps,
                originator_cap_bps,
                jurisdiction_cap_bps,
                r,
            ),
            old(self).sound() ==> final(self).sound(),
    {
        match self.require_admin(inv, admin) {
            Ok(_) => {},
            Err(f) => {
                return Err(f);
            },
        }
        if pool_cap_bps > 10_000 || originator_cap_bps > 10_000 || jurisdiction_cap_bps > 10_000 {
            return Err(Fault::Error(EngineError::InvalidCap));
        }
        self.caps =
        Caps {
            pool_bps: pool_cap_bps,
            originator_bps: originator_cap_bps,
            jurisdiction_bps: jurisdiction_cap_bps,
        };
        Ok(
            Receipt {
                value: (),
                effects: Effects::none().keep(Rent::Instance).event(
                    Event::CapsUpdated(
                        CapsUpdated {
                            pool_bps: pool_cap_bps,
                            originator_bps: originator_cap_bps,
                            jurisdiction_bps: jurisdiction_cap_bps,
                        },
                    ),
                ),
            },
        )
    }

    /// Why `set_reserve_floor` is refused.
    pub open spec fn set_reserve_floor_fault(
        self,
        inv: Invocation,
        admin: Address,
        floor_bps: u32,
    ) -> Option<Fault<EngineError>> {
        if self.admin_fault(inv, admin) is Some {
            self.admin_fault(inv, admin)
        } else if floor_bps > BPS {
            Some(Fault::Error(EngineError::InvalidCap))
        } else {
            None
        }
    }

    /// What `set_reserve_floor` answers, and what it leaves behind.
    pub open spec fn set_reserve_floor_step(
        self,
        after: AllocationEngine,
        inv: Invocation,
        admin: Address,
        floor_bps: u32,
        r: Result<Receipt<()>, Fault<EngineError>>,
    ) -> bool {
        match r {
            Ok(d) => {
                &&& self.set_reserve_floor_fault(inv, admin, floor_bps) is None
                &&& after == (AllocationEngine { floor_bps, ..self })
                &&& d.gives(
                    (),
                    seq![],
                    seq![Event::ReserveFloorUpdated(ReserveFloorUpdated { floor_bps })],
                    seq![Rent::Instance],
                )
            },
            Err(f) => {
                &&& self.set_reserve_floor_fault(inv, admin, floor_bps) == Some(f)
                &&& after == self
            },
        }
    }

    /// Sets the share of the floor base that has to stay as free USDC in the
    /// vault, in bps.
    pub fn set_reserve_floor(&mut self, inv: &Invocation, admin: Address, floor_bps: u32) -> (r:
        Result<Receipt<()>, Fault<EngineError>>)
        ensures
            old(self).set_reserve_floor_step(*final(self), *inv, admin, floor_bps, r),
            old(self).sound() ==> final(self).sound(),
    {
        match self.require_admin(inv, admin) {
            Ok(_) => {},
            Err(f) => {
                return Err(f);
            },
        }
        if floor_bps > 10_000 {
            return Err(Fault::Error(EngineError::InvalidCap));
        }
        self.floor_bps = floor_bps;
        Ok(
            Receipt {
                value: (),
                effects: Effects::none().keep(Rent::Instance).event(
                    Event::ReserveFloorUpdated(ReserveFloorUpdated { floor_bps }),
                ),
            },
        )
    }

    /// The charged exposure of a group, added up along a listing of pools.
    /// Nothing where the running sum leaves the 128-bit range on the way.
    pub open spec fn walk(self, pools: Seq<(Address, Pool)>, group: Group) -> Option<int>
        decreases pools.len(),
    {
        if pools.len() == 0 {
            Some(0)
        } else {
            match self.walk(pools.drop_last(), group) {
                None => None,
                Some(sum) => {
                    let (id, pool) = pools.last();
                    if !group.counts(pool) {
                        Some(sum)
                    } else if fits(self.charged(id)) && fits(sum + self.charged(id)) {
                        Some(sum + self.charged(id))
                    } else {
                        None
                    }
                },
            }
        }
    }

    /// For a sound engine the walk is the sum, wherever the sum fits.
    pub proof fn lemma_walk(self, pools: Seq<(Address, Pool)>, group: Group, i: int)
        requires
            self.sound(),
            ordered(pools),
            0 <= i <= pools.len(),
        ensures
            ({
                let f = |id: Address, pool: Pool|
                    if group.counts(pool) {
                        self.charged(id)
                    } else {
                        0
                    };
                let sum = total(mapped(pools.take(i)), f);
                &&& sum >= 0
                &&& self.walk(pools.take(i), group) == (if fits(sum) {
                    Some(sum)
                } else {
                    None
                })
            }),
        decreases i,
    {
        let f = |id: Address, pool: Pool|
            if group.counts(pool) {
                self.charged(id)
            } else {
                0
            };
        if i == 0 {
            lemma_total_none(pools.take(0), f);
        } else {
            self.lemma_walk(pools, group, i - 1);
            lemma_total_listing(pools, f, i - 1);
            assert(pools.take(i).drop_last() =~= pools.take(i - 1));
            assert(pools.take(i).last() == pools[i - 1]);
            assert(held(self.exposures@, pools[i - 1].0) >= 0);
            assert(held(self.written_off_pools@, pools[i - 1].0) >= 0);
        }
    }

    /// Adds up the charged exposure of a group.
    fn charged_where(&self, group: Group) -> (r: Result<i128, Trap>)
        ensures
            r == (match self.walk(self.pools.listing(), group) {
                Some(sum) => Ok::<i128, Trap>(sum as i128),
                None => Err(Trap::Overflow),
            }),
            self.walk(self.pools.listing(), group) is Some ==> fits(
                self.walk(self.pools.listing(), group)->0,
            ),
            self.sound() ==> self.walk(self.pools.listing(), group) == (if fits(
                self.charged_group(group),
            ) {
                Some(self.charged_group(group))
            } else {
                None
            }),
    {
        let n: usize = self.pools.len();
        let ghost pools = self.pools.listing();
        proof {
            assert(pools.take(pools.len() as int) =~= pools);
            if self.sound() {
                self.lemma_walk(pools, group, pools.len() as int);
            }
        }
        let mut sum: i128 = 0;
        let mut i: usize = 0;
        while i < n
            invariant
                i <= n,
                n == pools.len(),
                pools == self.pools.listing(),
                self.walk(pools.take(i as int), group) == Some(sum as int),
                self.sound() ==> self.walk(pools, group) == (if fits(self.charged_group(group)) {
                    Some(self.charged_group(group))
                } else {
                    None
                }),
            decreases n - i,
        {
            let (id, pool): (Address, Pool) = self.pools.entry(i);
            proof {
                assert(pools.take(i + 1).drop_last() =~= pools.take(i as int));
                assert(pools.take(i + 1).last() == pools[i as int]);
            }
            if group.covers(&pool) {
                let charged: i128 = match self.charged_exposure(id) {
                    Ok(z) => z,
                    Err(t) => {
                        proof {
                            self.lemma_walk_stuck(pools, group, i + 1);
                        }
                        return Err(t);
                    },
                };
                sum =
                match plus(sum, charged) {
                    Ok(z) => z,
                    Err(t) => {
                        proof {
                            self.lemma_walk_stuck(pools, group, i + 1);
                        }
                        return Err(t);
                    },
                };
            }
            i = i + 1;
        }
        proof {
            assert(pools.take(n as int) =~= pools);
        }
        Ok(sum)
    }

    /// A walk that stops stays stopped.
    proof fn lemma_walk_stuck(self, pools: Seq<(Address, Pool)>, group: Group, i: int)
        requires
            0 <= i <= pools.len(),
            self.walk(pools.take(i), group) is None,
        ensures
            self.walk(pools, group) is None,
        decreases pools.len() - i,
    {
        if i == pools.len() {
            assert(pools.take(i) =~= pools);
        } else {
            assert(pools.take(i + 1).drop_last() =~= pools.take(i));
            self.lemma_walk_stuck(pools, group, i + 1);
        }
    }

    /// The tighter of a pool's own cap and the global one.
    pub open spec fn pool_cap(self, pool_id: Address) -> int {
        smaller(self.pools@[pool_id].cap_bps as int, self.caps.pool_bps as int)
    }

    /// What a limit says of an amount charged against a share of the book:
    /// nothing, that it is exceeded, or that the arithmetic does not fit.
    pub open spec fn limit_fault(
        charged: Option<int>,
        amount: int,
        bps: int,
        total_assets: int,
        exceeded: EngineError,
    ) -> Option<Fault<EngineError>> {
        if charged is None || !fits(charged->0 + amount) || !fits((charged->0 + amount) * BPS)
            || !fits(bps * total_assets) {
            Some(Fault::Trap(Trap::Overflow))
        } else if (charged->0 + amount) * BPS > bps * total_assets {
            Some(Fault::Error(exceeded))
        } else {
            None
        }
    }

    fn check_limit(
        charged: Result<i128, Trap>,
        amount: i128,
        bps: u32,
        total_assets: i128,
        exceeded: EngineError,
    ) -> (r: Result<(), Fault<EngineError>>)
        requires
            charged is Err ==> charged->Err_0 == Trap::Overflow,
        ensures
            ({
                let known = match charged {
                    Ok(z) => Some(z as int),
                    Err(_) => None,
                };
                let fault = AllocationEngine::limit_fault(
                    known,
                    amount as int,
                    bps as int,
                    total_assets as int,
                    exceeded,
                );
                match r {
                    Ok(_) => fault is None,
                    Err(f) => fault == Some(f),
                }
            }),
    {
        let before: i128 = match charged {
            Ok(z) => z,
            Err(t) => {
                return Err(Fault::Trap(t));
            },
        };
        let after: i128 = match plus(before, amount) {
            Ok(z) => z,
            Err(t) => {
                return Err(Fault::Trap(t));
            },
        };
        let share: i128 = match times(after, BPS) {
            Ok(z) => z,
            Err(t) => {
                return Err(Fault::Trap(t));
            },
        };
        let allowed: i128 = match times(bps as i128, total_assets) {
            Ok(z) => z,
            Err(t) => {
                return Err(Fault::Trap(t));
            },
        };
        if share > allowed {
            return Err(Fault::Error(exceeded));
        }
        Ok(())
    }

    /// Why the four limits refuse an allocation to a registered pool, given
    /// the vault's free reserves and floor base.
    pub open spec fn limits_fault(
        self,
        pool_id: Address,
        amount: int,
        idle: int,
        floor_base: Result<i128, InvokeError>,
    ) -> Option<Fault<EngineError>> {
        let pool = self.pools@[pool_id];
        let total_assets = idle + self.total_allocated;
        let charged = if fits(self.charged(pool_id)) {
            Some(self.charged(pool_id))
        } else {
            None
        };
        let by_pool = AllocationEngine::limit_fault(
            charged,
            amount,
            self.pool_cap(pool_id),
            total_assets,
            EngineError::PoolCapExceeded,
        );
        let by_originator = AllocationEngine::limit_fault(
            self.walk(self.pools.listing(), Group::Originator(pool.originator)),
            amount,
            self.caps.originator_bps as int,
            total_assets,
            EngineError::OriginatorCapExceeded,
        );
        let by_jurisdiction = AllocationEngine::limit_fault(
            self.walk(self.pools.listing(), Group::Jurisdiction(pool.jurisdiction)),
            amount,
            self.caps.jurisdiction_bps as int,
            total_assets,
            EngineError::JurisdictionCapExceeded,
        );
        if by_pool is Some {
            by_pool
        } else if by_originator is Some {
            by_originator
        } else if by_jurisdiction is Some {
            by_jurisdiction
        } else if floor_base is Err {
            Some(Fault::Trap(Trap::Callee(floor_base->Err_0)))
        } else if !fits((idle - amount) * BPS) || !fits(self.floor_bps * floor_base->Ok_0) {
            Some(Fault::Trap(Trap::Overflow))
        } else if (idle - amount) * BPS < self.floor_bps * floor_base->Ok_0 {
            Some(Fault::Error(EngineError::ReserveFloorBreached))
        } else {
            None
        }
    }

    fn check_limits(
        &self,
        pool_id: Address,
        pool: Pool,
        amount: i128,
        idle: i128,
        total_assets: i128,
        floor_base: Result<i128, InvokeError>,
    ) -> (r: Result<(), Fault<EngineError>>)
        requires
            self.pools@.dom().contains(pool_id),
            pool == self.pools@[pool_id],
            0 < amount <= idle,
            total_assets == idle + self.total_allocated,
        ensures
            match r {
                Ok(_) => self.limits_fault(pool_id, amount as int, idle as int, floor_base)
                    is None,
                Err(f) => self.limits_fault(pool_id, amount as int, idle as int, floor_base)
                    == Some(f),
            },
            self.sound() ==> self.walk(
                self.pools.listing(),
                Group::Originator(pool.originator),
            ) == (if fits(self.charged_group(Group::Originator(pool.originator))) {
                Some(self.charged_group(Group::Originator(pool.originator)))
            } else {
                None
            }),
            self.sound() ==> self.walk(
                self.pools.listing(),
                Group::Jurisdiction(pool.jurisdiction),
            ) == (if fits(self.charged_group(Group::Jurisdiction(pool.jurisdiction))) {
                Some(self.charged_group(Group::Jurisdiction(pool.jurisdiction)))
            } else {
                None
            }),
    {
        let pool_cap: u32 = if pool.cap_bps <= self.caps.pool_bps {
            pool.cap_bps
        } else {
            self.caps.pool_bps
        };
        let by_originator = self.charged_where(Group::Originator(pool.originator));
        let by_jurisdiction = self.charged_where(Group::Jurisdiction(pool.jurisdiction));
        match AllocationEngine::check_limit(
            self.charged_exposure(pool_id),
            amount,
            pool_cap,
            total_assets,
            EngineError::PoolCapExceeded,
        ) {
            Ok(_) => {},
            Err(f) => {
                return Err(f);
            },
        }
        match AllocationEngine::check_limit(
            by_originator,
            amount,
            self.caps.originator_bps,
            total_assets,
            EngineError::OriginatorCapExceeded,
        ) {
            Ok(_) => {},
            Err(f) => {
                return Err(f);
            },
        }
        match AllocationEngine::check_limit(
            by_jurisdiction,
            amount,
            self.caps.jurisdiction_bps,
            total_assets,
            EngineError::JurisdictionCapExceeded,
        ) {
            Ok(_) => {},
            Err(f) => {
                return Err(f);
            },
        }
        let base: i128 = match floor_base {
            Ok(b) => b,
            Err(e) => {
                return Err(Fault::Trap(Trap::Callee(e)));
            },
        };
        let kept: i128 = match times(idle - amount, BPS) {
            Ok(z) => z,
            Err(t) => {
                return Err(Fault::Trap(t));
            },
        };
        let wanted: i128 = match times(self.floor_bps as i128, base) {
            Ok(z) => z,
            Err(t) => {
                return Err(Fault::Trap(t));
            },
        };
        if kept < wanted {
            return Err(Fault::Error(EngineError::ReserveFloorBreached));
        }
        Ok(())
    }

    /// Why `allocate` is refused, given the vault's free reserves and floor
    /// base and how the adapter is wired.
    pub open spec fn allocate_fault(
        self,
        inv: Invocation,
        admin: Address,
        pool_id: Address,
        amount: i128,
        wiring: Wiring,
        free_reserves: Result<i128, InvokeError>,
        floor_base: Result<i128, InvokeError>,
    ) -> Option<Fault<EngineError>> {
        if self.admin_fault(inv, admin) is Some {
            self.admin_fault(inv, admin)
        } else if amount <= 0 {
            Some(Fault::Error(EngineError::InvalidAmount))
        } else if !self.pools@.dom().contains(pool_id) {
            Some(Fault::Error(EngineError::PoolNotRegistered))
        } else if self.adapter_fault(inv, wiring) is Some {
            self.adapter_fault(inv, wiring)
        } else if free_reserves is Err {
            Some(Fault::Trap(Trap::Callee(free_reserves->Err_0)))
        } else if !fits(free_reserves->Ok_0 + self.total_allocated) {
            Some(Fault::Trap(Trap::Overflow))
        } else if amount > free_reserves->Ok_0 {
            Some(Fault::Error(EngineError::InsufficientReserves))
        } else if !fits(self.exposure(pool_id) + amount) {
            Some(Fault::Trap(Trap::Overflow))
        } else if self.limits_fault(
            pool_id,
            amount as int,
            free_reserves->Ok_0 as int,
            floor_base,
        ) is Some {
            self.limits_fault(pool_id, amount as int, free_reserves->Ok_0 as int, floor_base)
        } else if !fits(self.total_allocated + amount) {
            Some(Fault::Trap(Trap::Overflow))
        } else {
            None
        }
    }

    /// What the three caps and the floor say of the books after an allocation,
    /// given the vault's free reserves before it.
    pub open spec fn within_limits(
        self,
        pool_id: Address,
        amount: int,
        idle: int,
        floor_base: int,
    ) -> bool {
        let pool = self.pools@[pool_id];
        let total_assets = idle + self.total_allocated;
        &&& (self.charged(pool_id) + amount) * BPS <= self.pool_cap(pool_id) * total_assets
        &&& (self.charged_group(Group::Originator(pool.originator)) + amount) * BPS
            <= self.caps.originator_bps * total_assets
        &&& (self.charged_group(Group::Jurisdiction(pool.jurisdiction)) + amount) * BPS
            <= self.caps.jurisdiction_bps * total_assets
        &&& (idle - amount) * BPS >= self.floor_bps * floor_base
    }

    /// Whether the arithmetic of an allocation leaves the 128-bit range.
    pub open spec fn allocation_overflows(
        self,
        pool_id: Address,
        amount: int,
        idle: int,
        floor_base: int,
    ) -> bool {
        let pool = self.pools@[pool_id];
        let total_assets = idle + self.total_allocated;
        ||| !fits(total_assets)
        ||| !fits(self.total_allocated + amount)
        ||| !fits((self.charged(pool_id) + amount) * BPS)
        ||| !fits((self.charged_group(Group::Originator(pool.originator)) + amount) * BPS)
        ||| !fits((self.charged_group(Group::Jurisdiction(pool.jurisdiction)) + amount) * BPS)
        ||| !fits(self.pool_cap(pool_id) * total_assets)
        ||| !fits(self.caps.originator_bps * total_assets)
        ||| !fits(self.caps.jurisdiction_bps * total_assets)
        ||| !fits((idle - amount) * BPS)
        ||| !fits(self.floor_bps * floor_base)
    }

    /// Whether an allocation is asked for by the admin, of a positive amount,
    /// for a registered pool that is wired to this engine's vault, with the
    /// vault's numbers at hand.
    pub open spec fn allocation_stands_to_limits(
        self,
        inv: Invocation,
        admin: Address,
        pool_id: Address,
        amount: i128,
        wiring: Wiring,
        free_reserves: Result<i128, InvokeError>,
        floor_base: Result<i128, InvokeError>,
    ) -> bool {
        &&& self.admin_fault(inv, admin) is None
        &&& amount > 0
        &&& self.pools@.dom().contains(pool_id)
        &&& self.adapter_fault(inv, wiring) is None
        &&& free_reserves is Ok
        &&& floor_base is Ok
    }

    /// The state after an allocation.
    pub open spec fn allocated(self, after: AllocationEngine, pool_id: Address, amount: i128)
        -> bool {
        &&& after.exposures@ == self.exposures@.insert(
            pool_id,
            (self.exposure(pool_id) + amount) as i128,
        )
        &&& after == (AllocationEngine {
            exposures: after.exposures,
            total_allocated: (self.total_allocated + amount) as i128,
            ..self
        })
    }

    /// What `allocate` answers, and what it leaves behind.
    pub open spec fn allocate_step(
        self,
        after: AllocationEngine,
        inv: Invocation,
        admin: Address,
        pool_id: Address,
        amount: i128,
        wiring: Wiring,
        free_reserves: Result<i128, InvokeError>,
        floor_base: Result<i128, InvokeError>,
        r: Result<Receipt<()>, Fault<EngineError>>,
    ) -> bool {
        match r {
            Ok(d) => {
                let pool_exposure = (self.exposure(pool_id) + amount) as i128;
                let idle_after = (free_reserves->Ok_0 - amount) as i128;
                &&& self.allocate_fault(
                    inv,
                    admin,
                    pool_id,
                    amount,
                    wiring,
                    free_reserves,
                    floor_base,
                ) is None
                &&& self.allocated(after, pool_id, amount)
                &&& d.gives(
                    (),
                    seq![
                        Call::SettleAllocation {
                            vault: self.vault->0,
                            pool: pool_id,
                            amount,
                        },
                        Call::Allocate { pool: pool_id, amount },
                    ],
                    seq![
                        Event::Allocated(
                            Allocated { pool: pool_id, amount, pool_exposure, idle_after },
                        ),
                    ],
                    seq![Rent::Exposure { pool: pool_id }, Rent::TotalAllocated, Rent::Instance],
                )
                &&& self.sound() ==> self.within_limits(
                    pool_id,
                    amount as int,
                    free_reserves->Ok_0 as int,
                    floor_base->Ok_0 as int,
                )
            },
            Err(f) => {
                &&& self.allocate_fault(
                    inv,
                    admin,
                    pool_id,
                    amount,
                    wiring,
                    free_reserves,
                    floor_base,
                ) == Some(f)
                &&& after == self
            },
        }
    }

    /// Routes vault capital into a pool, if the three concentration caps and
    /// the reserve floor allow it. The vault then releases the USDC and the
    /// adapter books it.
    pub fn allocate(
        &mut self,
        inv: &Invocation,
        admin: Address,
        pool_id: Address,
        amount: i128,
        wiring: Wiring,
        free_reserves: Result<i128, InvokeError>,
        floor_base: Result<i128, InvokeError>,
    ) -> (r: Result<Receipt<()>, Fault<EngineError>>)
        ensures
            old(self).allocate_step(
                *final(self),
                *inv,
                admin,
                pool_id,
                amount,
                wiring,
                free_reserves,
                floor_base,
                r,
            ),
            old(self).sound() && old(self).allocation_stands_to_limits(
                *inv,
                admin,
                pool_id,
                amount,
                wiring,
                free_reserves,
                floor_base,
            ) && !old(self).allocation_overflows(
                pool_id,
                amount as int,
                free_reserves->Ok_0 as int,
                floor_base->Ok_0 as int,
            ) ==> (r is Ok <==> amount <= free_reserves->Ok_0 && old(self).within_limits(
                pool_id,
                amount as int,
                free_reserves->Ok_0 as int,
                floor_base->Ok_0 as int,
            )),
            old(self).sound() ==> final(self).sound(),
    {
        proof {
            if old(self).sound() {
                assert(held(old(self).exposures@, pool_id) >= 0);
                assert(held(old(self).written_off_pools@, pool_id) >= 0);
            }
        }
        match self.require_admin(inv, admin) {
            Ok(_) => {},
            Err(f) => {
                return Err(f);
            },
        }
        if amount <= 0 {
            return Err(Fault::Error(EngineError::InvalidAmount));
        }
        let pool: Pool = match self.get_pool(pool_id) {
            Ok(p) => p,
            Err(e) => {
                return Err(Fault::Error(e));
            },
        };
        let vault: Address = match self.require_adapter_matches(inv, &wiring) {
            Ok(v) => v,
            Err(f) => {
                return Err(f);
            },
        };
        let idle: i128 = match free_reserves {
            Ok(z) => z,
            Err(e) => {
                return Err(Fault::Trap(Trap::Callee(e)));
            },
        };
        let total_assets: i128 = match plus(idle, self.total_allocated) {
            Ok(z) => z,
            Err(t) => {
                return Err(Fault::Trap(t));
            },
        };
        if amount > idle {
            return Err(Fault::Error(EngineError::InsufficientReserves));
        }
        let pool_exposure: i128 = match plus(self.get_exposure(pool_id), amount) {
            Ok(z) => z,
            Err(t) => {
                return Err(Fault::Trap(t));
            },
        };
        match self.check_limits(pool_id, pool, amount, idle, total_assets, floor_base) {
            Ok(_) => {},
            Err(f) => {
                return Err(f);
            },
        }
        let total_allocated: i128 = match plus(self.total_allocated, amount) {
            Ok(z) => z,
            Err(t) => {
                return Err(Fault::Trap(t));
            },
        };
        self.exposures.set(pool_id, pool_exposure);
        self.total_allocated = total_allocated;
        proof {
            if old(self).sound() {
                old(self).lemma_rebooked(*self, pool_id, amount as int);
            }
        }
        Ok(
            Receipt {
                value: (),
                effects: Effects::none().call(
                    Call::SettleAllocation { vault, pool: pool_id, amount },
                ).call(Call::Allocate { pool: pool_id, amount }).keep(
                    Rent::Exposure { pool: pool_id },
                ).keep(Rent::TotalAllocated).keep(Rent::Instance).event(
                    Event::Allocated(
                        Allocated {
                            pool: pool_id,
                            amount,
                            pool_exposure,
                            idle_after: idle - amount,
                        },
                    ),
                ),
            },
        )
    }

    /// Why `deallocate` is refused.
    pub open spec fn deallocate_fault(
        self,
        inv: Invocation,
        pool_id: Address,
        amount: i128,
        wiring: Wiring,
    ) -> Option<Fault<EngineError>> {
        if self.role.admin is None {
            Some(Fault::Error(EngineError::NotInitialized))
        } else if !inv.signed(self.role.admin->0) {
            Some(Fault::Trap(Trap::Unauthorized))
        } else if amount <= 0 {
            Some(Fault::Error(EngineError::InvalidAmount))
        } else if !self.pools@.dom().contains(pool_id) {
            Some(Fault::Error(EngineError::PoolNotRegistered))
        } else if self.adapter_fault(inv, wiring) is Some {
            self.adapter_fault(inv, wiring)
        } else if amount > self.exposure(pool_id) {
            Some(Fault::Error(EngineError::ExposureUnderflow))
        } else if !fits(self.total_allocated - amount) {
            Some(Fault::Trap(Trap::Overflow))
        } else {
            None
        }
    }

    /// The state after a repayment.
    pub open spec fn deallocated(self, after: AllocationEngine, pool_id: Address, amount: i128)
        -> bool {
        &&& after.exposures@ == self.exposures@.insert(
            pool_id,
            (self.exposure(pool_id) - amount) as i128,
        )
        &&& after == (AllocationEngine {
            exposures: after.exposures,
            total_allocated: (self.total_allocated - amount) as i128,
            ..self
        })
    }

    /// What `deallocate` answers, and what it leaves behind.
    pub open spec fn deallocate_step(
        self,
        after: AllocationEngine,
        inv: Invocation,
        pool_id: Address,
        amount: i128,
        wiring: Wiring,
        r: Result<Receipt<()>, Fault<EngineError>>,
    ) -> bool {
        match r {
            Ok(d) => {
                let pool_exposure = (self.exposure(pool_id) - amount) as i128;
                &&& self.deallocate_fault(inv, pool_id, amount, wiring) is None
                &&& self.deallocated(after, pool_id, amount)
                &&& d.gives(
                    (),
                    seq![
                        Call::Deallocate { pool: pool_id, amount },
                        Call::RecordRepayment { vault: self.vault->0, amount },
                    ],
                    seq![
                        Event::Deallocated(
                            Deallocated { pool: pool_id, amount, pool_exposure },
                        ),
                    ],
                    seq![Rent::Exposure { pool: pool_id }, Rent::TotalAllocated, Rent::Instance],
                )
            },
            Err(f) => {
                &&& self.deallocate_fault(inv, pool_id, amount, wiring) == Some(f)
                &&& after == self
            },
        }
    }

    /// Brings capital back from a pool. The adapter moves the USDC to the
    /// vault, and the vault verifies that it arrived.
    pub fn deallocate(&mut self, inv: &Invocation, pool_id: Address, amount: i128, wiring: Wiring)
        -> (r: Result<Receipt<()>, Fault<EngineError>>)
        ensures
            old(self).deallocate_step(*final(self), *inv, pool_id, amount, wiring, r),
            old(self).sound() ==> final(self).sound(),
    {
        let admin: Address = match self.role.admin {
            Some(a) => a,
            None => {
                return Err(Fault::Error(EngineError::NotInitialized));
            },
        };
        if !inv.authorized(admin) {
            return Err(Fault::Trap(Trap::Unauthorized));
        }
        if amount <= 0 {
            return Err(Fault::Error(EngineError::InvalidAmount));
        }
        if !self.pools.contains_key(pool_id) {
            return Err(Fault::Error(EngineError::PoolNotRegistered));
        }
        let vault: Address = match self.require_adapter_matches(inv, &wiring) {
            Ok(v) => v,
            Err(f) => {
                return Err(f);
            },
        };
        let exposure: i128 = self.get_exposure(pool_id);
        if amount > exposure {
            return Err(Fault::Error(EngineError::ExposureUnderflow));
        }
        let pool_exposure: i128 = exposure - amount;
        let total_allocated: i128 = match minus(self.total_allocated, amount) {
            Ok(z) => z,
            Err(t) => {
                return Err(Fault::Trap(t));
            },
        };
        self.exposures.set(pool_id, pool_exposure);
        self.total_allocated = total_allocated;
        proof {
            if old(self).sound() {
                old(self).lemma_rebooked(*self, pool_id, -amount);
            }
        }
        Ok(
            Receipt {
                value: (),
                effects: Effects::none().call(Call::Deallocate { pool: pool_id, amount }).call(
                    Call::RecordRepayment { vault, amount },
                ).keep(Rent::Exposure { pool: pool_id }).keep(Rent::TotalAllocated).keep(
                    Rent::Instance,
                ).event(
                    Event::Deallocated(Deallocated { pool: pool_id, amount, pool_exposure }),
                ),
            },
        )
    }

    /// Why `admin` and the vault's admin are not one address, given who the
    /// vault says its admin is.
    pub open spec fn alignment_fault(self, admin: Address, vault_admin: Result<Address, InvokeError>)
        -> Option<Fault<EngineError>> {
        if self.vault is None {
            Some(Fault::Error(EngineError::NotInitialized))
        } else {
            match vault_admin {
                Err(e) => Some(Fault::Trap(Trap::Callee(e))),
                Ok(a) => if a != admin {
                    Some(Fault::Error(EngineError::AdminMismatch))
                } else {
                    None
                },
            }
        }
    }

    fn require_alignment(&self, admin: Address, vault_admin: Result<Address, InvokeError>) -> (r:
        Result<Address, Fault<EngineError>>)
        ensures
            match r {
                Ok(vault) => self.alignment_fault(admin, vault_admin) is None && self.vault == Some(
                    vault,
                ),
                Err(f) => self.alignment_fault(admin, vault_admin) == Some(f),
            },
    {
        let vault: Address = match self.vault {
            Some(v) => v,
            None => {
                return Err(Fault::Error(EngineError::NotInitialized));
            },
        };
        match vault_admin {
            Err(e) => Err(Fault::Trap(Trap::Callee(e))),
            Ok(a) => if a != admin {
                Err(Fault::Error(EngineError::AdminMismatch))
            } else {
                Ok(vault)
            },
        }
    }

    /// Why `write_down` is refused.
    pub open spec fn write_down_fault(
        self,
        inv: Invocation,
        admin: Address,
        pool_id: Address,
        amount: i128,
        vault_admin: Result<Address, InvokeError>,
    ) -> Option<Fault<EngineError>> {
        if self.admin_fault(inv, admin) is Some {
            self.admin_fault(inv, admin)
        } else if self.alignment_fault(admin, vault_admin) is Some {
            self.alignment_fault(admin, vault_admin)
        } else if amount <= 0 {
            Some(Fault::Error(EngineError::InvalidAmount))
        } else if !self.pools@.dom().contains(pool_id) {
            Some(Fault::Error(EngineError::PoolNotRegistered))
        } else if amount > self.exposure(pool_id) {
            Some(Fault::Error(EngineError::WriteDownExceedsExposure))
        } else if !fits(self.total_allocated - amount) || !fits(self.written_off + amount) || !fits(
            self.charge(pool_id) + amount,
        ) {
            Some(Fault::Trap(Trap::Overflow))
        } else {
            None
        }
    }

    /// The state after a write-down.
    pub open spec fn wrote_down(self, after: AllocationEngine, pool_id: Address, amount: i128)
        -> bool {
        &&& after.exposures@ == self.exposures@.insert(
            pool_id,
            (self.exposure(pool_id) - amount) as i128,
        )
        &&& after.written_off_pools@ == self.written_off_pools@.insert(
            pool_id,
            (self.charge(pool_id) + amount) as i128,
        )
        &&& after == (AllocationEngine {
            exposures: after.exposures,
            written_off_pools: after.written_off_pools,
            total_allocated: (self.total_allocated - amount) as i128,
            written_off: (self.written_off + amount) as i128,
            ..self
        })
    }

    /// What `write_down` answers, and what it leaves behind.
    pub open spec fn write_down_step(
        self,
        after: AllocationEngine,
        inv: Invocation,
        admin: Address,
        pool_id: Address,
        amount: i128,
        reason: Symbol,
        vault_admin: Result<Address, InvokeError>,
        r: Result<Receipt<()>, Fault<EngineError>>,
    ) -> bool {
        match r {
            Ok(d) => {
                let pool_exposure = (self.exposure(pool_id) - amount) as i128;
                &&& self.write_down_fault(inv, admin, pool_id, amount, vault_admin)
                    is None
                &&& self.wrote_down(after, pool_id, amount)
                &&& d.gives(
                    (),
                    seq![
                        Call::WriteDown { pool: pool_id, amount },
                        Call::RecordWritedown { vault: self.vault->0, admin, amount },
                    ],
                    seq![
                        Event::WrittenDown(
                            WrittenDown { pool: pool_id, amount, pool_exposure, reason },
                        ),
                    ],
                    seq![
                        Rent::Exposure { pool: pool_id },
                        Rent::TotalAllocated,
                        Rent::WrittenOff,
                        Rent::WrittenOffPool { pool: pool_id },
                        Rent::Instance,
                    ],
                )
                &&& forall|p: Address| #[trigger] after.charged(p) == self.charged(p)
            },
            Err(f) => {
                &&& self.write_down_fault(inv, admin, pool_id, amount, vault_admin)
                    == Some(f)
                &&& after == self
            },
        }
    }

    /// Recognises that part of a pool's exposure is not coming back: on this
    /// book, on the adapter's and on the vault's. What leaves the exposure
    /// stays charged against the pool's caps.
    pub fn write_down(
        &mut self,
        inv: &Invocation,
        admin: Address,
        pool_id: Address,
        amount: i128,
        reason: Symbol,
        vault_admin: Result<Address, InvokeError>,
    ) -> (r: Result<Receipt<()>, Fault<EngineError>>)
        ensures
            old(self).write_down_step(
                *final(self),
                *inv,
                admin,
                pool_id,
                amount,
                reason,
                vault_admin,
                r,
            ),
            old(self).sound() ==> final(self).sound(),
    {
        match self.require_admin(inv, admin) {
            Ok(_) => {},
            Err(f) => {
                return Err(f);
            },
        }
        let vault: Address = match self.require_alignment(admin, vault_admin) {
            Ok(v) => v,
            Err(f) => {
                return Err(f);
            },
        };
        if amount <= 0 {
            return Err(Fault::Error(EngineError::InvalidAmount));
        }
        if !self.pools.contains_key(pool_id) {
            return Err(Fault::Error(EngineError::PoolNotRegistered));
        }
        let exposure: i128 = self.get_exposure(pool_id);
        if amount > exposure {
            return Err(Fault::Error(EngineError::WriteDownExceedsExposure));
        }
        let pool_exposure: i128 = exposure - amount;
        let total_allocated: i128 = match minus(self.total_allocated, amount) {
            Ok(z) => z,
            Err(t) => {
                return Err(Fault::Trap(t));
            },
        };
        let written_off: i128 = match plus(self.written_off, amount) {
            Ok(z) => z,
            Err(t) => {
                return Err(Fault::Trap(t));
            },
        };
        let charge: i128 = match plus(self.written_off_pool(pool_id), amount) {
            Ok(z) => z,
            Err(t) => {
                return Err(Fault::Trap(t));
            },
        };
        self.exposures.set(pool_id, pool_exposure);
        self.total_allocated = total_allocated;
        self.written_off = written_off;
        self.written_off_pools.set(pool_id, charge);
        proof {
            if old(self).sound() {
                old(self).lemma_wrote_down(*self, pool_id, amount);
            }
        }
        Ok(
            Receipt {
                value: (),
                effects: Effects::none().call(Call::WriteDown { pool: pool_id, amount }).call(
                    Call::RecordWritedown { vault, admin, amount },
                ).keep(Rent::Exposure { pool: pool_id }).keep(Rent::TotalAllocated).keep(
                    Rent::WrittenOff,
                ).keep(Rent::WrittenOffPool { pool: pool_id }).keep(Rent::Instance).event(
                    Event::WrittenDown(WrittenDown { pool: pool_id, amount, pool_exposure, reason }),
                ),
            },
        )
    }

    /// Why a sweep of a pool's adapter may not even be asked for.
    pub open spec fn recoverable_fault(
        self,
        inv: Invocation,
        admin: Address,
        pool_id: Address,
        vault_admin: Result<Address, InvokeError>,
        wiring: Wiring,
    ) -> Option<Fault<EngineError>> {
        if self.admin_fault(inv, admin) is Some {
            self.admin_fault(inv, admin)
        } else if !self.pools@.dom().contains(pool_id) {
            Some(Fault::Error(EngineError::PoolNotRegistered))
        } else if self.alignment_fault(admin, vault_admin) is Some {
            self.alignment_fault(admin, vault_admin)
        } else {
            self.adapter_fault(inv, wiring)
        }
    }

    /// What `recoverable` answers, and what it asks for.
    pub open spec fn recoverable_step(
        self,
        inv: Invocation,
        admin: Address,
        pool_id: Address,
        vault_admin: Result<Address, InvokeError>,
        wiring: Wiring,
        r: Result<Call, Fault<EngineError>>,
    ) -> bool {
        match r {
            Ok(call) => {
                &&& self.recoverable_fault(inv, admin, pool_id, vault_admin, wiring) is None
                &&& call == (Call::RecoverSurplus { pool: pool_id, caller: inv.contract })
            },
            Err(f) => self.recoverable_fault(inv, admin, pool_id, vault_admin, wiring) == Some(
                f,
            ),
        }
    }

    /// The sweep that `recover` asks the adapter for. Its destination is the
    /// adapter's own vault, and its size whatever the adapter holds above its
    /// booked exposure; the caller chooses neither.
    pub fn recoverable(
        &self,
        inv: &Invocation,
        admin: Address,
        pool_id: Address,
        vault_admin: Result<Address, InvokeError>,
        wiring: Wiring,
    ) -> (r: Result<Call, Fault<EngineError>>)
        ensures
            self.recoverable_step(*inv, admin, pool_id, vault_admin, wiring, r),
    {
        match self.require_admin(inv, admin) {
            Ok(_) => {},
            Err(f) => {
                return Err(f);
            },
        }
        if !self.pools.contains_key(pool_id) {
            return Err(Fault::Error(EngineError::PoolNotRegistered));
        }
        match self.require_alignment(admin, vault_admin) {
            Ok(_) => {},
            Err(f) => {
                return Err(f);
            },
        }
        match self.require_adapter_matches(inv, &wiring) {
            Ok(_) => {},
            Err(f) => {
                return Err(f);
            },
        }
        Ok(Call::RecoverSurplus { pool: pool_id, caller: inv.contract })
    }

    /// How much of a recovery releases a pool's charge.
    pub open spec fn released(self, pool_id: Address, amount: i128) -> int {
        smaller(amount as int, self.charge(pool_id))
    }

    /// How much of a recovery goes against the losses on record.
    pub open spec fn applied(self, amount: i128) -> int {
        smaller(amount as int, self.written_off as int)
    }

    /// Whether a recovery cannot be booked.
    pub open spec fn recovery_overflows(self, pool_id: Address, amount: i128) -> bool {
        ||| !fits(self.charge(pool_id) - self.released(pool_id, amount))
        ||| !fits(self.written_off - self.applied(amount))
    }

    /// The state once a recovery for a pool has been booked.
    pub open spec fn recovered(self, after: AllocationEngine, pool_id: Address, amount: i128)
        -> bool {
        &&& after.written_off_pools@ == self.written_off_pools@.insert(
            pool_id,
            (self.charge(pool_id) - self.released(pool_id, amount)) as i128,
        )
        &&& after == (AllocationEngine {
            written_off_pools: after.written_off_pools,
            written_off: (self.written_off - self.applied(amount)) as i128,
            ..self
        })
    }

    /// What booking a recovery records, and keeps alive.
    pub open spec fn recovery_gives<T>(
        self,
        d: Receipt<T>,
        value: T,
        admin: Address,
        pool_id: Address,
        amount: i128,
    ) -> bool {
        d.gives(
            value,
            seq![Call::RecordRecovery { vault: self.vault->0, admin, amount }],
            seq![
                Event::Recovered(
                    Recovered {
                        pool: pool_id,
                        amount,
                        released: self.released(pool_id, amount) as i128,
                        written_off: (self.written_off - self.applied(amount)) as i128,
                    },
                ),
            ],
            seq![Rent::WrittenOffPool { pool: pool_id }, Rent::WrittenOff, Rent::Instance],
        )
    }

    fn book(&mut self, admin: Address, vault: Address, pool_id: Address, amount: i128) -> (r:
        Result<Receipt<()>, Trap>)
        requires
            old(self).vault == Some(vault),
        ensures
            match r {
                Ok(d) => {
                    &&& !old(self).recovery_overflows(pool_id, amount)
                    &&& old(self).recovered(*final(self), pool_id, amount)
                    &&& old(self).recovery_gives(d, (), admin, pool_id, amount)
                },
                Err(t) => {
                    &&& old(self).recovery_overflows(pool_id, amount)
                    &&& t == Trap::Overflow
                    &&& *final(self) == *old(self)
                },
            },
            old(self).sound() && amount > 0 && old(self).pools@.dom().contains(pool_id)
                ==> final(self).sound(),
    {
        let charge: i128 = self.written_off_pool(pool_id);
        let released: i128 = if amount < charge {
            amount
        } else {
            charge
        };
        let charge_after: i128 = match minus(charge, released) {
            Ok(z) => z,
            Err(t) => {
                return Err(t);
            },
        };
        let losses: i128 = self.written_off;
        let applied: i128 = if amount < losses {
            amount
        } else {
            losses
        };
        let losses_after: i128 = match minus(losses, applied) {
            Ok(z) => z,
            Err(t) => {
                return Err(t);
            },
        };
        self.written_off_pools.set(pool_id, charge_after);
        self.written_off = losses_after;
        proof {
            if old(self).sound() && amount > 0 && old(self).pools@.dom().contains(pool_id) {
                old(self).lemma_recovered(*self, pool_id, amount);
            }
        }
        Ok(
            Receipt {
                value: (),
                effects: Effects::none().call(Call::RecordRecovery { vault, admin, amount }).keep(
                    Rent::WrittenOffPool { pool: pool_id },
                ).keep(Rent::WrittenOff).keep(Rent::Instance).event(
                    Event::Recovered(
                        Recovered { pool: pool_id, amount, released, written_off: losses_after },
                    ),
                ),
            },
        )
    }

    /// The books stay sound when one pool's exposure moves with the total.
    proof fn lemma_rebooked(self, after: AllocationEngine, pool_id: Address, by: int)
        requires
            self.sound(),
            self.pools@.dom().contains(pool_id),
            self.exposure(pool_id) + by >= 0,
            fits(self.exposure(pool_id) + by),
            after.exposures@ == self.exposures@.insert(
                pool_id,
                (self.exposure(pool_id) + by) as i128,
            ),
            after.total_allocated == self.total_allocated + by,
            after == (AllocationEngine {
                exposures: after.exposures,
                total_allocated: after.total_allocated,
                ..self
            }),
        ensures
            after.sound(),
    {
        self.exposures.finite();
        lemma_sum_insert(self.exposures@, pool_id, (self.exposure(pool_id) + by) as i128);
        assert forall|p: Address| #[trigger] held(after.exposures@, p) >= 0 && (held(
            after.exposures@,
            p,
        ) != 0 ==> after.pools@.dom().contains(p)) by {
            assert(held(self.exposures@, p) >= 0);
        }
    }

    /// The books stay sound when one pool's charge moves, and the losses stay
    /// covered by the charges.
    proof fn lemma_recharged(self, after: AllocationEngine, pool_id: Address, by: int)
        requires
            self.sound(),
            self.pools@.dom().contains(pool_id),
            self.charge(pool_id) + by >= 0,
            fits(self.charge(pool_id) + by),
            after.written_off_pools@ == self.written_off_pools@.insert(
                pool_id,
                (self.charge(pool_id) + by) as i128,
            ),
            0 <= after.written_off <= sum_of(self.written_off_pools@) + by,
            after == (AllocationEngine {
                written_off_pools: after.written_off_pools,
                written_off: after.written_off,
                ..self
            }),
        ensures
            after.sound(),
    {
        self.written_off_pools.finite();
        lemma_sum_insert(self.written_off_pools@, pool_id, (self.charge(pool_id) + by) as i128);
        assert forall|p: Address| #[trigger] held(after.written_off_pools@, p) >= 0 && (held(
            after.written_off_pools@,
            p,
        ) != 0 ==> after.pools@.dom().contains(p)) by {
            assert(held(self.written_off_pools@, p) >= 0);
        }
    }

    /// An allocation leaves the books sound.
    pub proof fn lemma_allocated(self, after: AllocationEngine, pool_id: Address, amount: i128)
        requires
            self.sound(),
            self.pools@.dom().contains(pool_id),
            amount > 0,
            fits(self.exposure(pool_id) + amount),
            fits(self.total_allocated + amount),
            self.allocated(after, pool_id, amount),
        ensures
            after.sound(),
    {
        assert(held(self.exposures@, pool_id) >= 0);
        self.lemma_rebooked(after, pool_id, amount as int);
    }

    /// A repayment leaves the books sound.
    pub proof fn lemma_deallocated(self, after: AllocationEngine, pool_id: Address, amount: i128)
        requires
            self.sound(),
            self.pools@.dom().contains(pool_id),
            0 < amount <= self.exposure(pool_id),
            self.deallocated(after, pool_id, amount),
        ensures
            after.sound(),
    {
        self.total_covers_every_exposure(pool_id);
        self.lemma_rebooked(after, pool_id, -amount);
    }

    /// A write-down leaves the books sound.
    pub proof fn lemma_wrote_down(self, after: AllocationEngine, pool_id: Address, amount: i128)
        requires
            self.sound(),
            self.pools@.dom().contains(pool_id),
            0 < amount <= self.exposure(pool_id),
            fits(self.written_off + amount),
            fits(self.charge(pool_id) + amount),
            self.wrote_down(after, pool_id, amount),
        ensures
            after.sound(),
    {
        let mid = AllocationEngine {
            exposures: after.exposures,
            total_allocated: after.total_allocated,
            ..self
        };
        self.total_covers_every_exposure(pool_id);
        self.lemma_rebooked(mid, pool_id, -amount);
        assert(held(self.written_off_pools@, pool_id) >= 0);
        mid.lemma_recharged(after, pool_id, amount as int);
    }

    /// A recovery leaves the books sound.
    pub proof fn lemma_recovered(self, after: AllocationEngine, pool_id: Address, amount: i128)
        requires
            self.sound(),
            self.pools@.dom().contains(pool_id),
            amount > 0,
            self.recovered(after, pool_id, amount),
        ensures
            after.sound(),
    {
        assert(held(self.written_off_pools@, pool_id) >= 0);
        self.charges_cover_one(pool_id);
        self.lemma_recharged(after, pool_id, -self.released(pool_id, amount));
    }

    /// All charges together are at least each one.
    proof fn charges_cover_one(self, pool: Address)
        requires
            self.sound(),
        ensures
            self.charge(pool) <= sum_of(self.written_off_pools@),
    {
        self.written_off_pools.finite();
        let f = |pool: Address, amount: i128| amount as int;
        assert forall|p: Address| #[trigger] self.written_off_pools@.dom().contains(p) implies f(
            p,
            self.written_off_pools@[p],
        ) >= 0 by {
            assert(held(self.written_off_pools@, p) >= 0);
        }
        lemma_total_bounds(self.written_off_pools@, f, pool);
    }

    /// Why `recover` is refused, given what the adapter's sweep came to.
    pub open spec fn recover_fault(
        self,
        inv: Invocation,
        admin: Address,
        pool_id: Address,
        vault_admin: Result<Address, InvokeError>,
        wiring: Wiring,
        swept: Result<i128, InvokeError>,
    ) -> Option<Fault<EngineError>> {
        if self.recoverable_fault(inv, admin, pool_id, vault_admin, wiring) is Some {
            self.recoverable_fault(inv, admin, pool_id, vault_admin, wiring)
        } else if swept is Err {
            Some(Fault::Trap(Trap::Callee(swept->Err_0)))
        } else if self.recovery_overflows(pool_id, swept->Ok_0) {
            Some(Fault::Trap(Trap::Overflow))
        } else {
            None
        }
    }

    /// What `recover` answers, and what it leaves behind.
    pub open spec fn recover_step(
        self,
        after: AllocationEngine,
        inv: Invocation,
        admin: Address,
        pool_id: Address,
        vault_admin: Result<Address, InvokeError>,
        wiring: Wiring,
        swept: Result<i128, InvokeError>,
        r: Result<Receipt<i128>, Fault<EngineError>>,
    ) -> bool {
        match r {
            Ok(d) => {
                let amount = swept->Ok_0;
                &&& self.recover_fault(inv, admin, pool_id, vault_admin, wiring, swept)
                    is None
                &&& self.recovered(after, pool_id, amount)
                &&& self.recovery_gives(d, amount, admin, pool_id, amount)
            },
            Err(f) => {
                &&& self.recover_fault(inv, admin, pool_id, vault_admin, wiring, swept)
                    == Some(f)
                &&& after == self
            },
        }
    }

    /// Books what a sweep of a pool's adapter brought to the vault, and
    /// releases the loss it was written off against. `swept` is what came of
    /// the call that [`AllocationEngine::recoverable`] names.
    pub fn recover(
        &mut self,
        inv: &Invocation,
        admin: Address,
        pool_id: Address,
        vault_admin: Result<Address, InvokeError>,
        wiring: Wiring,
        swept: Result<i128, InvokeError>,
    ) -> (r: Result<Receipt<i128>, Fault<EngineError>>)
        ensures
            old(self).recover_step(
                *final(self),
                *inv,
                admin,
                pool_id,
                vault_admin,
                wiring,
                swept,
                r,
            ),
            old(self).sound() && (swept is Ok ==> swept->Ok_0 > 0) ==> final(self).sound(),
    {
        match self.recoverable(inv, admin, pool_id, vault_admin, wiring) {
            Ok(_) => {},
            Err(f) => {
                return Err(f);
            },
        }
        let vault: Address = match self.require_alignment(admin, vault_admin) {
            Ok(v) => v,
            Err(f) => {
                return Err(f);
            },
        };
        let amount: i128 = match swept {
            Ok(z) => z,
            Err(e) => {
                return Err(Fault::Trap(Trap::Callee(e)));
            },
        };
        match self.book(admin, vault, pool_id, amount) {
            Ok(d) => Ok(Receipt { value: amount, effects: d.effects }),
            Err(t) => Err(Fault::Trap(t)),
        }
    }

    /// Why `book_recovery` is refused.
    pub open spec fn book_recovery_fault(
        self,
        inv: Invocation,
        admin: Address,
        pool_id: Address,
        amount: i128,
        vault_admin: Result<Address, InvokeError>,
    ) -> Option<Fault<EngineError>> {
        if self.admin_fault(inv, admin) is Some {
            self.admin_fault(inv, admin)
        } else if amount <= 0 {
            Some(Fault::Error(EngineError::InvalidAmount))
        } else if !self.pools@.dom().contains(pool_id) {
            Some(Fault::Error(EngineError::PoolNotRegistered))
        } else if self.alignment_fault(admin, vault_admin) is Some {
            self.alignment_fault(admin, vault_admin)
        } else if self.recovery_overflows(pool_id, amount) {
            Some(Fault::Trap(Trap::Overflow))
        } else {
            None
        }
    }

    /// What `book_recovery` answers, and what it leaves behind.
    pub open spec fn book_recovery_step(
        self,
        after: AllocationEngine,
        inv: Invocation,
        admin: Address,
        pool_id: Address,
        amount: i128,
        vault_admin: Result<Address, InvokeError>,
        r: Result<Receipt<()>, Fault<EngineError>>,
    ) -> bool {
        match r {
            Ok(d) => {
                &&& self.book_recovery_fault(inv, admin, pool_id, amount, vault_admin)
                    is None
                &&& self.recovered(after, pool_id, amount)
                &&& self.recovery_gives(d, (), admin, pool_id, amount)
            },
            Err(f) => {
                &&& self.book_recovery_fault(inv, admin, pool_id, amount, vault_admin)
                    == Some(f)
                &&& after == self
            },
        }
    }

    /// Books a recovery against cash that is already in the vault, for a pool
    /// whose adapter was swept by other hands. The vault bounds the amount by
    /// what it cannot account for.
    pub fn book_recovery(
        &mut self,
        inv: &Invocation,
        admin: Address,
        pool_id: Address,
        amount: i128,
        vault_admin: Result<Address, InvokeError>,
    ) -> (r: Result<Receipt<()>, Fault<EngineError>>)
        ensures
            old(self).book_recovery_step(*final(self), *inv, admin, pool_id, amount, vault_admin, r),
            old(self).sound() ==> final(self).sound(),
    {
        match self.require_admin(inv, admin) {
            Ok(_) => {},
            Err(f) => {
                return Err(f);
            },
        }
        if amount <= 0 {
            return Err(Fault::Error(EngineError::InvalidAmount));
        }
        if !self.pools.contains_key(pool_id) {
            return Err(Fault::Error(EngineError::PoolNotRegistered));
        }
        let vault: Address = match self.require_alignment(admin, vault_admin) {
            Ok(v) => v,
            Err(f) => {
                return Err(f);
            },
        };
        match self.book(admin, vault, pool_id, amount) {
            Ok(d) => Ok(d),
            Err(t) => Err(Fault::Trap(t)),
        }
    }

    /// What `propose_admin` answers, and what it leaves behind.
    pub open spec fn propose_admin_step(
        self,
        after: AllocationEngine,
        inv: Invocation,
        admin: Address,
        new_admin: Address,
        r: Result<Receipt<()>, Fault<EngineError>>,
    ) -> bool {
        match r {
            Ok(d) => {
                &&& self.role.require_refusal(inv, admin) is None
                &&& after == (AllocationEngine {
                    role: self.role.proposed(new_admin),
                    ..self
                })
                &&& d.gives(
                    (),
                    seq![],
                    seq![Event::EngineAdminProposed(AdminProposed { new_admin })],
                    seq![Rent::Instance],
                )
            },
            Err(f) => {
                &&& self.role.require_refusal(inv, admin) is Some
                &&& f == AllocationEngine::denial(self.role.require_refusal(inv, admin)->0)
                &&& after == self
            },
        }
    }

    /// Offers the admin role to another address. Replaces any earlier offer.
    pub fn propose_admin(&mut self, inv: &Invocation, admin: Address, new_admin: Address) -> (r:
        Result<Receipt<()>, Fault<EngineError>>)
        ensures
            old(self).propose_admin_step(*final(self), *inv, admin, new_admin, r),
            old(self).sound() ==> final(self).sound(),
    {
        match self.role.require(inv, admin) {
            Ok(_) => {},
            Err(e) => {
                return Err(AllocationEngine::deny(e));
            },
        }
        self.role.pending = Some(new_admin);
        Ok(
            Receipt {
                value: (),
                effects: Effects::none().keep(Rent::Instance).event(
                    Event::EngineAdminProposed(AdminProposed { new_admin }),
                ),
            },
        )
    }

    /// What `accept_admin` answers, and what it leaves behind.
    pub open spec fn accept_admin_step(
        self,
        after: AllocationEngine,
        inv: Invocation,
        new_admin: Address,
        r: Result<Receipt<()>, Fault<EngineError>>,
    ) -> bool {
        match r {
            Ok(d) => {
                &&& self.role.accept_refusal(inv, new_admin) is None
                &&& after == (AllocationEngine {
                    role: self.role.accepted(new_admin),
                    ..self
                })
                &&& d.gives(
                    (),
                    seq![],
                    seq![Event::EngineAdminChanged(AdminChanged { admin: new_admin })],
                    seq![Rent::Instance],
                )
            },
            Err(f) => {
                &&& self.role.accept_refusal(inv, new_admin) is Some
                &&& f == AllocationEngine::denial(self.role.accept_refusal(inv, new_admin)->0)
                &&& after == self
            },
        }
    }

    /// Takes the offered admin role over.
    pub fn accept_admin(&mut self, inv: &Invocation, new_admin: Address) -> (r: Result<
        Receipt<()>,
        Fault<EngineError>,
    >)
        ensures
            old(self).accept_admin_step(*final(self), *inv, new_admin, r),
            old(self).sound() ==> final(self).sound(),
    {
        match self.role.require_pending(inv, new_admin) {
            Ok(_) => {},
            Err(e) => {
                return Err(AllocationEngine::deny(e));
            },
        }
        self.role.admin = Some(new_admin);
        self.role.pending = None;
        Ok(
            Receipt {
                value: (),
                effects: Effects::none().keep(Rent::Instance).event(
                    Event::EngineAdminChanged(AdminChanged { admin: new_admin }),
                ),
            },
        )
    }

    /// The address that has been offered the role and has not accepted yet.
    pub fn pending_admin(&self) -> (a: Option<Address>)
        ensures
            a == self.role.pending,
    {
        self.role.pending
    }

    // ---- views ----

    /// The ratio of free reserves to the floor base, in bps.
    pub open spec fn ratio(idle: i128, base: i128) -> int {
        quotient(idle * BPS, base as int)
    }

    /// What `get_reserve_ratio` answers.
    pub open spec fn get_reserve_ratio_answer(
        self,
        free_reserves: Result<i128, InvokeError>,
        floor_base: Result<i128, InvokeError>,
    ) -> Result<u32, Fault<EngineError>> {
        if self.vault is None {
            Err::<u32, Fault<EngineError>>(Fault::Error(EngineError::NotInitialized))
        } else if free_reserves is Err {
            Err(Fault::Trap(Trap::Callee(free_reserves->Err_0)))
        } else if floor_base is Err {
            Err(Fault::Trap(Trap::Callee(floor_base->Err_0)))
        } else if floor_base->Ok_0 <= 0 {
            Ok(10_000)
        } else if !fits(free_reserves->Ok_0 * BPS) {
            Err(Fault::Trap(Trap::Overflow))
        } else {
            Ok(
                AllocationEngine::ratio(
                    free_reserves->Ok_0,
                    floor_base->Ok_0,
                ) as i128 as u32,
            )
        }
    }

    /// Free vault reserves as a share of the floor base, in bps. The whole
    /// where there is nothing at risk.
    pub fn get_reserve_ratio(
        &self,
        free_reserves: Result<i128, InvokeError>,
        floor_base: Result<i128, InvokeError>,
    ) -> (r: Result<u32, Fault<EngineError>>)
        ensures
            r == self.get_reserve_ratio_answer(free_reserves, floor_base),
    {
        if self.vault.is_none() {
            return Err(Fault::Error(EngineError::NotInitialized));
        }
        let idle: i128 = match free_reserves {
            Ok(z) => z,
            Err(e) => {
                return Err(Fault::Trap(Trap::Callee(e)));
            },
        };
        let base: i128 = match floor_base {
            Ok(z) => z,
            Err(e) => {
                return Err(Fault::Trap(Trap::Callee(e)));
            },
        };
        if base <= 0 {
            return Ok(10_000);
        }
        let scaled: i128 = match times(idle, BPS) {
            Ok(z) => z,
            Err(t) => {
                return Err(Fault::Trap(t));
            },
        };
        proof {
            lemma_quotient_shrinks(scaled as int, base as int);
        }
        let ratio: i128 = match over(scaled, base) {
            Ok(z) => z,
            Err(t) => {
                return Err(Fault::Trap(t));
            },
        };
        Ok(
            #[verifier::truncate]
            (ratio as u32),
        )
    }

    /// Exposure written off and not recovered.
    pub fn written_off(&self) -> (n: i128)
        ensures
            n == self.written_off,
    {
        self.written_off
    }

    /// Exposure written off against one pool and not recovered.
    pub fn written_off_pool(&self, pool_id: Address) -> (n: i128)
        ensures
            n == self.charge(pool_id),
    {
        match self.written_off_pools.get(pool_id) {
            Some(z) => z,
            None => 0,
        }
    }

    /// What `charged_exposure` answers.
    pub open spec fn charged_exposure_answer(
        self,
        pool_id: Address,
    ) -> Result<i128, Trap> {
        if fits(self.charged(pool_id)) {
            Ok::<i128, Trap>(self.charged(pool_id) as i128)
        } else {
            Err(Trap::Overflow)
        }
    }

    /// What the concentration caps measure of a pool.
    pub fn charged_exposure(&self, pool_id: Address) -> (r: Result<i128, Trap>)
        ensures
            r == self.charged_exposure_answer(pool_id),
    {
        plus(self.get_exposure(pool_id), self.written_off_pool(pool_id))
    }

    /// The vault's admin, as the vault reports it.
    pub fn vault_admin(&self, answer: Result<Address, InvokeError>) -> (r: Result<
        Address,
        Fault<EngineError>,
    >)
        ensures
            r == (if self.vault is None {
                Err::<Address, Fault<EngineError>>(Fault::Error(EngineError::NotInitialized))
            } else {
                match answer {
                    Ok(a) => Ok(a),
                    Err(e) => Err(Fault::Trap(Trap::Callee(e))),
                }
            }),
    {
        if self.vault.is_none() {
            return Err(Fault::Error(EngineError::NotInitialized));
        }
        match answer {
            Ok(a) => Ok(a),
            Err(e) => Err(Fault::Trap(Trap::Callee(e))),
        }
    }

    /// Whether this engine has a vault that names this engine's admin as its
    /// own.
    pub open spec fn aligned(self, answer: Result<Address, InvokeError>) -> bool {
        self.vault is Some && self.role.admin is Some && answer == Ok::<Address, InvokeError>(
            self.role.admin->0,
        )
    }

    /// Whether this engine's admin and the vault's are one address, which is
    /// exactly when a loss can be recognised.
    pub fn admin_aligned(&self, answer: Result<Address, InvokeError>) -> (b: bool)
        ensures
            b == self.aligned(answer),
    {
        if self.vault.is_none() {
            return false;
        }
        match self.role.admin {
            Some(admin) => AllocationEngine::same_admin(&answer, admin),
            None => false,
        }
    }

    /// What the reserve floor is a share of, as the vault reports it.
    pub fn floor_base(&self, answer: Result<i128, InvokeError>) -> (r: Result<
        i128,
        Fault<EngineError>,
    >)
        ensures
            r == (if self.vault is None {
                Err::<i128, Fault<EngineError>>(Fault::Error(EngineError::NotInitialized))
            } else {
                match answer {
                    Ok(z) => Ok(z),
                    Err(e) => Err(Fault::Trap(Trap::Callee(e))),
                }
            }),
    {
        if self.vault.is_none() {
            return Err(Fault::Error(EngineError::NotInitialized));
        }
        match answer {
            Ok(z) => Ok(z),
            Err(e) => Err(Fault::Trap(Trap::Callee(e))),
        }
    }

    /// Capital deployed into a pool.
    pub fn get_exposure(&self, pool_id: Address) -> (n: i128)
        ensures
            n == self.exposure(pool_id),
    {
        match self.exposures.get(pool_id) {
            Some(z) => z,
            None => 0,
        }
    }

    /// The whole exposure book. Registered pools with no exposure are listed
    /// as zero, so it doubles as the whitelist.
    pub fn get_exposures(&self) -> (book: Table<Address, i128>)
        ensures
            book@.dom() == self.pools@.dom(),
            forall|p: Address| #[trigger]
                book@.dom().contains(p) ==> book@[p] == self.exposure(p),
            self.sound() ==> sum_of(book@) == self.total_allocated,
    {
        let mut book: Table<Address, i128> = Table::new();
        let n: usize = self.pools.len();
        let ghost pools = self.pools.listing();
        let mut i: usize = 0;
        while i < n
            invariant
                i <= n,
                n == pools.len(),
                pools == self.pools.listing(),
                forall|p: Address| #[trigger]
                    book@.dom().contains(p) <==> lists(pools.take(i as int), p),
                forall|p: Address| #[trigger]
                    book@.dom().contains(p) ==> book@[p] == self.exposure(p),
            decreases n - i,
        {
            let id: Address = self.pools.entry(i).0;
            let ghost before = book@;
            book.set(id, self.get_exposure(id));
            proof {
                assert forall|p: Address| #[trigger]
                    book@.dom().contains(p) <==> lists(pools.take(i + 1), p) by {
                    if before.dom().contains(p) {
                        let j = choose|j: int|
                            0 <= j < i && (#[trigger] pools.take(i as int)[j]).0 == p;
                        assert(pools.take(i + 1)[j].0 == p);
                    }
                    assert(pools.take(i + 1)[i as int].0 == id);
                    if lists(pools.take(i + 1), p) {
                        let j = choose|j: int|
                            0 <= j < i + 1 && (#[trigger] pools.take(i + 1)[j]).0 == p;
                        if j < i {
                            assert(pools.take(i as int)[j].0 == p);
                        }
                    }
                }
            }
            i = i + 1;
        }
        proof {
            assert(pools.take(n as int) =~= pools);
            assert(book@.dom() =~= self.pools@.dom());
            if self.sound() {
                book.finite();
                self.exposures.finite();
                assert forall|p: Address| #[trigger] held(book@, p) == held(
                    self.exposures@,
                    p,
                ) by {
                    assert(held(self.exposures@, p) != 0 ==> self.pools@.dom().contains(p));
                }
                lemma_sum_agrees(book@, self.exposures@);
            }
        }
        book
    }

    /// Capital deployed across every pool.
    pub fn total_allocated(&self) -> (n: i128)
        ensures
            n == self.total_allocated,
    {
        self.total_allocated
    }

    /// The global concentration limits.
    pub fn caps(&self) -> (c: Caps)
        ensures
            c == self.caps,
    {
        self.caps
    }

    /// The reserve floor, in bps.
    pub fn reserve_floor_bps(&self) -> (n: u32)
        ensures
            n == self.floor_bps,
    {
        self.floor_bps
    }

    /// A registered pool.
    pub fn get_pool(&self, pool_id: Address) -> (r: Result<Pool, EngineError>)
        ensures
            r == (if self.pools@.dom().contains(pool_id) {
                Ok::<Pool, EngineError>(self.pools@[pool_id])
            } else {
                Err(EngineError::PoolNotRegistered)
            }),
    {
        match self.pools.get(pool_id) {
            Some(p) => Ok(p),
            None => Err(EngineError::PoolNotRegistered),
        }
    }

    /// The registered pools, in the order of their addresses.
    pub fn pools(&self) -> (ids: Vec<Address>)
        ensures
            forall|p: Address| ids@.contains(p) <==> #[trigger] self.pools@.dom().contains(p),
            forall|i: int, j: int|
                0 <= i < j < ids@.len() ==> (#[trigger] ids@[i]).rank() < (
                #[trigger] ids@[j]).rank(),
    {
        let ids: Vec<Address> = self.pools.keys();
        proof {
            let pools = self.pools.listing();
            assert forall|p: Address|
                ids@.contains(p) <==> #[trigger] self.pools@.dom().contains(p) by {
                if ids@.contains(p) {
                    let i = choose|i: int| 0 <= i < ids@.len() && ids@[i] == p;
                    assert(pools[i].0 == p);
                }
                if lists(pools, p) {
                    let i = choose|i: int| 0 <= i < pools.len() && (#[trigger] pools[i]).0 == p;
                    assert(ids@[i] == p);
                }
            }
            assert forall|i: int, j: int| 0 <= i < j < ids@.len() implies (
            #[trigger] ids@[i]).rank() < (#[trigger] ids@[j]).rank() by {
                assert(pools[i].0.rank() < pools[j].0.rank());
            }
        }
        ids
    }

    /// The vault whose capital this engine governs.
    pub fn vault(&self) -> (r: Result<Address, EngineError>)
        ensures
            r == (match self.vault {
                Some(a) => Ok::<Address, EngineError>(a),
                None => Err(EngineError::NotInitialized),
            }),
    {
        match self.vault {
            Some(a) => Ok(a),
            None => Err(EngineError::NotInitialized),
        }
    }

    /// The admin.
    pub fn admin(&self) -> (r: Result<Address, EngineError>)
        ensures
            r == (match self.role.admin {
                Some(a) => Ok::<Address, EngineError>(a),
                None => Err(EngineError::NotInitialized),
            }),
    {
        match self.role.admin {
            Some(a) => Ok(a),
            None => Err(EngineError::NotInitialized),
        }
    }
}

/// A group's charged exposure depends only on the pools and what is charged
/// to each.
proof fn lemma_group_agrees(a: AllocationEngine, b: AllocationEngine, group: Group)
    requires
        a.pools == b.pools,
        forall|p: Address| #[trigger] a.charged(p) == b.charged(p),
    ensures
        a.charged_group(group) == b.charged_group(group),
{
    a.pools.finite();
    let f = |id: Address, pool: Pool|
        if group.counts(pool) {
            a.charged(id)
        } else {
            0
        };
    let g = |id: Address, pool: Pool|
        if group.counts(pool) {
            b.charged(id)
        } else {
            0
        };
    assert forall|k: Address| #[trigger] a.pools@.dom().contains(k) implies f(k, a.pools@[k]) == g(
        k,
        b.pools@[k],
    ) by {
        assert(a.charged(k) == b.charged(k));
    }
    lemma_total_agrees(a.pools@, f, b.pools@, g);
}

/// A group's charged exposure moves with that of a pool it counts.
proof fn lemma_group_moves(
    a: AllocationEngine,
    b: AllocationEngine,
    pool_id: Address,
    by: int,
    group: Group,
)
    requires
        a.pools == b.pools,
        a.pools@.dom().contains(pool_id),
        forall|p: Address| #[trigger]
            b.charged(p) == a.charged(p) + (if p == pool_id {
                by
            } else {
                0
            }),
    ensures
        b.charged_group(group) == a.charged_group(group) + (if group.counts(a.pools@[pool_id]) {
            by
        } else {
            0
        }),
{
    a.pools.finite();
    let f = |id: Address, pool: Pool|
        if group.counts(pool) {
            a.charged(id)
        } else {
            0
        };
    let g = |id: Address, pool: Pool|
        if group.counts(pool) {
            b.charged(id)
        } else {
            0
        };
    let rest = a.pools@.remove(pool_id);
    assert forall|k: Address| #[trigger] rest.dom().contains(k) implies f(k, rest[k]) == g(
        k,
        rest[k],
    ) by {
        assert(b.charged(k) == a.charged(k));
    }
    lemma_total_agrees(rest, f, rest, g);
    lemma_total_split(a.pools@, f, pool_id);
    lemma_total_split(a.pools@, g, pool_id);
    assert(b.charged(pool_id) == a.charged(pool_id) + by);
}

/// A write-down leaves what every cap measures where it was.
pub proof fn a_write_down_moves_no_charge(
    before: AllocationEngine,
    after: AllocationEngine,
    by: Invocation,
    admin: Address,
    from: Address,
    written: i128,
    vault_admin: Result<Address, InvokeError>,
    pool_id: Address,
    group: Group,
)
    requires
        before.write_down_fault(by, admin, from, written, vault_admin) is None,
        before.wrote_down(after, from, written),
    ensures
        after.charged(pool_id) == before.charged(pool_id),
        after.charged_group(group) == before.charged_group(group),
{
    assert forall|p: Address| #[trigger] before.charged(p) == after.charged(p) by {}
    lemma_group_agrees(before, after, group);
}

/// A write-down opens no limit. Whatever allocation was beyond the caps or the
/// floor before it is beyond them after it: what the caps measure has not
/// moved, the book they are a share of has shrunk, and the floor base is the
/// vault's and has not moved either.
pub proof fn a_write_down_opens_no_limit(
    before: AllocationEngine,
    after: AllocationEngine,
    by: Invocation,
    admin: Address,
    from: Address,
    written: i128,
    vault_admin: Result<Address, InvokeError>,
    pool_id: Address,
    amount: int,
    idle: int,
    floor_base: int,
)
    requires
        before.write_down_fault(by, admin, from, written, vault_admin) is None,
        before.wrote_down(after, from, written),
        !before.within_limits(pool_id, amount, idle, floor_base),
    ensures
        !after.within_limits(pool_id, amount, idle, floor_base),
{
    let pool = before.pools@[pool_id];
    assert forall|p: Address| #[trigger] before.charged(p) == after.charged(p) by {}
    lemma_group_agrees(before, after, Group::Originator(pool.originator));
    lemma_group_agrees(before, after, Group::Jurisdiction(pool.jurisdiction));
    assert(before.charged(pool_id) == after.charged(pool_id));
    let b = idle + before.total_allocated;
    let a = idle + after.total_allocated;
    let c = before.pool_cap(pool_id);
    assert(c * a <= c * b) by (nonlinear_arith)
        requires
            a <= b,
            c >= 0,
    ;
    let o = before.caps.originator_bps as int;
    assert(o * a <= o * b) by (nonlinear_arith)
        requires
            a <= b,
            o >= 0,
    ;
    let j = before.caps.jurisdiction_bps as int;
    assert(j * a <= j * b) by (nonlinear_arith)
        requires
            a <= b,
            j >= 0,
    ;
}

/// A recovery that was swept through the adapter and one that was booked
/// against cash already in the vault leave the engine in states that cannot be
/// told apart.
pub proof fn a_booked_recovery_and_a_swept_one_agree(
    before: AllocationEngine,
    swept: AllocationEngine,
    booked: AllocationEngine,
    pool_id: Address,
    amount: i128,
)
    requires
        before.recovered(swept, pool_id, amount),
        before.recovered(booked, pool_id, amount),
    ensures
        swept.written_off_pools@ == booked.written_off_pools@,
        swept == (AllocationEngine { written_off_pools: swept.written_off_pools, ..booked }),
{
}

/// A recovery releases no more than the pool was charged, and touches no other
/// pool's charge.
pub proof fn a_recovery_releases_no_other_pool(
    before: AllocationEngine,
    after: AllocationEngine,
    pool_id: Address,
    amount: i128,
    other: Address,
)
    requires
        before.sound(),
        amount > 0,
        before.recovered(after, pool_id, amount),
        other != pool_id,
    ensures
        after.charge(other) == before.charge(other),
        0 <= after.charge(pool_id) <= before.charge(pool_id),
        before.charge(pool_id) - after.charge(pool_id) <= amount,
{
    assert(held(before.written_off_pools@, pool_id) >= 0);
}

/// An engine with its caps still at zero deploys nothing, whatever is asked of
/// it.
pub proof fn an_unconfigured_engine_deploys_nothing(
    x: AllocationEngine,
    inv: Invocation,
    admin: Address,
    pool_id: Address,
    amount: i128,
    wiring: Wiring,
    free_reserves: Result<i128, InvokeError>,
    floor_base: Result<i128, InvokeError>,
)
    requires
        x.sound(),
        x.caps.pool_bps == 0,
    ensures
        x.allocate_fault(inv, admin, pool_id, amount, wiring, free_reserves, floor_base) is Some,
{
    assert(held(x.exposures@, pool_id) >= 0);
    assert(held(x.written_off_pools@, pool_id) >= 0);
    if x.pools@.dom().contains(pool_id) && amount > 0 {
        assert(x.pool_cap(pool_id) == 0);
    }
}

/// Unwinding never runs into a limit: a repayment within a pool's exposure is
/// refused only for who asks or how the adapter is wired.
pub proof fn a_repayment_meets_no_limit(
    x: AllocationEngine,
    inv: Invocation,
    pool_id: Address,
    amount: i128,
    wiring: Wiring,
)
    requires
        x.sound(),
        x.role.admin is Some,
        inv.signed(x.role.admin->0),
        x.adapter_fault(inv, wiring) is None,
        0 < amount <= x.exposure(pool_id),
    ensures
        x.deallocate_fault(inv, pool_id, amount, wiring) is None,
{
    assert(held(x.exposures@, pool_id) != 0);
    x.total_covers_every_exposure(pool_id);
}

/// A repayment closes no limit: whatever allocation the caps and the floor
/// would have let through before it, they let through after it.
pub proof fn a_repayment_closes_no_limit(
    before: AllocationEngine,
    after: AllocationEngine,
    from: Address,
    repaid: i128,
    pool_id: Address,
    amount: int,
    idle: int,
    floor_base: int,
)
    requires
        before.sound(),
        before.pools@.dom().contains(from),
        before.pools@.dom().contains(pool_id),
        0 < repaid <= before.exposure(from),
        before.deallocated(after, from, repaid),
        before.within_limits(pool_id, amount, idle, floor_base),
    ensures
        after.within_limits(pool_id, amount, idle + repaid, floor_base),
{
    before.total_covers_every_exposure(from);
    let pool = before.pools@[pool_id];
    assert forall|p: Address| #[trigger] after.charged(p) == before.charged(p) + (if p == from {
        -repaid as int
    } else {
        0
    }) by {}
    lemma_group_moves(before, after, from, -repaid as int, Group::Originator(pool.originator));
    lemma_group_moves(before, after, from, -repaid as int, Group::Jurisdiction(pool.jurisdiction));
    assert(after.charged(pool_id) <= before.charged(pool_id));
}

/// An allocation gains nothing by being made in pieces: the caps and the floor
/// let a second piece through exactly where they would have let both through
/// at once.
pub proof fn slicing_an_allocation_buys_nothing(
    before: AllocationEngine,
    between: AllocationEngine,
    pool_id: Address,
    first: i128,
    second: i128,
    idle: int,
    floor_base: int,
)
    requires
        before.pools@.dom().contains(pool_id),
        fits(before.exposure(pool_id) + first),
        fits(before.total_allocated + first),
        before.allocated(between, pool_id, first),
    ensures
        between.within_limits(pool_id, second as int, idle - first, floor_base)
            == before.within_limits(pool_id, first + second, idle, floor_base),
{
    let pool = before.pools@[pool_id];
    assert forall|p: Address| #[trigger] between.charged(p) == before.charged(p) + (if p
        == pool_id {
        first as int
    } else {
        0
    }) by {}
    lemma_group_moves(before, between, pool_id, first as int, Group::Originator(pool.originator));
    lemma_group_moves(
        before,
        between,
        pool_id,
        first as int,
        Group::Jurisdiction(pool.jurisdiction),
    );
    assert(between.charged(pool_id) == before.charged(pool_id) + first);
}

/// A pool's own cap never loosens the global one, and the global one never
/// loosens a pool's own.
pub proof fn the_tighter_cap_binds(x: AllocationEngine, pool_id: Address)
    ensures
        x.pool_cap(pool_id) <= x.caps.pool_bps,
        x.pool_cap(pool_id) <= x.pools@[pool_id].cap_bps,
{
}

/// A pool that leaves the registry takes nothing out of any sum that the caps
/// measure.
pub proof fn unregistering_frees_no_limit(
    before: AllocationEngine,
    after: AllocationEngine,
    inv: Invocation,
    admin: Address,
    gone: Address,
    adapter_exposure: Result<i128, InvokeError>,
    group: Group,
    other: Address,
)
    requires
        before.sound(),
        before.unregister_pool_fault(inv, admin, gone, adapter_exposure) is None,
        before.unregistered(after, gone),
    ensures
        after.charged_group(group) == before.charged_group(group),
        after.charged(other) == before.charged(other),
{
    before.pools.finite();
    assert(held(before.exposures@, gone) == 0);
    assert(held(before.written_off_pools@, gone) == 0);
    let f = |id: Address, pool: Pool|
        if group.counts(pool) {
            before.charged(id)
        } else {
            0
        };
    let g = |id: Address, pool: Pool|
        if group.counts(pool) {
            after.charged(id)
        } else {
            0
        };
    assert forall|k: Address| #[trigger] after.pools@.dom().contains(k) implies f(
        k,
        after.pools@[k],
    ) == g(k, after.pools@[k]) by {
        assert(after.charged(k) == before.charged(k));
    }
    lemma_total_split(before.pools@, f, gone);
    after.pools.finite();
    lemma_total_agrees(after.pools@, f, after.pools@, g);
}

/// The alignment that [`AllocationEngine::admin_aligned`] reports is what a
/// write-down, a recovery and a booking are refused for lack of.
pub proof fn misaligned_admins_recognise_no_loss(
    x: AllocationEngine,
    inv: Invocation,
    admin: Address,
    pool_id: Address,
    amount: i128,
    vault_admin: Result<Address, InvokeError>,
    wiring: Wiring,
    swept: Result<i128, InvokeError>,
)
    requires
        x.vault is Some,
        x.admin_fault(inv, admin) is None,
        x.pools@.dom().contains(pool_id),
        amount > 0,
        vault_admin is Ok,
    ensures
        !x.aligned(vault_admin) ==> {
            let mismatch = Some(Fault::Error(EngineError::AdminMismatch));
            &&& x.write_down_fault(inv, admin, pool_id, amount, vault_admin) == mismatch
            &&& x.recover_fault(inv, admin, pool_id, vault_admin, wiring, swept) == mismatch
            &&& x.book_recovery_fault(inv, admin, pool_id, amount, vault_admin) == mismatch
        },
        x.aligned(vault_admin) ==> {
            let mismatch = Some(Fault::Error(EngineError::AdminMismatch));
            &&& x.write_down_fault(inv, admin, pool_id, amount, vault_admin) != mismatch
            &&& x.recover_fault(inv, admin, pool_id, vault_admin, wiring, swept) != mismatch
            &&& x.book_recovery_fault(inv, admin, pool_id, amount, vault_admin) != mismatch
        },
{
}

/// Which pool a recovery is booked for decides whose charge it releases, and
/// nothing else: the losses on record fall by as much either way.
pub proof fn a_booking_moves_the_losses_alike_for_every_pool(
    before: AllocationEngine,
    one: AllocationEngine,
    other: AllocationEngine,
    pool_one: Address,
    pool_other: Address,
    amount: i128,
)
    requires
        before.recovered(one, pool_one, amount),
        before.recovered(other, pool_other, amount),
    ensures
        one.written_off == other.written_off,
        one == (AllocationEngine { written_off_pools: one.written_off_pools, ..other }),
{
}

} // verus!
