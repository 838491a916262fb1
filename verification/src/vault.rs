//! The vault, the protocol's only custodian.
//!
//! USDC comes in, agUSD goes out one for one, and the USDC stays here until
//! the allocation engine instructs a release. Leaving takes two steps,
//! `request_withdrawal` then `claim_withdrawal`, because the assets behind
//! agUSD settle in weeks. The withdrawal queue is first in, first out, with
//! one exception that harms nobody: a claim whose payment the token refuses
//! is deferred, stepped over, and still owed.
//!
//! Nothing here trusts the engine for the vault's own solvency. Every release
//! is held to a reserve floor measured on the vault's own records, and the
//! base of that floor is one that neither a release nor a write-down can
//! lower.

use crate::address::{Address, Symbol};
use crate::host::{Call, Effects, Event, Fault, Invocation, InvokeError, Receipt, Rent, Trap};
use crate::math::{fits, larger, minus, plus, smaller, times, BPS};
use crate::role::{Role, RoleRefusal};
use crate::table::{lemma_total_bounds, lemma_total_insert, total, Table};
use vstd::prelude::*;

verus! {

/// How far ahead a claim is kept alive: ninety days of ledgers.
pub const CLAIM_BUMP: u32 = 1_555_200;

/// A claim with at least this long to live is left alone.
pub const CLAIM_LIFETIME: u32 = 1_537_920;

/// The smallest withdrawal: one agUSD at seven decimals. Every request takes a
/// slot in a queue that is paid in order, and a floor on it keeps dust out.
pub const MIN_WITHDRAWAL: i128 = 10_000_000;

/// What the vault refuses.
#[derive(Clone, Copy, Debug, PartialEq, Eq, Structural)]
pub enum VaultError {
    /// Kept so that its code never means anything new.
    AlreadyInitialized,
    NotInitialized,
    NotAdmin,
    /// The circuit breaker is on.
    Paused,
    /// Zero or negative amount.
    InvalidAmount,
    /// Withdrawal below the anti-dust minimum.
    BelowMinWithdrawal,
    ClaimNotFound,
    NotClaimOwner,
    AlreadyClaimed,
    /// The claim is neither at the head of the queue nor deferred.
    NotAtQueueHead,
    /// The vault does not hold enough idle USDC.
    InsufficientLiquidity,
    /// `set_oracle` has not been called yet.
    OracleNotConfigured,
    /// The vault has already taken a deposit, so its agUSD is fixed.
    DepositsExist,
    /// Capital of this vault is out at a pool, so its engine is fixed.
    CapitalDeployed,
    /// The proposed engine does not answer that it governs this vault with an
    /// empty book.
    EngineMismatch,
    /// `settle_withdrawal` with nothing queued.
    QueueEmpty,
    /// The release would take free reserves below the vault's own floor.
    ReserveFloorBreached,
    /// A repayment that the vault cannot see in its own balance.
    RepaymentNotReceived,
    /// More written down or repaid than is recorded as deployed.
    DeployedUnderflow,
    /// A floor above 10000 bps.
    InvalidFloor,
    /// `accept_admin` with no handover in flight.
    NoPendingAdmin,
    /// `accept_admin` by an address that was not the one proposed.
    NotPendingAdmin,
    /// The token refused to deliver a payment to the claim's owner.
    PaymentRejected,
    /// A recovery that the vault cannot see in its own balance.
    RecoveryNotReceived,
    /// The proposed agUSD does not name this vault as its minter.
    AgUsdMismatch,
    /// The address given as USDC does not answer as a token.
    InvalidUsdc,
    /// The proposed oracle does not answer, or does not know the feed.
    OracleMismatch,
    /// The proposed agUSD counts its decimals differently from the USDC.
    DecimalMismatch,
}

impl VaultError {
    /// The code the ledger reports.
    pub open spec fn number(self) -> u32 {
        match self {
            VaultError::AlreadyInitialized => 300,
            VaultError::NotInitialized => 301,
            VaultError::NotAdmin => 302,
            VaultError::Paused => 303,
            VaultError::InvalidAmount => 304,
            VaultError::BelowMinWithdrawal => 305,
            VaultError::ClaimNotFound => 306,
            VaultError::NotClaimOwner => 307,
            VaultError::AlreadyClaimed => 308,
            VaultError::NotAtQueueHead => 309,
            VaultError::InsufficientLiquidity => 310,
            VaultError::OracleNotConfigured => 311,
            VaultError::DepositsExist => 312,
            VaultError::CapitalDeployed => 313,
            VaultError::EngineMismatch => 314,
            VaultError::QueueEmpty => 315,
            VaultError::ReserveFloorBreached => 316,
            VaultError::RepaymentNotReceived => 317,
            VaultError::DeployedUnderflow => 318,
            VaultError::InvalidFloor => 319,
            VaultError::NoPendingAdmin => 320,
            VaultError::NotPendingAdmin => 321,
            VaultError::PaymentRejected => 322,
            VaultError::RecoveryNotReceived => 323,
            VaultError::AgUsdMismatch => 324,
            VaultError::InvalidUsdc => 325,
            VaultError::OracleMismatch => 326,
            VaultError::DecimalMismatch => 327,
        }
    }

    /// The code the ledger reports.
    pub fn code(self) -> (n: u32)
        ensures
            n == self.number(),
    {
        match self {
            VaultError::AlreadyInitialized => 300,
            VaultError::NotInitialized => 301,
            VaultError::NotAdmin => 302,
            VaultError::Paused => 303,
            VaultError::InvalidAmount => 304,
            VaultError::BelowMinWithdrawal => 305,
            VaultError::ClaimNotFound => 306,
            VaultError::NotClaimOwner => 307,
            VaultError::AlreadyClaimed => 308,
            VaultError::NotAtQueueHead => 309,
            VaultError::InsufficientLiquidity => 310,
            VaultError::OracleNotConfigured => 311,
            VaultError::DepositsExist => 312,
            VaultError::CapitalDeployed => 313,
            VaultError::EngineMismatch => 314,
            VaultError::QueueEmpty => 315,
            VaultError::ReserveFloorBreached => 316,
            VaultError::RepaymentNotReceived => 317,
            VaultError::DeployedUnderflow => 318,
            VaultError::InvalidFloor => 319,
            VaultError::NoPendingAdmin => 320,
            VaultError::NotPendingAdmin => 321,
            VaultError::PaymentRejected => 322,
            VaultError::RecoveryNotReceived => 323,
            VaultError::AgUsdMismatch => 324,
            VaultError::InvalidUsdc => 325,
            VaultError::OracleMismatch => 326,
            VaultError::DecimalMismatch => 327,
        }
    }
}

/// A queued withdrawal. The agUSD is burned at request time, so this record is
/// all that says the owner is owed anything.
#[derive(Clone, Copy, Debug, PartialEq, Eq, Structural)]
pub struct Claim {
    pub owner: Address,
    pub amount: i128,
    pub requested_at: u64,
    pub claimed: bool,
}

/// Where a claim stands.
#[derive(Clone, Copy, Debug, PartialEq, Eq, Structural)]
pub enum ClaimStatus {
    Pending,
    /// Collectable, and the vault holds the cash.
    Ready,
    Claimed,
}

/// A handover of the admin role was proposed.
#[derive(Clone, Copy, Debug, PartialEq, Eq, Structural)]
pub struct AdminProposed {
    pub new_admin: Address,
}

/// A proposed admin accepted the role.
#[derive(Clone, Copy, Debug, PartialEq, Eq, Structural)]
pub struct AdminChanged {
    pub admin: Address,
}

/// USDC came in and agUSD went out.
#[derive(Clone, Copy, Debug, PartialEq, Eq, Structural)]
pub struct Deposit {
    pub user: Address,
    pub amount: i128,
    pub minted: i128,
}

/// agUSD was burned and a claim queued.
#[derive(Clone, Copy, Debug, PartialEq, Eq, Structural)]
pub struct WithdrawalRequested {
    pub user: Address,
    pub claim_id: u64,
    pub amount: i128,
    pub queue_position: u64,
}

/// A claim was paid.
#[derive(Clone, Copy, Debug, PartialEq, Eq, Structural)]
pub struct WithdrawalClaimed {
    pub user: Address,
    pub claim_id: u64,
    pub amount: i128,
}

/// A claim could not be delivered and was stepped over.
#[derive(Clone, Copy, Debug, PartialEq, Eq, Structural)]
pub struct WithdrawalDeferred {
    pub user: Address,
    pub claim_id: u64,
    pub amount: i128,
}

/// The circuit breaker was switched.
#[derive(Clone, Copy, Debug, PartialEq, Eq, Structural)]
pub struct PauseToggled {
    pub paused: bool,
}

/// The reserve floor was set.
#[derive(Clone, Copy, Debug, PartialEq, Eq, Structural)]
pub struct ReserveFloorSet {
    pub floor_bps: u32,
}

/// Capital came back from a pool.
#[derive(Clone, Copy, Debug, PartialEq, Eq, Structural)]
pub struct RepaymentRecorded {
    pub amount: i128,
    pub deployed: i128,
}

/// Deployed capital was recognised as lost.
#[derive(Clone, Copy, Debug, PartialEq, Eq, Structural)]
pub struct WriteDownRecorded {
    pub amount: i128,
    pub deployed: i128,
    pub recognised_losses: i128,
}

/// Capital that had been written off came back.
#[derive(Clone, Copy, Debug, PartialEq, Eq, Structural)]
pub struct RecoveryRecorded {
    pub amount: i128,
    pub applied_to_losses: i128,
    pub recognised_losses: i128,
}

/// The agUSD pointer moved.
#[derive(Clone, Copy, Debug, PartialEq, Eq, Structural)]
pub struct AgUsdRepointed {
    pub agusd: Address,
}

/// The oracle pointer moved.
#[derive(Clone, Copy, Debug, PartialEq, Eq, Structural)]
pub struct OracleRepointed {
    pub oracle: Address,
    pub feed_id: Symbol,
}

/// The engine pointer moved.
#[derive(Clone, Copy, Debug, PartialEq, Eq, Structural)]
pub struct EngineRepointed {
    pub engine: Address,
}

/// The storage of the vault.
#[derive(Clone)]
pub struct Vault {
    pub role: Role,
    pub usdc: Option<Address>,
    pub agusd: Option<Address>,
    pub engine: Option<Address>,
    pub oracle: Option<Address>,
    pub oracle_feed: Option<Symbol>,
    pub paused: bool,
    pub queue_head: u64,
    pub queue_tail: u64,
    pub deposits: u64,
    pub floor_bps: u32,
    /// USDC released to pools and not seen back.
    pub deployed: i128,
    /// USDC owed to claims that have not been paid.
    pub queued: i128,
    /// The idle balance that the vault's own flows account for.
    pub booked: i128,
    /// Deployed capital written off and not recovered.
    pub written_off: i128,
    pub claims: Table<u64, Claim>,
    pub deferred: Table<u64, bool>,
}

/// What the claims that have not been paid add up to.
pub open spec fn unpaid(claims: Map<u64, Claim>) -> int {
    total(
        claims,
        |id: u64, c: Claim|
            if c.claimed {
                0
            } else {
                c.amount as int
            },
    )
}

proof fn lemma_unpaid_insert(claims: Map<u64, Claim>, id: u64, c: Claim)
    requires
        claims.dom().finite(),
    ensures
        unpaid(claims.insert(id, c)) == unpaid(claims) + (if c.claimed {
            0
        } else {
            c.amount as int
        }) - (if claims.dom().contains(id) && !claims[id].claimed {
            claims[id].amount as int
        } else {
            0
        }),
{
    lemma_total_insert(
        claims,
        |id: u64, c: Claim|
            if c.claimed {
                0
            } else {
                c.amount as int
            },
        id,
        c,
    );
}

proof fn lemma_unpaid_covers(claims: Map<u64, Claim>, id: u64)
    requires
        claims.dom().finite(),
        forall|i: u64| #[trigger] claims.dom().contains(i) ==> claims[i].amount >= 0,
        claims.dom().contains(id),
        !claims[id].claimed,
    ensures
        unpaid(claims) >= claims[id].amount,
{
    lemma_total_bounds(
        claims,
        |id: u64, c: Claim|
            if c.claimed {
                0
            } else {
                c.amount as int
            },
        id,
    );
}

/// Whether a claim has been stepped over.
pub open spec fn stepped_over(deferred: Map<u64, bool>, id: u64) -> bool {
    deferred.dom().contains(id) && deferred[id]
}

impl Vault {
    /// The contract's refusal for a refusal on the role.
    pub open spec fn denial(e: RoleRefusal) -> Fault<VaultError> {
        match e {
            RoleRefusal::Unset => Fault::Error(VaultError::NotInitialized),
            RoleRefusal::NotAdmin => Fault::Error(VaultError::NotAdmin),
            RoleRefusal::NoPending => Fault::Error(VaultError::NoPendingAdmin),
            RoleRefusal::NotPending => Fault::Error(VaultError::NotPendingAdmin),
            RoleRefusal::Unauthorized => Fault::Trap(Trap::Unauthorized),
        }
    }

    fn deny(e: RoleRefusal) -> (f: Fault<VaultError>)
        ensures
            f == Vault::denial(e),
    {
        match e {
            RoleRefusal::Unset => Fault::Error(VaultError::NotInitialized),
            RoleRefusal::NotAdmin => Fault::Error(VaultError::NotAdmin),
            RoleRefusal::NoPending => Fault::Error(VaultError::NoPendingAdmin),
            RoleRefusal::NotPending => Fault::Error(VaultError::NotPendingAdmin),
            RoleRefusal::Unauthorized => Fault::Trap(Trap::Unauthorized),
        }
    }

    /// What every call keeps.
    ///
    /// The queue: claims are numbered from one without a gap up to the tail;
    /// everything from the head on is unpaid and in its place; everything
    /// before the head was paid or stepped over; what was stepped over is
    /// unpaid. The books: the liability on record is exactly what unpaid
    /// claims add up to, and nothing on record is negative.
    pub open spec fn sound(self) -> bool {
        &&& 1 <= self.queue_head <= self.queue_tail
        &&& forall|id: u64|
            #[trigger] self.claims@.dom().contains(id) <==> 1 <= id < self.queue_tail
        &&& forall|id: u64|
            self.queue_head <= id < self.queue_tail ==> !(#[trigger] self.claims@[id]).claimed
        &&& forall|id: u64|
            1 <= id < self.queue_head ==> (#[trigger] self.claims@[id]).claimed || stepped_over(
                self.deferred@,
                id,
            )
        &&& forall|id: u64| #[trigger]
            stepped_over(self.deferred@, id) ==> 1 <= id < self.queue_head
                && !self.claims@[id].claimed
        &&& forall|id: u64| #[trigger]
            self.claims@.dom().contains(id) ==> self.claims@[id].amount >= MIN_WITHDRAWAL
        &&& self.queued == unpaid(self.claims@)
        &&& self.deployed >= 0
        &&& self.written_off >= 0
        &&& self.floor_bps <= BPS
    }

    /// Idle reserves, given what USDC says the vault holds.
    pub open spec fn idle(self, held: i128) -> int {
        if self.usdc is None {
            0
        } else {
            held as int
        }
    }

    /// Idle reserves less what the queue is owed, never negative.
    pub open spec fn free(self, held: i128) -> int {
        larger(self.idle(held) - self.queued, 0)
    }

    /// What the reserve floor is a share of: idle reserves less what the queue
    /// is owed, deployed capital, and losses not recovered. Only the sum is
    /// kept from going negative: were a term, capital that comes home to a
    /// queue not yet covered would lower it.
    pub open spec fn base(self, held: i128) -> int {
        larger(self.idle(held) - self.queued + self.deployed + self.written_off, 0)
    }

    /// Whether the floor stands: free reserves are at least their share of the
    /// base.
    pub open spec fn floor_stands(self, held: i128) -> bool {
        self.free(held) * BPS >= self.floor_bps * self.base(held)
    }

    /// Whether the balance covers what the vault's flows account for.
    pub open spec fn backed(self, held: i128) -> bool {
        self.booked <= self.idle(held)
    }

    /// Why the caller may not act as the engine.
    pub open spec fn engine_fault(self, inv: Invocation) -> Option<Fault<VaultError>> {
        match self.engine {
            None => Some(Fault::Error(VaultError::NotInitialized)),
            Some(engine) => if !inv.signed(engine) {
                Some(Fault::Trap(Trap::Unauthorized))
            } else {
                None
            },
        }
    }

    fn require_engine(&self, inv: &Invocation) -> (r: Result<(), Fault<VaultError>>)
        ensures
            match r {
                Ok(_) => self.engine_fault(*inv) is None,
                Err(f) => self.engine_fault(*inv) == Some(f),
            },
    {
        match self.engine {
            None => Err(Fault::Error(VaultError::NotInitialized)),
            Some(engine) => if !inv.authorized(engine) {
                Err(Fault::Trap(Trap::Unauthorized))
            } else {
                Ok(())
            },
        }
    }

    /// Why `admin` may not act as admin.
    pub open spec fn admin_fault(self, inv: Invocation, admin: Address) -> Option<
        Fault<VaultError>,
    > {
        match self.role.require_refusal(inv, admin) {
            Some(e) => Some(Vault::denial(e)),
            None => None,
        }
    }

    fn require_admin(&self, inv: &Invocation, admin: Address) -> (r: Result<(), Fault<VaultError>>)
        ensures
            match r {
                Ok(_) => self.admin_fault(*inv, admin) is None,
                Err(f) => self.admin_fault(*inv, admin) == Some(f),
            },
    {
        match self.role.require(inv, admin) {
            Ok(_) => Ok(()),
            Err(e) => Err(Vault::deny(e)),
        }
    }

    /// A vault whose constructor has not run.
    pub fn empty() -> (v: Vault)
        ensures
            v.role == (Role { admin: None, pending: None }),
            v.usdc is None && v.agusd is None && v.engine is None && v.oracle is None
                && v.oracle_feed is None,
            !v.paused,
            v.queue_head == 1 && v.queue_tail == 1 && v.deposits == 0,
            v.floor_bps == BPS,
            v.deployed == 0 && v.queued == 0 && v.booked == 0 && v.written_off == 0,
            v.claims@ == Map::<u64, Claim>::empty(),
            v.deferred@ == Map::<u64, bool>::empty(),
            v.sound(),
    {
        let v = Vault {
            role: Role::vacant(),
            usdc: None,
            agusd: None,
            engine: None,
            oracle: None,
            oracle_feed: None,
            paused: false,
            queue_head: 1,
            queue_tail: 1,
            deposits: 0,
            floor_bps: 10_000,
            deployed: 0,
            queued: 0,
            booked: 0,
            written_off: 0,
            claims: Table::new(),
            deferred: Table::new(),
        };
        assert(v.claims@.dom() =~= Set::empty());
        v
    }

    /// What `__constructor` answers, and what it leaves behind.
    pub open spec fn __constructor_step(
        self,
        after: Vault,
        inv: Invocation,
        admin: Address,
        usdc_token: Address,
        answer: Result<i128, InvokeError>,
        r: Result<Receipt<()>, Fault<VaultError>>,
    ) -> bool {
        match r {
            Ok(d) => {
                &&& inv.signed(admin) && answer is Ok
                &&& after == (Vault {
                    role: Role { admin: Some(admin), ..self.role },
                    usdc: Some(usdc_token),
                    paused: false,
                    queue_head: 1,
                    queue_tail: 1,
                    floor_bps: 10_000,
                    ..self
                })
                &&& d.gives((), seq![], seq![], seq![Rent::Instance])
            },
            Err(f) => {
                &&& f == (if !inv.signed(admin) {
                    Fault::Trap(Trap::Unauthorized)
                } else {
                    Fault::Error(VaultError::InvalidUsdc)
                })
                &&& inv.signed(admin) ==> answer is Err
                &&& after == self
            },
        }
    }

    /// Records the admin and the USDC, in the transaction that deploys the
    /// vault. `answer` is what the token says the vault holds; an address that
    /// cannot answer is not taken. The floor starts closed.
    pub fn __constructor(
        &mut self,
        inv: &Invocation,
        admin: Address,
        usdc_token: Address,
        answer: Result<i128, InvokeError>,
    ) -> (r: Result<Receipt<()>, Fault<VaultError>>)
        ensures
            old(self).__constructor_step(*final(self), *inv, admin, usdc_token, answer, r),
            old(self).sound() && old(self).queue_tail == 1 ==> final(self).sound(),
    {
        if !inv.authorized(admin) {
            return Err(Fault::Trap(Trap::Unauthorized));
        }
        if answer.is_err() {
            return Err(Fault::Error(VaultError::InvalidUsdc));
        }
        self.role.admin = Some(admin);
        self.usdc = Some(usdc_token);
        self.paused = false;
        self.queue_head = 1;
        self.queue_tail = 1;
        self.floor_bps = 10_000;
        Ok(Receipt { value: (), effects: Effects::none().keep(Rent::Instance) })
    }

    /// Why `set_reserve_floor` is refused.
    pub open spec fn set_reserve_floor_fault(
        self,
        inv: Invocation,
        admin: Address,
        floor_bps: u32,
    ) -> Option<Fault<VaultError>> {
        if self.admin_fault(inv, admin) is Some {
            self.admin_fault(inv, admin)
        } else if floor_bps > BPS {
            Some(Fault::Error(VaultError::InvalidFloor))
        } else {
            None
        }
    }

    /// What `set_reserve_floor` answers, and what it leaves behind.
    pub open spec fn set_reserve_floor_step(
        self,
        after: Vault,
        inv: Invocation,
        admin: Address,
        floor_bps: u32,
        r: Result<Receipt<()>, Fault<VaultError>>,
    ) -> bool {
        match r {
            Ok(d) => {
                &&& self.set_reserve_floor_fault(inv, admin, floor_bps) is None
                &&& after == (Vault { floor_bps, ..self })
                &&& d.gives(
                    (),
                    seq![],
                    seq![Event::ReserveFloorSet(ReserveFloorSet { floor_bps })],
                    seq![Rent::Instance],
                )
            },
            Err(f) => {
                &&& self.set_reserve_floor_fault(inv, admin, floor_bps) == Some(f)
                &&& after == self
            },
        }
    }

    /// Sets the share of the base that the vault will not release, in bps.
    pub fn set_reserve_floor(&mut self, inv: &Invocation, admin: Address, floor_bps: u32) -> (r:
        Result<Receipt<()>, Fault<VaultError>>)
        ensures
            old(self).set_reserve_floor_step(*final(self), *inv, admin, floor_bps, r),
            old(self).sound() ==> final(self).sound(),
    {
        match self.require_admin(inv, admin) {
            Ok(_) => {},
            Err(f) => {
                return Err(f);
            },
        }
        if floor_bps > 10_000 {
            return Err(Fault::Error(VaultError::InvalidFloor));
        }
        self.floor_bps = floor_bps;
        Ok(
            Receipt {
                value: (),
                effects: Effects::none().keep(Rent::Instance).event(
                    Event::ReserveFloorSet(ReserveFloorSet { floor_bps }),
                ),
            },
        )
    }

    /// Why `set_oracle` is refused.
    pub open spec fn set_oracle_fault(
        self,
        inv: Invocation,
        admin: Address,
        knows_feed: bool,
    ) -> Option<Fault<VaultError>> {
        if self.admin_fault(inv, admin) is Some {
            self.admin_fault(inv, admin)
        } else if !knows_feed {
            Some(Fault::Error(VaultError::OracleMismatch))
        } else {
            None
        }
    }

    /// What `set_oracle` answers, and what it leaves behind.
    pub open spec fn set_oracle_step(
        self,
        after: Vault,
        inv: Invocation,
        admin: Address,
        oracle: Address,
        feed_id: Symbol,
        knows_feed: bool,
        r: Result<Receipt<()>, Fault<VaultError>>,
    ) -> bool {
        match r {
            Ok(d) => {
                &&& self.set_oracle_fault(inv, admin, knows_feed) is None
                &&& after == (Vault {
                    oracle: Some(oracle),
                    oracle_feed: Some(feed_id),
                    ..self
                })
                &&& d.gives(
                    (),
                    seq![],
                    seq![Event::OracleRepointed(OracleRepointed { oracle, feed_id })],
                    seq![Rent::Instance],
                )
            },
            Err(f) => {
                &&& self.set_oracle_fault(inv, admin, knows_feed) == Some(f)
                &&& after == self
            },
        }
    }

    /// Points the vault at an oracle and a feed on it. `knows_feed` is whether
    /// the oracle answered for that feed's registration.
    pub fn set_oracle(
        &mut self,
        inv: &Invocation,
        admin: Address,
        oracle: Address,
        feed_id: Symbol,
        knows_feed: bool,
    ) -> (r: Result<Receipt<()>, Fault<VaultError>>)
        ensures
            old(self).set_oracle_step(*final(self), *inv, admin, oracle, feed_id, knows_feed, r),
            old(self).sound() ==> final(self).sound(),
    {
        match self.require_admin(inv, admin) {
            Ok(_) => {},
            Err(f) => {
                return Err(f);
            },
        }
        if !knows_feed {
            return Err(Fault::Error(VaultError::OracleMismatch));
        }
        self.oracle = Some(oracle);
        self.oracle_feed = Some(feed_id);
        Ok(
            Receipt {
                value: (),
                effects: Effects::none().keep(Rent::Instance).event(
                    Event::OracleRepointed(OracleRepointed { oracle, feed_id }),
                ),
            },
        )
    }

    /// Why `set_agusd` is refused, given who the token says mints it, how many
    /// decimals it says it has, and how many USDC says it has.
    pub open spec fn set_agusd_fault(
        self,
        inv: Invocation,
        admin: Address,
        minter: Result<Address, InvokeError>,
        decimals: Result<u32, InvokeError>,
        usdc_decimals: Result<u32, InvokeError>,
    ) -> Option<Fault<VaultError>> {
        if self.admin_fault(inv, admin) is Some {
            self.admin_fault(inv, admin)
        } else if self.deposits > 0 {
            Some(Fault::Error(VaultError::DepositsExist))
        } else if minter != Ok::<Address, InvokeError>(inv.contract) {
            Some(Fault::Error(VaultError::AgUsdMismatch))
        } else if self.usdc is None {
            Some(Fault::Error(VaultError::NotInitialized))
        } else if usdc_decimals is Err {
            Some(Fault::Trap(Trap::Callee(usdc_decimals->Err_0)))
        } else if decimals != usdc_decimals {
            Some(Fault::Error(VaultError::DecimalMismatch))
        } else {
            None
        }
    }

    /// What `set_agusd` answers, and what it leaves behind.
    pub open spec fn set_agusd_step(
        self,
        after: Vault,
        inv: Invocation,
        admin: Address,
        agusd_token: Address,
        minter: Result<Address, InvokeError>,
        decimals: Result<u32, InvokeError>,
        usdc_decimals: Result<u32, InvokeError>,
        r: Result<Receipt<()>, Fault<VaultError>>,
    ) -> bool {
        match r {
            Ok(d) => {
                &&& self.set_agusd_fault(inv, admin, minter, decimals, usdc_decimals)
                    is None
                &&& after == (Vault { agusd: Some(agusd_token), ..self })
                &&& d.gives(
                    (),
                    seq![],
                    seq![Event::VaultAgUsdRepointed(AgUsdRepointed { agusd: agusd_token })],
                    seq![Rent::Instance],
                )
            },
            Err(f) => {
                &&& self.set_agusd_fault(inv, admin, minter, decimals, usdc_decimals)
                    == Some(f)
                &&& after == self
            },
        }
    }

    /// Points the vault at its agUSD, before the first deposit.
    pub fn set_agusd(
        &mut self,
        inv: &Invocation,
        admin: Address,
        agusd_token: Address,
        minter: Result<Address, InvokeError>,
        decimals: Result<u32, InvokeError>,
        usdc_decimals: Result<u32, InvokeError>,
    ) -> (r: Result<Receipt<()>, Fault<VaultError>>)
        ensures
            old(self).set_agusd_step(
                *final(self),
                *inv,
                admin,
                agusd_token,
                minter,
                decimals,
                usdc_decimals,
                r,
            ),
            old(self).sound() ==> final(self).sound(),
    {
        match self.require_admin(inv, admin) {
            Ok(_) => {},
            Err(f) => {
                return Err(f);
            },
        }
        if self.deposits > 0 {
            return Err(Fault::Error(VaultError::DepositsExist));
        }
        match minter {
            Ok(m) => if m != inv.contract {
                return Err(Fault::Error(VaultError::AgUsdMismatch));
            },
            Err(_) => {
                return Err(Fault::Error(VaultError::AgUsdMismatch));
            },
        }
        if self.usdc.is_none() {
            return Err(Fault::Error(VaultError::NotInitialized));
        }
        match usdc_decimals {
            Err(e) => {
                return Err(Fault::Trap(Trap::Callee(e)));
            },
            Ok(u) => match decimals {
                Ok(d) => if d != u {
                    return Err(Fault::Error(VaultError::DecimalMismatch));
                },
                Err(_) => {
                    return Err(Fault::Error(VaultError::DecimalMismatch));
                },
            },
        }
        self.agusd = Some(agusd_token);
        Ok(
            Receipt {
                value: (),
                effects: Effects::none().keep(Rent::Instance).event(
                    Event::VaultAgUsdRepointed(AgUsdRepointed { agusd: agusd_token }),
                ),
            },
        )
    }

    /// Why `set_engine` is refused, given which vault the engine says it
    /// governs and how much it says it has booked.
    pub open spec fn set_engine_fault(
        self,
        inv: Invocation,
        admin: Address,
        governed: Result<Address, InvokeError>,
        booked: Result<i128, InvokeError>,
    ) -> Option<Fault<VaultError>> {
        if self.admin_fault(inv, admin) is Some {
            self.admin_fault(inv, admin)
        } else if self.deployed > 0 {
            Some(Fault::Error(VaultError::CapitalDeployed))
        } else if governed != Ok::<Address, InvokeError>(inv.contract) || booked != Ok::<
            i128,
            InvokeError,
        >(0) {
            Some(Fault::Error(VaultError::EngineMismatch))
        } else {
            None
        }
    }

    /// What `set_engine` answers, and what it leaves behind.
    pub open spec fn set_engine_step(
        self,
        after: Vault,
        inv: Invocation,
        admin: Address,
        allocation_engine: Address,
        governed: Result<Address, InvokeError>,
        booked: Result<i128, InvokeError>,
        r: Result<Receipt<()>, Fault<VaultError>>,
    ) -> bool {
        match r {
            Ok(d) => {
                &&& self.set_engine_fault(inv, admin, governed, booked) is None
                &&& after == (Vault { engine: Some(allocation_engine), ..self })
                &&& d.gives(
                    (),
                    seq![],
                    seq![Event::EngineRepointed(EngineRepointed { engine: allocation_engine })],
                    seq![Rent::Instance],
                )
            },
            Err(f) => {
                &&& self.set_engine_fault(inv, admin, governed, booked) == Some(f)
                &&& after == self
            },
        }
    }

    /// Points the vault at an engine, while none of its capital is out.
    pub fn set_engine(
        &mut self,
        inv: &Invocation,
        admin: Address,
        allocation_engine: Address,
        governed: Result<Address, InvokeError>,
        booked: Result<i128, InvokeError>,
    ) -> (r: Result<Receipt<()>, Fault<VaultError>>)
        ensures
            old(self).set_engine_step(
                *final(self),
                *inv,
                admin,
                allocation_engine,
                governed,
                booked,
                r,
            ),
            old(self).sound() ==> final(self).sound(),
    {
        match self.require_admin(inv, admin) {
            Ok(_) => {},
            Err(f) => {
                return Err(f);
            },
        }
        if self.deployed > 0 {
            return Err(Fault::Error(VaultError::CapitalDeployed));
        }
        match (governed, booked) {
            (Ok(g), Ok(b)) => if g != inv.contract || b != 0 {
                return Err(Fault::Error(VaultError::EngineMismatch));
            },
            _ => {
                return Err(Fault::Error(VaultError::EngineMismatch));
            },
        }
        self.engine = Some(allocation_engine);
        Ok(
            Receipt {
                value: (),
                effects: Effects::none().keep(Rent::Instance).event(
                    Event::EngineRepointed(EngineRepointed { engine: allocation_engine }),
                ),
            },
        )
    }

    /// What `set_paused` answers, and what it leaves behind.
    pub open spec fn set_paused_step(
        self,
        after: Vault,
        inv: Invocation,
        admin: Address,
        paused: bool,
        r: Result<Receipt<()>, Fault<VaultError>>,
    ) -> bool {
        match r {
            Ok(d) => {
                &&& self.admin_fault(inv, admin) is None
                &&& after == (Vault { paused, ..self })
                &&& d.gives(
                    (),
                    seq![],
                    seq![Event::PauseToggled(PauseToggled { paused })],
                    seq![Rent::Instance],
                )
            },
            Err(f) => {
                &&& self.admin_fault(inv, admin) == Some(f)
                &&& after == self
            },
        }
    }

    /// Switches the circuit breaker. It stops deposits, withdrawal requests
    /// and releases, and never a payout.
    pub fn set_paused(&mut self, inv: &Invocation, admin: Address, paused: bool) -> (r: Result<
        Receipt<()>,
        Fault<VaultError>,
    >)
        ensures
            old(self).set_paused_step(*final(self), *inv, admin, paused, r),
            old(self).sound() ==> final(self).sound(),
    {
        match self.require_admin(inv, admin) {
            Ok(_) => {},
            Err(f) => {
                return Err(f);
            },
        }
        self.paused = paused;
        Ok(
            Receipt {
                value: (),
                effects: Effects::none().keep(Rent::Instance).event(
                    Event::PauseToggled(PauseToggled { paused }),
                ),
            },
        )
    }

    /// Why `deposit` is refused.
    pub open spec fn deposit_fault(self, inv: Invocation, from: Address, amount: i128) -> Option<
        Fault<VaultError>,
    > {
        if self.paused {
            Some(Fault::Error(VaultError::Paused))
        } else if !inv.signed(from) {
            Some(Fault::Trap(Trap::Unauthorized))
        } else if amount <= 0 {
            Some(Fault::Error(VaultError::InvalidAmount))
        } else if self.usdc is None || self.agusd is None {
            Some(Fault::Error(VaultError::NotInitialized))
        } else if self.deposits == u64::MAX || !fits(self.booked + amount) {
            Some(Fault::Trap(Trap::Overflow))
        } else {
            None
        }
    }

    /// The state after a deposit.
    pub open spec fn deposited(self, after: Vault, amount: i128) -> bool {
        after == (Vault {
            deposits: (self.deposits + 1) as u64,
            booked: (self.booked + amount) as i128,
            ..self
        })
    }

    /// What `deposit` answers, and what it leaves behind.
    pub open spec fn deposit_step(
        self,
        after: Vault,
        inv: Invocation,
        from: Address,
        amount: i128,
        r: Result<Receipt<i128>, Fault<VaultError>>,
    ) -> bool {
        match r {
            Ok(d) => {
                &&& self.deposit_fault(inv, from, amount) is None
                &&& self.deposited(after, amount)
                &&& d.gives(
                    amount,
                    seq![
                        Call::Transfer {
                            token: self.usdc->0,
                            from,
                            to: inv.contract,
                            amount,
                        },
                        Call::Mint { token: self.agusd->0, to: from, amount },
                    ],
                    seq![Event::Deposit(Deposit { user: from, amount, minted: amount })],
                    seq![Rent::Instance],
                )
            },
            Err(f) => {
                &&& self.deposit_fault(inv, from, amount) == Some(f)
                &&& after == self
            },
        }
    }

    /// Takes USDC in and mints as much agUSD.
    pub fn deposit(&mut self, inv: &Invocation, from: Address, amount: i128) -> (r: Result<
        Receipt<i128>,
        Fault<VaultError>,
    >)
        ensures
            old(self).deposit_step(*final(self), *inv, from, amount, r),
            old(self).sound() ==> final(self).sound(),
    {
        if self.paused {
            return Err(Fault::Error(VaultError::Paused));
        }
        if !inv.authorized(from) {
            return Err(Fault::Trap(Trap::Unauthorized));
        }
        if amount <= 0 {
            return Err(Fault::Error(VaultError::InvalidAmount));
        }
        let (usdc, agusd): (Address, Address) = match (self.usdc, self.agusd) {
            (Some(u), Some(a)) => (u, a),
            _ => {
                return Err(Fault::Error(VaultError::NotInitialized));
            },
        };
        if self.deposits == u64::MAX {
            return Err(Fault::Trap(Trap::Overflow));
        }
        let booked: i128 = match plus(self.booked, amount) {
            Ok(z) => z,
            Err(t) => {
                return Err(Fault::Trap(t));
            },
        };
        self.deposits = self.deposits + 1;
        self.booked = booked;
        Ok(
            Receipt {
                value: amount,
                effects: Effects::none().call(
                    Call::Transfer { token: usdc, from, to: inv.contract, amount },
                ).call(Call::Mint { token: agusd, to: from, amount }).keep(Rent::Instance).event(
                    Event::Deposit(Deposit { user: from, amount, minted: amount }),
                ),
            },
        )
    }

    /// Why `request_withdrawal` is refused.
    pub open spec fn request_withdrawal_fault(
        self,
        inv: Invocation,
        from: Address,
        amount: i128,
    ) -> Option<Fault<VaultError>> {
        if self.paused {
            Some(Fault::Error(VaultError::Paused))
        } else if !inv.signed(from) {
            Some(Fault::Trap(Trap::Unauthorized))
        } else if amount <= 0 {
            Some(Fault::Error(VaultError::InvalidAmount))
        } else if amount < MIN_WITHDRAWAL {
            Some(Fault::Error(VaultError::BelowMinWithdrawal))
        } else if self.agusd is None {
            Some(Fault::Error(VaultError::NotInitialized))
        } else if self.queue_tail == u64::MAX || !fits(self.queued + amount) || self.queue_head
            > self.queue_tail {
            Some(Fault::Trap(Trap::Overflow))
        } else {
            None
        }
    }

    /// The state after a withdrawal request: one more claim, at the tail.
    pub open spec fn requested(self, after: Vault, owner: Address, amount: i128, at: u64) -> bool {
        &&& after.claims@ == self.claims@.insert(
            self.queue_tail,
            Claim { owner, amount, requested_at: at, claimed: false },
        )
        &&& after == (Vault {
            claims: after.claims,
            queue_tail: (self.queue_tail + 1) as u64,
            queued: larger(self.queued + amount, 0) as i128,
            ..self
        })
    }

    /// What `request_withdrawal` answers, and what it leaves behind.
    pub open spec fn request_withdrawal_step(
        self,
        after: Vault,
        inv: Invocation,
        from: Address,
        amount: i128,
        r: Result<Receipt<u64>, Fault<VaultError>>,
    ) -> bool {
        match r {
            Ok(d) => {
                let claim_id = self.queue_tail;
                &&& self.request_withdrawal_fault(inv, from, amount) is None
                &&& self.requested(after, from, amount, inv.timestamp)
                &&& d.gives(
                    claim_id,
                    seq![Call::Burn { token: self.agusd->0, from, amount }],
                    seq![
                        Event::WithdrawalRequested(
                            WithdrawalRequested {
                                user: from,
                                claim_id,
                                amount,
                                queue_position: (claim_id - self.queue_head) as u64,
                            },
                        ),
                    ],
                    seq![Rent::Claim { id: claim_id }, Rent::Instance],
                )
            },
            Err(f) => {
                &&& self.request_withdrawal_fault(inv, from, amount) == Some(f)
                &&& after == self
            },
        }
    }

    /// Burns agUSD now and joins the withdrawal queue. Returns the claim id.
    pub fn request_withdrawal(&mut self, inv: &Invocation, from: Address, amount: i128) -> (r:
        Result<Receipt<u64>, Fault<VaultError>>)
        ensures
            old(self).request_withdrawal_step(*final(self), *inv, from, amount, r),
            old(self).sound() ==> final(self).sound(),
    {
        if self.paused {
            return Err(Fault::Error(VaultError::Paused));
        }
        if !inv.authorized(from) {
            return Err(Fault::Trap(Trap::Unauthorized));
        }
        if amount <= 0 {
            return Err(Fault::Error(VaultError::InvalidAmount));
        }
        if amount < MIN_WITHDRAWAL {
            return Err(Fault::Error(VaultError::BelowMinWithdrawal));
        }
        let agusd: Address = match self.agusd {
            Some(a) => a,
            None => {
                return Err(Fault::Error(VaultError::NotInitialized));
            },
        };
        let claim_id: u64 = self.queue_tail;
        if claim_id == u64::MAX || self.queue_head > claim_id {
            return Err(Fault::Trap(Trap::Overflow));
        }
        let queued: i128 = match plus(self.queued, amount) {
            Ok(z) => z,
            Err(t) => {
                return Err(Fault::Trap(t));
            },
        };
        let claim = Claim { owner: from, amount, requested_at: inv.timestamp, claimed: false };
        self.claims.set(claim_id, claim);
        self.queue_tail = claim_id + 1;
        self.queued = if queued < 0 {
            0
        } else {
            queued
        };
        proof {
            if old(self).sound() {
                old(self).lemma_requested(*self, from, amount, inv.timestamp);
            }
        }
        Ok(
            Receipt {
                value: claim_id,
                effects: Effects::none().call(Call::Burn { token: agusd, from, amount }).keep(
                    Rent::Claim { id: claim_id },
                ).keep(Rent::Instance).event(
                    Event::WithdrawalRequested(
                        WithdrawalRequested {
                            user: from,
                            claim_id,
                            amount,
                            queue_position: claim_id - self.queue_head,
                        },
                    ),
                ),
            },
        )
    }

    /// Why a claim cannot even be attempted, given the USDC held.
    pub open spec fn payment_fault(self, claim: Claim, held: i128) -> Option<Fault<VaultError>> {
        if self.idle(held) < claim.amount {
            Some(Fault::Error(VaultError::InsufficientLiquidity))
        } else if self.usdc is None {
            Some(Fault::Error(VaultError::NotInitialized))
        } else {
            None
        }
    }

    /// Why `claim_withdrawal` is refused before any payment is attempted.
    pub open spec fn collectable_fault(
        self,
        inv: Invocation,
        from: Address,
        claim_id: u64,
        held: i128,
    ) -> Option<Fault<VaultError>> {
        if !inv.signed(from) {
            Some(Fault::Trap(Trap::Unauthorized))
        } else if !self.claims@.dom().contains(claim_id) {
            Some(Fault::Error(VaultError::ClaimNotFound))
        } else if self.claims@[claim_id].owner != from {
            Some(Fault::Error(VaultError::NotClaimOwner))
        } else if self.claims@[claim_id].claimed {
            Some(Fault::Error(VaultError::AlreadyClaimed))
        } else if claim_id != self.queue_head && !stepped_over(self.deferred@, claim_id) {
            Some(Fault::Error(VaultError::NotAtQueueHead))
        } else {
            self.payment_fault(self.claims@[claim_id], held)
        }
    }

    /// What `collectable` answers, and what it asks for.
    pub open spec fn collectable_step(
        self,
        inv: Invocation,
        from: Address,
        claim_id: u64,
        held: i128,
        r: Result<Call, Fault<VaultError>>,
    ) -> bool {
        match r {
            Ok(pay) => {
                &&& self.collectable_fault(inv, from, claim_id, held) is None
                &&& pay == (Call::Transfer {
                    token: self.usdc->0,
                    from: inv.contract,
                    to: from,
                    amount: self.claims@[claim_id].amount,
                })
            },
            Err(f) => self.collectable_fault(inv, from, claim_id, held) == Some(f),
        }
    }

    /// The payment that `claim_withdrawal` attempts. `held` is what USDC says
    /// the vault holds.
    pub fn collectable(&self, inv: &Invocation, from: Address, claim_id: u64, held: i128) -> (r:
        Result<Call, Fault<VaultError>>)
        ensures
            self.collectable_step(*inv, from, claim_id, held, r),
    {
        if !inv.authorized(from) {
            return Err(Fault::Trap(Trap::Unauthorized));
        }
        let claim: Claim = match self.get_claim(claim_id) {
            Ok(c) => c,
            Err(e) => {
                return Err(Fault::Error(e));
            },
        };
        if claim.owner != from {
            return Err(Fault::Error(VaultError::NotClaimOwner));
        }
        if claim.claimed {
            return Err(Fault::Error(VaultError::AlreadyClaimed));
        }
        if claim_id != self.queue_head && !self.is_deferred(claim_id) {
            return Err(Fault::Error(VaultError::NotAtQueueHead));
        }
        self.payment(inv, claim, held)
    }

    fn payment(&self, inv: &Invocation, claim: Claim, held: i128) -> (r: Result<
        Call,
        Fault<VaultError>,
    >)
        ensures
            match r {
                Ok(pay) => {
                    &&& self.payment_fault(claim, held) is None
                    &&& pay == (Call::Transfer {
                        token: self.usdc->0,
                        from: inv.contract,
                        to: claim.owner,
                        amount: claim.amount,
                    })
                },
                Err(f) => self.payment_fault(claim, held) == Some(f),
            },
    {
        if self.idle_reserves(held) < claim.amount {
            return Err(Fault::Error(VaultError::InsufficientLiquidity));
        }
        match self.usdc {
            Some(token) => Ok(
                Call::Transfer {
                    token,
                    from: inv.contract,
                    to: claim.owner,
                    amount: claim.amount,
                },
            ),
            None => Err(Fault::Error(VaultError::NotInitialized)),
        }
    }

    /// Whether a payment cannot be booked.
    pub open spec fn payout_overflows(self, amount: i128) -> bool {
        !fits(self.queued - amount) || !fits(self.booked - amount)
    }

    /// The state once a claim has been paid, but for the queue pointers.
    pub open spec fn paid(self, after: Vault, claim_id: u64) -> bool {
        let claim = self.claims@[claim_id];
        &&& after.claims@ == self.claims@.insert(claim_id, Claim { claimed: true, ..claim })
        &&& after.queued == larger(self.queued - claim.amount, 0)
        &&& after.booked == self.booked - claim.amount
    }

    fn book_payout(&mut self, claim_id: u64, claim: Claim) -> (r: Result<(), Trap>)
        requires
            old(self).claims@.dom().contains(claim_id),
            old(self).claims@[claim_id] == claim,
        ensures
            match r {
                Ok(_) => {
                    &&& !old(self).payout_overflows(claim.amount)
                    &&& old(self).paid(*final(self), claim_id)
                    &&& *final(self) == (Vault {
                        claims: final(self).claims,
                        queued: final(self).queued,
                        booked: final(self).booked,
                        ..*old(self)
                    })
                },
                Err(t) => {
                    &&& old(self).payout_overflows(claim.amount)
                    &&& t == Trap::Overflow
                    &&& *final(self) == *old(self)
                },
            },
    {
        let queued: i128 = match minus(self.queued, claim.amount) {
            Ok(z) => z,
            Err(t) => {
                return Err(t);
            },
        };
        let booked: i128 = match minus(self.booked, claim.amount) {
            Ok(z) => z,
            Err(t) => {
                return Err(t);
            },
        };
        self.claims.set(
            claim_id,
            Claim {
                owner: claim.owner,
                amount: claim.amount,
                requested_at: claim.requested_at,
                claimed: true,
            },
        );
        self.queued = if queued < 0 {
            0
        } else {
            queued
        };
        self.booked = booked;
        Ok(())
    }

    /// Why `claim_withdrawal` is refused, given whether the token delivered.
    pub open spec fn claim_withdrawal_fault(
        self,
        inv: Invocation,
        from: Address,
        claim_id: u64,
        held: i128,
        delivered: bool,
    ) -> Option<Fault<VaultError>> {
        if self.collectable_fault(inv, from, claim_id, held) is Some {
            self.collectable_fault(inv, from, claim_id, held)
        } else if !delivered {
            Some(Fault::Error(VaultError::PaymentRejected))
        } else if self.payout_overflows(self.claims@[claim_id].amount) || (!stepped_over(
            self.deferred@,
            claim_id,
        ) && claim_id == u64::MAX) {
            Some(Fault::Trap(Trap::Overflow))
        } else {
            None
        }
    }

    /// The state after a claim was collected by its owner: paid, and either no
    /// longer marked as stepped over, or no longer the head.
    pub open spec fn collected(self, after: Vault, claim_id: u64) -> bool {
        let late = stepped_over(self.deferred@, claim_id);
        &&& self.paid(after, claim_id)
        &&& after.deferred@ == (if late {
            self.deferred@.remove(claim_id)
        } else {
            self.deferred@
        })
        &&& after == (Vault {
            claims: after.claims,
            deferred: after.deferred,
            queued: after.queued,
            booked: after.booked,
            queue_head: if late {
                self.queue_head
            } else {
                (claim_id + 1) as u64
            },
            ..self
        })
    }

    /// What `claim_withdrawal` answers, and what it leaves behind.
    pub open spec fn claim_withdrawal_step(
        self,
        after: Vault,
        inv: Invocation,
        from: Address,
        claim_id: u64,
        held: i128,
        delivered: bool,
        r: Result<Receipt<()>, Fault<VaultError>>,
    ) -> bool {
        match r {
            Ok(d) => {
                let amount = self.claims@[claim_id].amount;
                &&& self.claim_withdrawal_fault(inv, from, claim_id, held, delivered)
                    is None
                &&& self.collected(after, claim_id)
                &&& d.gives(
                    (),
                    seq![],
                    seq![
                        Event::WithdrawalClaimed(
                            WithdrawalClaimed { user: from, claim_id, amount },
                        ),
                    ],
                    seq![Rent::Claim { id: claim_id }, Rent::Instance],
                )
                &&& self.sound() ==> self.settled_by(after, held, amount)
            },
            Err(f) => {
                &&& self.claim_withdrawal_fault(inv, from, claim_id, held, delivered)
                    == Some(f)
                &&& after == self
            },
        }
    }

    /// Books the payment of a claim to its owner: the one at the head of the
    /// queue, or one that was stepped over. `held` is what USDC said the vault
    /// held, and `delivered` whether the transfer that
    /// [`Vault::collectable`] names then went through.
    pub fn claim_withdrawal(
        &mut self,
        inv: &Invocation,
        from: Address,
        claim_id: u64,
        held: i128,
        delivered: bool,
    ) -> (r: Result<Receipt<()>, Fault<VaultError>>)
        ensures
            old(self).claim_withdrawal_step(*final(self), *inv, from, claim_id, held, delivered, r),
            old(self).sound() ==> final(self).sound(),
    {
        match self.collectable(inv, from, claim_id, held) {
            Ok(_) => {},
            Err(f) => {
                return Err(f);
            },
        }
        if !delivered {
            return Err(Fault::Error(VaultError::PaymentRejected));
        }
        let claim: Claim = match self.get_claim(claim_id) {
            Ok(c) => c,
            Err(e) => {
                return Err(Fault::Error(e));
            },
        };
        let late: bool = self.is_deferred(claim_id);
        if !late && claim_id == u64::MAX {
            return Err(Fault::Trap(Trap::Overflow));
        }
        match self.book_payout(claim_id, claim) {
            Ok(_) => {},
            Err(t) => {
                return Err(Fault::Trap(t));
            },
        }
        if late {
            self.deferred.remove(claim_id);
        } else {
            self.queue_head = claim_id + 1;
        }
        proof {
            old(self).lemma_paid(*self, claim_id);
        }
        Ok(
            Receipt {
                value: (),
                effects: Effects::none().keep(Rent::Claim { id: claim_id }).keep(
                    Rent::Instance,
                ).event(
                    Event::WithdrawalClaimed(
                        WithdrawalClaimed { user: claim.owner, claim_id, amount: claim.amount },
                    ),
                ),
            },
        )
    }

    /// What paying a claim of `amount` out of a balance of `held` leaves
    /// alone: free reserves, the floor base, and the cover of the books.
    pub open spec fn settled_by(self, after: Vault, held: i128, amount: i128) -> bool {
        &&& after.queued == self.queued - amount
        &&& after.idle((held - amount) as i128) == self.idle(held) - amount
        &&& after.free((held - amount) as i128) == self.free(held)
        &&& after.base((held - amount) as i128) == self.base(held)
        &&& self.backed(held) ==> after.backed((held - amount) as i128)
    }

    /// A sound vault stays sound when a claim joins the queue.
    pub proof fn lemma_requested(self, after: Vault, owner: Address, amount: i128, at: u64)
        requires
            self.sound(),
            amount >= MIN_WITHDRAWAL,
            self.queue_tail < u64::MAX,
            fits(self.queued + amount),
            self.requested(after, owner, amount, at),
        ensures
            after.sound(),
            after.queued == self.queued + amount,
    {
        let claim_id = self.queue_tail;
        let claim = Claim { owner, amount, requested_at: at, claimed: false };
        self.claims.finite();
        self.queued_is_not_negative();
        lemma_unpaid_insert(self.claims@, claim_id, claim);
        assert(!self.claims@.dom().contains(claim_id));
        assert forall|id: u64| #[trigger] after.claims@.dom().contains(id) implies after.claims@[id].amount
            >= MIN_WITHDRAWAL by {
            assert(id != claim_id ==> self.claims@.dom().contains(id));
        }
        assert forall|id: u64| after.queue_head <= id < after.queue_tail implies !(
        #[trigger] after.claims@[id]).claimed by {
            assert(id != claim_id ==> !self.claims@[id].claimed);
        }
        assert forall|id: u64| 1 <= id < after.queue_head implies (
        #[trigger] after.claims@[id]).claimed || stepped_over(after.deferred@, id) by {
            assert(self.claims@[id].claimed || stepped_over(self.deferred@, id));
        }
    }

    /// A sound vault stays sound when the head of the queue is stepped over.
    pub proof fn lemma_deferred_head(self, after: Vault)
        requires
            self.sound(),
            self.queue_head < self.queue_tail,
            self.deferred_head(after),
        ensures
            after.sound(),
    {
        let claim_id = self.queue_head;
        assert forall|id: u64| 1 <= id < after.queue_head implies (
        #[trigger] after.claims@[id]).claimed || stepped_over(after.deferred@, id) by {
            if id != claim_id {
                assert(self.claims@[id].claimed || stepped_over(self.deferred@, id));
            }
        }
        assert forall|id: u64| #[trigger] stepped_over(after.deferred@, id) implies 1 <= id
            < after.queue_head && !after.claims@[id].claimed by {
            if id != claim_id {
                assert(stepped_over(self.deferred@, id));
            }
        }
    }

    /// A sound vault stays sound when the claim at the head, or one stepped
    /// over, is paid.
    pub proof fn lemma_paid(self, after: Vault, claim_id: u64)
        requires
            self.claims@.dom().contains(claim_id),
            !self.claims@[claim_id].claimed,
            self.collected(after, claim_id),
            claim_id == self.queue_head || stepped_over(self.deferred@, claim_id),
            stepped_over(self.deferred@, claim_id) || claim_id < u64::MAX,
        ensures
            self.sound() ==> after.sound() && after.queued == self.queued
                - self.claims@[claim_id].amount,
    {
        if self.sound() {
            let claim = self.claims@[claim_id];
            self.claims.finite();
            lemma_unpaid_insert(self.claims@, claim_id, Claim { claimed: true, ..claim });
            assert forall|i: u64| #[trigger] self.claims@.dom().contains(i) implies self.claims@[i].amount
                >= 0 by {}
            lemma_unpaid_covers(self.claims@, claim_id);
            assert forall|id: u64| #[trigger]
                after.claims@.dom().contains(id) <==> 1 <= id < after.queue_tail by {
                assert(self.claims@.dom().contains(id) <==> 1 <= id < self.queue_tail);
            }
            assert forall|id: u64| #[trigger]
                after.claims@.dom().contains(id) implies after.claims@[id].amount
                >= MIN_WITHDRAWAL by {
                assert(self.claims@.dom().contains(id));
            }
            assert forall|id: u64| after.queue_head <= id < after.queue_tail implies !(
            #[trigger] after.claims@[id]).claimed by {
                assert(!self.claims@[id].claimed);
                assert(id != claim_id);
            }
            assert forall|id: u64| 1 <= id < after.queue_head implies (
            #[trigger] after.claims@[id]).claimed || stepped_over(after.deferred@, id) by {
                if id != claim_id {
                    assert(id < self.queue_head);
                    assert(self.claims@[id].claimed || stepped_over(self.deferred@, id));
                }
            }
            assert forall|id: u64| #[trigger] stepped_over(after.deferred@, id) implies 1 <= id
                < after.queue_head && !after.claims@[id].claimed by {
                assert(stepped_over(self.deferred@, id));
                assert(id != claim_id);
            }
        }
    }

    /// Why `settle_withdrawal` is refused before any payment is attempted.
    pub open spec fn next_due_fault(self, held: i128) -> Option<Fault<VaultError>> {
        let claim_id = self.queue_head;
        if claim_id >= self.queue_tail {
            Some(Fault::Error(VaultError::QueueEmpty))
        } else if !self.claims@.dom().contains(claim_id) {
            Some(Fault::Error(VaultError::ClaimNotFound))
        } else if self.claims@[claim_id].claimed {
            Some(Fault::Error(VaultError::AlreadyClaimed))
        } else {
            self.payment_fault(self.claims@[claim_id], held)
        }
    }

    /// What `next_due` answers, and what it asks for.
    pub open spec fn next_due_step(
        self,
        inv: Invocation,
        held: i128,
        r: Result<Call, Fault<VaultError>>,
    ) -> bool {
        match r {
            Ok(pay) => {
                &&& self.next_due_fault(held) is None
                &&& pay == (Call::Transfer {
                    token: self.usdc->0,
                    from: inv.contract,
                    to: self.claims@[self.queue_head].owner,
                    amount: self.claims@[self.queue_head].amount,
                })
            },
            Err(f) => self.next_due_fault(held) == Some(f),
        }
    }

    /// The payment that `settle_withdrawal` attempts: the claim at the head,
    /// to the owner on record. The caller chooses neither.
    pub fn next_due(&self, inv: &Invocation, held: i128) -> (r: Result<Call, Fault<VaultError>>)
        ensures
            self.next_due_step(*inv, held, r),
    {
        let claim_id: u64 = self.queue_head;
        if claim_id >= self.queue_tail {
            return Err(Fault::Error(VaultError::QueueEmpty));
        }
        let claim: Claim = match self.get_claim(claim_id) {
            Ok(c) => c,
            Err(e) => {
                return Err(Fault::Error(e));
            },
        };
        if claim.claimed {
            return Err(Fault::Error(VaultError::AlreadyClaimed));
        }
        self.payment(inv, claim, held)
    }

    /// Why `settle_withdrawal` is refused, given whether the token delivered.
    pub open spec fn settle_withdrawal_fault(self, held: i128, delivered: bool) -> Option<
        Fault<VaultError>,
    > {
        if self.next_due_fault(held) is Some {
            self.next_due_fault(held)
        } else if delivered && self.payout_overflows(self.claims@[self.queue_head].amount) {
            Some(Fault::Trap(Trap::Overflow))
        } else {
            None
        }
    }

    /// The state after the head of the queue was paid.
    pub open spec fn settled(self, after: Vault) -> bool {
        &&& self.paid(after, self.queue_head)
        &&& after == (Vault {
            claims: after.claims,
            queued: after.queued,
            booked: after.booked,
            queue_head: (self.queue_head + 1) as u64,
            ..self
        })
    }

    /// The state after the head of the queue was stepped over.
    pub open spec fn deferred_head(self, after: Vault) -> bool {
        &&& after.deferred@ == self.deferred@.insert(self.queue_head, true)
        &&& after == (Vault {
            deferred: after.deferred,
            queue_head: (self.queue_head + 1) as u64,
            ..self
        })
    }

    /// What `settle_withdrawal` answers, and what it leaves behind.
    pub open spec fn settle_withdrawal_step(
        self,
        after: Vault,
        inv: Invocation,
        held: i128,
        delivered: bool,
        r: Result<Receipt<u64>, Fault<VaultError>>,
    ) -> bool {
        match r {
            Ok(d) => {
                let claim_id = self.queue_head;
                let user = self.claims@[claim_id].owner;
                let amount = self.claims@[claim_id].amount;
                &&& self.settle_withdrawal_fault(held, delivered) is None
                &&& delivered ==> {
                    &&& self.settled(after)
                    &&& d.gives(
                        claim_id,
                        seq![],
                        seq![
                            Event::WithdrawalClaimed(
                                WithdrawalClaimed { user, claim_id, amount },
                            ),
                        ],
                        seq![Rent::Claim { id: claim_id }, Rent::Instance],
                    )
                    &&& self.sound() ==> self.settled_by(after, held, amount)
                }
                &&& !delivered ==> {
                    &&& self.deferred_head(after)
                    &&& d.gives(
                        claim_id,
                        seq![],
                        seq![
                            Event::WithdrawalDeferred(
                                WithdrawalDeferred { user, claim_id, amount },
                            ),
                        ],
                        seq![
                            Rent::Claim { id: claim_id },
                            Rent::Deferred { id: claim_id },
                            Rent::Instance,
                        ],
                    )
                }
            },
            Err(f) => {
                &&& self.settle_withdrawal_fault(held, delivered) == Some(f)
                &&& after == self
            },
        }
    }

    /// Advances the queue past its head, on anybody's call: books the payment
    /// if the token delivered it, and otherwise steps over the claim, unpaid
    /// and still owed. Returns the claim id.
    pub fn settle_withdrawal(&mut self, inv: &Invocation, held: i128, delivered: bool) -> (r:
        Result<Receipt<u64>, Fault<VaultError>>)
        ensures
            old(self).settle_withdrawal_step(*final(self), *inv, held, delivered, r),
            old(self).sound() ==> final(self).sound(),
    {
        match self.next_due(inv, held) {
            Ok(_) => {},
            Err(f) => {
                return Err(f);
            },
        }
        let claim_id: u64 = self.queue_head;
        let claim: Claim = match self.get_claim(claim_id) {
            Ok(c) => c,
            Err(e) => {
                return Err(Fault::Error(e));
            },
        };
        if delivered {
            match self.book_payout(claim_id, claim) {
                Ok(_) => {},
                Err(t) => {
                    return Err(Fault::Trap(t));
                },
            }
            self.queue_head = claim_id + 1;
            proof {
                if old(self).sound() {
                    assert(!stepped_over(old(self).deferred@, claim_id));
                    old(self).lemma_paid(*self, claim_id);
                }
            }
            Ok(
                Receipt {
                    value: claim_id,
                    effects: Effects::none().keep(Rent::Claim { id: claim_id }).keep(
                        Rent::Instance,
                    ).event(
                        Event::WithdrawalClaimed(
                            WithdrawalClaimed {
                                user: claim.owner,
                                claim_id,
                                amount: claim.amount,
                            },
                        ),
                    ),
                },
            )
        } else {
            self.deferred.set(claim_id, true);
            self.queue_head = claim_id + 1;
            proof {
                if old(self).sound() {
                    old(self).lemma_deferred_head(*self);
                }
            }
            Ok(
                Receipt {
                    value: claim_id,
                    effects: Effects::none().keep(Rent::Claim { id: claim_id }).keep(
                        Rent::Deferred { id: claim_id },
                    ).keep(Rent::Instance).event(
                        Event::WithdrawalDeferred(
                            WithdrawalDeferred {
                                user: claim.owner,
                                claim_id,
                                amount: claim.amount,
                            },
                        ),
                    ),
                },
            )
        }
    }

    /// Whether the arithmetic of a release leaves the 128-bit range.
    pub open spec fn release_overflows(self, held: i128, amount: i128) -> bool {
        let free_after = self.free(held) - amount;
        let deployed_after = self.deployed + amount;
        let base = free_after + deployed_after + self.written_off;
        ||| !fits(deployed_after)
        ||| !fits(free_after + deployed_after)
        ||| !fits(base)
        ||| !fits(free_after * BPS)
        ||| !fits(self.floor_bps * base)
    }

    /// Why `settle_allocation` is refused, given the USDC held.
    pub open spec fn settle_allocation_fault(
        self,
        inv: Invocation,
        amount: i128,
        held: i128,
    ) -> Option<Fault<VaultError>> {
        let free_after = self.free(held) - amount;
        let base = free_after + self.deployed + amount + self.written_off;
        if self.engine_fault(inv) is Some {
            self.engine_fault(inv)
        } else if self.paused {
            Some(Fault::Error(VaultError::Paused))
        } else if amount <= 0 {
            Some(Fault::Error(VaultError::InvalidAmount))
        } else if !fits(self.idle(held) - self.queued) {
            Some(Fault::Trap(Trap::Overflow))
        } else if free_after < 0 {
            Some(Fault::Error(VaultError::InsufficientLiquidity))
        } else if self.release_overflows(held, amount) {
            Some(Fault::Trap(Trap::Overflow))
        } else if free_after * BPS < self.floor_bps * base {
            Some(Fault::Error(VaultError::ReserveFloorBreached))
        } else if self.usdc is None {
            Some(Fault::Error(VaultError::NotInitialized))
        } else if !fits(self.booked - amount) {
            Some(Fault::Trap(Trap::Overflow))
        } else {
            None
        }
    }

    /// The state after a release.
    pub open spec fn released(self, after: Vault, amount: i128) -> bool {
        after == (Vault {
            deployed: (self.deployed + amount) as i128,
            booked: (self.booked - amount) as i128,
            ..self
        })
    }

    /// What `settle_allocation` answers, and what it leaves behind.
    pub open spec fn settle_allocation_step(
        self,
        after: Vault,
        inv: Invocation,
        pool: Address,
        amount: i128,
        held: i128,
        r: Result<Receipt<()>, Fault<VaultError>>,
    ) -> bool {
        match r {
            Ok(d) => {
                let left = (held - amount) as i128;
                &&& self.settle_allocation_fault(inv, amount, held) is None
                &&& self.released(after, amount)
                &&& d.gives(
                    (),
                    seq![
                        Call::Transfer {
                            token: self.usdc->0,
                            from: inv.contract,
                            to: pool,
                            amount,
                        },
                    ],
                    seq![],
                    seq![Rent::Instance],
                )
                &&& self.queued >= 0 ==> {
                    &&& after.idle(left) == self.idle(held) - amount
                    &&& after.free(left) == self.free(held) - amount
                    &&& after.base(left) == self.base(held)
                    &&& after.floor_stands(left)
                    &&& self.backed(held) ==> after.backed(left)
                }
            },
            Err(f) => {
                &&& self.settle_allocation_fault(inv, amount, held) == Some(f)
                &&& after == self
            },
        }
    }

    /// Releases USDC to a pool on the engine's authorization, if the vault's
    /// own floor and the queue allow it. `held` is what USDC says the vault
    /// holds.
    pub fn settle_allocation(&mut self, inv: &Invocation, pool: Address, amount: i128, held: i128)
        -> (r: Result<Receipt<()>, Fault<VaultError>>)
        ensures
            old(self).settle_allocation_step(*final(self), *inv, pool, amount, held, r),
            old(self).sound() ==> final(self).sound(),
    {
        match self.require_engine(inv) {
            Ok(_) => {},
            Err(f) => {
                return Err(f);
            },
        }
        if self.paused {
            return Err(Fault::Error(VaultError::Paused));
        }
        if amount <= 0 {
            return Err(Fault::Error(VaultError::InvalidAmount));
        }
        let free: i128 = match self.free_reserves(held) {
            Ok(z) => z,
            Err(t) => {
                return Err(Fault::Trap(t));
            },
        };
        let free_after: i128 = free - amount;
        if free_after < 0 {
            return Err(Fault::Error(VaultError::InsufficientLiquidity));
        }
        let deployed_after: i128 = match plus(self.deployed, amount) {
            Ok(z) => z,
            Err(t) => {
                return Err(Fault::Trap(t));
            },
        };
        let net_after: i128 = match plus(free_after, deployed_after) {
            Ok(z) => z,
            Err(t) => {
                return Err(Fault::Trap(t));
            },
        };
        let base: i128 = match plus(net_after, self.written_off) {
            Ok(z) => z,
            Err(t) => {
                return Err(Fault::Trap(t));
            },
        };
        let kept: i128 = match times(free_after, BPS) {
            Ok(z) => z,
            Err(t) => {
                return Err(Fault::Trap(t));
            },
        };
        let wanted: i128 = match times(self.floor_bps as i128, base) {
            Ok(z) => z,
            Err(t) => {
                return Err(Fault::Trap(t));
            },
        };
        if kept < wanted {
            return Err(Fault::Error(VaultError::ReserveFloorBreached));
        }
        let usdc: Address = match self.usdc {
            Some(u) => u,
            None => {
                return Err(Fault::Error(VaultError::NotInitialized));
            },
        };
        let booked: i128 = match minus(self.booked, amount) {
            Ok(z) => z,
            Err(t) => {
                return Err(Fault::Trap(t));
            },
        };
        self.deployed = deployed_after;
        self.booked = booked;
        assert(self.floor_bps * 0 == 0) by (nonlinear_arith);
        Ok(
            Receipt {
                value: (),
                effects: Effects::none().call(
                    Call::Transfer { token: usdc, from: inv.contract, to: pool, amount },
                ).keep(Rent::Instance),
            },
        )
    }

    /// Why `record_repayment` is refused, given the USDC held.
    pub open spec fn record_repayment_fault(self, inv: Invocation, amount: i128, held: i128)
        -> Option<Fault<VaultError>> {
        if self.engine_fault(inv) is Some {
            self.engine_fault(inv)
        } else if amount <= 0 {
            Some(Fault::Error(VaultError::InvalidAmount))
        } else if amount > self.deployed {
            Some(Fault::Error(VaultError::DeployedUnderflow))
        } else if !fits(self.idle(held) - self.booked) {
            Some(Fault::Trap(Trap::Overflow))
        } else if amount > self.idle(held) - self.booked {
            Some(Fault::Error(VaultError::RepaymentNotReceived))
        } else if !fits(self.booked + amount) {
            Some(Fault::Trap(Trap::Overflow))
        } else {
            None
        }
    }

    /// The state after a repayment.
    pub open spec fn repaid(self, after: Vault, amount: i128) -> bool {
        after == (Vault {
            deployed: (self.deployed - amount) as i128,
            booked: (self.booked + amount) as i128,
            ..self
        })
    }

    /// What `record_repayment` answers, and what it leaves behind.
    pub open spec fn record_repayment_step(
        self,
        after: Vault,
        inv: Invocation,
        amount: i128,
        held: i128,
        r: Result<Receipt<()>, Fault<VaultError>>,
    ) -> bool {
        match r {
            Ok(d) => {
                let deployed = (self.deployed - amount) as i128;
                let before = (held - amount) as i128;
                &&& self.record_repayment_fault(inv, amount, held) is None
                &&& self.repaid(after, amount)
                &&& d.gives(
                    (),
                    seq![],
                    seq![Event::RepaymentRecorded(RepaymentRecorded { amount, deployed })],
                    seq![Rent::Instance],
                )
                &&& after.backed(held)
                &&& fits(held - amount) && self.usdc is Some ==> after.base(held)
                    == self.base(before)
            },
            Err(f) => {
                &&& self.record_repayment_fault(inv, amount, held) == Some(f)
                &&& after == self
            },
        }
    }

    /// Takes capital that has come back off the deployed book, if the cash can
    /// be seen in the vault's own balance.
    pub fn record_repayment(&mut self, inv: &Invocation, amount: i128, held: i128) -> (r: Result<
        Receipt<()>,
        Fault<VaultError>,
    >)
        ensures
            old(self).record_repayment_step(*final(self), *inv, amount, held, r),
            old(self).sound() ==> final(self).sound(),
    {
        match self.require_engine(inv) {
            Ok(_) => {},
            Err(f) => {
                return Err(f);
            },
        }
        if amount <= 0 {
            return Err(Fault::Error(VaultError::InvalidAmount));
        }
        if amount > self.deployed {
            return Err(Fault::Error(VaultError::DeployedUnderflow));
        }
        let unaccounted: i128 = match minus(self.idle_reserves(held), self.booked) {
            Ok(z) => z,
            Err(t) => {
                return Err(Fault::Trap(t));
            },
        };
        if amount > unaccounted {
            return Err(Fault::Error(VaultError::RepaymentNotReceived));
        }
        let booked: i128 = match plus(self.booked, amount) {
            Ok(z) => z,
            Err(t) => {
                return Err(Fault::Trap(t));
            },
        };
        self.deployed = self.deployed - amount;
        self.booked = booked;
        Ok(
            Receipt {
                value: (),
                effects: Effects::none().keep(Rent::Instance).event(
                    Event::RepaymentRecorded(
                        RepaymentRecorded { amount, deployed: self.deployed },
                    ),
                ),
            },
        )
    }

    /// Why `record_writedown` is refused.
    pub open spec fn record_writedown_fault(self, inv: Invocation, admin: Address, amount: i128)
        -> Option<Fault<VaultError>> {
        if self.engine_fault(inv) is Some {
            self.engine_fault(inv)
        } else if self.admin_fault(inv, admin) is Some {
            self.admin_fault(inv, admin)
        } else if amount <= 0 {
            Some(Fault::Error(VaultError::InvalidAmount))
        } else if amount > self.deployed {
            Some(Fault::Error(VaultError::DeployedUnderflow))
        } else if !fits(self.written_off + amount) {
            Some(Fault::Trap(Trap::Overflow))
        } else {
            None
        }
    }

    /// The state after a write-down.
    pub open spec fn wrote_down(self, after: Vault, amount: i128) -> bool {
        after == (Vault {
            deployed: (self.deployed - amount) as i128,
            written_off: (self.written_off + amount) as i128,
            ..self
        })
    }

    /// What `record_writedown` answers, and what it leaves behind.
    pub open spec fn record_writedown_step(
        self,
        after: Vault,
        inv: Invocation,
        admin: Address,
        amount: i128,
        r: Result<Receipt<()>, Fault<VaultError>>,
    ) -> bool {
        match r {
            Ok(d) => {
                let deployed = (self.deployed - amount) as i128;
                let recognised_losses = (self.written_off + amount) as i128;
                &&& self.record_writedown_fault(inv, admin, amount) is None
                &&& self.wrote_down(after, amount)
                &&& d.gives(
                    (),
                    seq![],
                    seq![
                        Event::WriteDownRecorded(
                            WriteDownRecorded { amount, deployed, recognised_losses },
                        ),
                    ],
                    seq![Rent::Instance],
                )
                &&& forall|held: i128| #[trigger]
                    after.base(held) == self.base(held)
            },
            Err(f) => {
                &&& self.record_writedown_fault(inv, admin, amount) == Some(f)
                &&& after == self
            },
        }
    }

    /// Recognises that deployed capital is not coming back. Takes both the
    /// engine's and the admin's authorization, and moves nothing that the
    /// floor is measured on: what leaves the deployed book joins the losses.
    pub fn record_writedown(&mut self, inv: &Invocation, admin: Address, amount: i128) -> (r:
        Result<Receipt<()>, Fault<VaultError>>)
        ensures
            old(self).record_writedown_step(*final(self), *inv, admin, amount, r),
            old(self).sound() ==> final(self).sound(),
    {
        match self.require_engine(inv) {
            Ok(_) => {},
            Err(f) => {
                return Err(f);
            },
        }
        match self.require_admin(inv, admin) {
            Ok(_) => {},
            Err(f) => {
                return Err(f);
            },
        }
        if amount <= 0 {
            return Err(Fault::Error(VaultError::InvalidAmount));
        }
        if amount > self.deployed {
            return Err(Fault::Error(VaultError::DeployedUnderflow));
        }
        let losses: i128 = match plus(self.written_off, amount) {
            Ok(z) => z,
            Err(t) => {
                return Err(Fault::Trap(t));
            },
        };
        self.deployed = self.deployed - amount;
        self.written_off = losses;
        Ok(
            Receipt {
                value: (),
                effects: Effects::none().keep(Rent::Instance).event(
                    Event::WriteDownRecorded(
                        WriteDownRecorded {
                            amount,
                            deployed: self.deployed,
                            recognised_losses: losses,
                        },
                    ),
                ),
            },
        )
    }

    /// How much of a recovery goes against losses on record.
    pub open spec fn applied(self, amount: i128) -> int {
        smaller(amount as int, self.written_off as int)
    }

    /// Why `record_recovery` is refused, given the USDC held.
    pub open spec fn record_recovery_fault(
        self,
        inv: Invocation,
        admin: Address,
        amount: i128,
        held: i128,
    ) -> Option<Fault<VaultError>> {
        if self.engine_fault(inv) is Some {
            self.engine_fault(inv)
        } else if self.admin_fault(inv, admin) is Some {
            self.admin_fault(inv, admin)
        } else if amount <= 0 {
            Some(Fault::Error(VaultError::InvalidAmount))
        } else if !fits(self.idle(held) - self.booked) {
            Some(Fault::Trap(Trap::Overflow))
        } else if amount > self.idle(held) - self.booked {
            Some(Fault::Error(VaultError::RecoveryNotReceived))
        } else if !fits(self.booked + amount) {
            Some(Fault::Trap(Trap::Overflow))
        } else {
            None
        }
    }

    /// The state after a recovery.
    pub open spec fn recouped(self, after: Vault, amount: i128) -> bool {
        after == (Vault {
            written_off: (self.written_off - self.applied(amount)) as i128,
            booked: (self.booked + amount) as i128,
            ..self
        })
    }

    /// What `record_recovery` answers, and what it leaves behind.
    pub open spec fn record_recovery_step(
        self,
        after: Vault,
        inv: Invocation,
        admin: Address,
        amount: i128,
        held: i128,
        r: Result<Receipt<()>, Fault<VaultError>>,
    ) -> bool {
        match r {
            Ok(d) => {
                let applied = self.applied(amount) as i128;
                let recognised_losses = (self.written_off - applied) as i128;
                let before = (held - amount) as i128;
                &&& self.record_recovery_fault(inv, admin, amount, held) is None
                &&& self.recouped(after, amount)
                &&& d.gives(
                    (),
                    seq![],
                    seq![
                        Event::RecoveryRecorded(
                            RecoveryRecorded {
                                amount,
                                applied_to_losses: applied,
                                recognised_losses,
                            },
                        ),
                    ],
                    seq![Rent::Instance],
                )
                &&& after.backed(held)
                &&& fits(held - amount) && self.usdc is Some ==> {
                    &&& after.base(held) >= self.base(before)
                    &&& amount <= self.written_off ==> after.base(held) == self.base(before)
                }
            },
            Err(f) => {
                &&& self.record_recovery_fault(inv, admin, amount, held) == Some(f)
                &&& after == self
            },
        }
    }

    /// Books capital that had been written off and has come back. Releases
    /// losses only against cash that can be seen in the vault's own balance.
    pub fn record_recovery(&mut self, inv: &Invocation, admin: Address, amount: i128, held: i128)
        -> (r: Result<Receipt<()>, Fault<VaultError>>)
        ensures
            old(self).record_recovery_step(*final(self), *inv, admin, amount, held, r),
            old(self).sound() ==> final(self).sound(),
    {
        match self.require_engine(inv) {
            Ok(_) => {},
            Err(f) => {
                return Err(f);
            },
        }
        match self.require_admin(inv, admin) {
            Ok(_) => {},
            Err(f) => {
                return Err(f);
            },
        }
        if amount <= 0 {
            return Err(Fault::Error(VaultError::InvalidAmount));
        }
        let unaccounted: i128 = match minus(self.idle_reserves(held), self.booked) {
            Ok(z) => z,
            Err(t) => {
                return Err(Fault::Trap(t));
            },
        };
        if amount > unaccounted {
            return Err(Fault::Error(VaultError::RecoveryNotReceived));
        }
        let booked: i128 = match plus(self.booked, amount) {
            Ok(z) => z,
            Err(t) => {
                return Err(Fault::Trap(t));
            },
        };
        let losses: i128 = self.written_off;
        let applied: i128 = if amount < losses {
            amount
        } else {
            losses
        };
        self.written_off = losses - applied;
        self.booked = booked;
        Ok(
            Receipt {
                value: (),
                effects: Effects::none().keep(Rent::Instance).event(
                    Event::RecoveryRecorded(
                        RecoveryRecorded {
                            amount,
                            applied_to_losses: applied,
                            recognised_losses: losses - applied,
                        },
                    ),
                ),
            },
        )
    }

    /// What `bump_claim` answers, and what it asks for.
    pub open spec fn bump_claim_step(
        self,
        claim_id: u64,
        r: Result<Receipt<()>, Fault<VaultError>>,
    ) -> bool {
        match r {
            Ok(d) => {
                &&& self.claims@.dom().contains(claim_id)
                &&& d.gives(
                    (),
                    seq![],
                    seq![],
                    if stepped_over(self.deferred@, claim_id) {
                        seq![Rent::Claim { id: claim_id }, Rent::Deferred { id: claim_id }]
                    } else {
                        seq![Rent::Claim { id: claim_id }]
                    },
                )
            },
            Err(f) => {
                &&& !self.claims@.dom().contains(claim_id)
                &&& f == Fault::Error(VaultError::ClaimNotFound)
            },
        }
    }

    /// Postpones the archival of a claim. Anyone may.
    pub fn bump_claim(&self, claim_id: u64) -> (r: Result<Receipt<()>, Fault<VaultError>>)
        ensures
            self.bump_claim_step(claim_id, r),
    {
        match self.get_claim(claim_id) {
            Ok(_) => {},
            Err(e) => {
                return Err(Fault::Error(e));
            },
        }
        let mut effects = Effects::none().keep(Rent::Claim { id: claim_id });
        if self.is_deferred(claim_id) {
            effects = effects.keep(Rent::Deferred { id: claim_id });
        }
        Ok(Receipt { value: (), effects })
    }

    /// What `propose_admin` answers, and what it leaves behind.
    pub open spec fn propose_admin_step(
        self,
        after: Vault,
        inv: Invocation,
        admin: Address,
        new_admin: Address,
        r: Result<Receipt<()>, Fault<VaultError>>,
    ) -> bool {
        match r {
            Ok(d) => {
                &&& self.role.require_refusal(inv, admin) is None
                &&& after == (Vault {
                    role: self.role.proposed(new_admin),
                    ..self
                })
                &&& d.gives(
                    (),
                    seq![],
                    seq![Event::VaultAdminProposed(AdminProposed { new_admin })],
                    seq![Rent::Instance],
                )
            },
            Err(f) => {
                &&& self.role.require_refusal(inv, admin) is Some
                &&& f == Vault::denial(self.role.require_refusal(inv, admin)->0)
                &&& after == self
            },
        }
    }

    /// Offers the admin role to another address. Replaces any earlier offer.
    pub fn propose_admin(&mut self, inv: &Invocation, admin: Address, new_admin: Address) -> (r:
        Result<Receipt<()>, Fault<VaultError>>)
        ensures
            old(self).propose_admin_step(*final(self), *inv, admin, new_admin, r),
            old(self).sound() ==> final(self).sound(),
    {
        match self.role.require(inv, admin) {
            Ok(_) => {},
            Err(e) => {
                return Err(Vault::deny(e));
            },
        }
        self.role.pending = Some(new_admin);
        Ok(
            Receipt {
                value: (),
                effects: Effects::none().keep(Rent::Instance).event(
                    Event::VaultAdminProposed(AdminProposed { new_admin }),
                ),
            },
        )
    }

    /// What `accept_admin` answers, and what it leaves behind.
    pub open spec fn accept_admin_step(
        self,
        after: Vault,
        inv: Invocation,
        new_admin: Address,
        r: Result<Receipt<()>, Fault<VaultError>>,
    ) -> bool {
        match r {
            Ok(d) => {
                &&& self.role.accept_refusal(inv, new_admin) is None
                &&& after == (Vault {
                    role: self.role.accepted(new_admin),
                    ..self
                })
                &&& d.gives(
                    (),
                    seq![],
                    seq![Event::VaultAdminChanged(AdminChanged { admin: new_admin })],
                    seq![Rent::Instance],
                )
            },
            Err(f) => {
                &&& self.role.accept_refusal(inv, new_admin) is Some
                &&& f == Vault::denial(self.role.accept_refusal(inv, new_admin)->0)
                &&& after == self
            },
        }
    }

    /// Takes the offered admin role over.
    pub fn accept_admin(&mut self, inv: &Invocation, new_admin: Address) -> (r: Result<
        Receipt<()>,
        Fault<VaultError>,
    >)
        ensures
            old(self).accept_admin_step(*final(self), *inv, new_admin, r),
            old(self).sound() ==> final(self).sound(),
    {
        match self.role.require_pending(inv, new_admin) {
            Ok(_) => {},
            Err(e) => {
                return Err(Vault::deny(e));
            },
        }
        self.role.admin = Some(new_admin);
        self.role.pending = None;
        Ok(
            Receipt {
                value: (),
                effects: Effects::none().keep(Rent::Instance).event(
                    Event::VaultAdminChanged(AdminChanged { admin: new_admin }),
                ),
            },
        )
    }

    /// The address that has been offered the role and has not accepted yet.
    pub fn pending_admin(&self) -> (a: Option<Address>)
        ensures
            a == self.role.pending,
    {
        self.role.pending
    }

    // ---- views ----

    /// USDC held by the vault, gross. `held` is the token's answer.
    pub fn idle_reserves(&self, held: i128) -> (n: i128)
        ensures
            n == self.idle(held),
    {
        match self.usdc {
            Some(_) => held,
            None => 0,
        }
    }

    /// USDC owed to claims that have not been paid.
    pub fn outstanding_liabilities(&self) -> (n: i128)
        ensures
            n == self.queued,
    {
        self.queued
    }

    /// What `free_reserves` answers.
    pub open spec fn free_reserves_answer(
        self,
        held: i128,
    ) -> Result<i128, Trap> {
        if fits(self.idle(held) - self.queued) {
            Ok::<i128, Trap>(self.free(held) as i128)
        } else {
            Err(Trap::Overflow)
        }
    }

    /// Idle reserves less what the queue is owed, never negative.
    pub fn free_reserves(&self, held: i128) -> (r: Result<i128, Trap>)
        ensures
            r == self.free_reserves_answer(held),
    {
        match minus(self.idle_reserves(held), self.queued) {
            Ok(free) => Ok(
                if free < 0 {
                    0
                } else {
                    free
                },
            ),
            Err(t) => Err(t),
        }
    }

    /// USDC released to pools and not seen back, on the vault's own record.
    pub fn deployed_capital(&self) -> (n: i128)
        ensures
            n == self.deployed,
    {
        self.deployed
    }

    /// The idle balance that the vault's own flows account for.
    pub fn booked_reserves(&self) -> (n: i128)
        ensures
            n == self.booked,
    {
        self.booked
    }

    /// The share of the base that the vault will not release, in bps.
    pub fn reserve_floor_bps(&self) -> (n: u32)
        ensures
            n == self.floor_bps,
    {
        self.floor_bps
    }

    /// What `get_total_assets` answers.
    pub open spec fn get_total_assets_answer(
        self,
        held: i128,
    ) -> Result<i128, Fault<VaultError>> {
        if self.engine is None {
            Err::<i128, Fault<VaultError>>(Fault::Error(VaultError::NotInitialized))
        } else if fits(self.idle(held) + self.deployed) {
            Ok((self.idle(held) + self.deployed) as i128)
        } else {
            Err(Fault::Trap(Trap::Overflow))
        }
    }

    /// Idle reserves plus deployed capital.
    pub fn get_total_assets(&self, held: i128) -> (r: Result<i128, Fault<VaultError>>)
        ensures
            r == self.get_total_assets_answer(held),
    {
        if self.engine.is_none() {
            return Err(Fault::Error(VaultError::NotInitialized));
        }
        match plus(self.idle_reserves(held), self.deployed) {
            Ok(z) => Ok(z),
            Err(t) => Err(Fault::Trap(t)),
        }
    }

    /// Why the net assets cannot be given.
    pub open spec fn net_assets_fault(self, held: i128) -> Option<Fault<VaultError>> {
        if self.engine is None {
            Some(Fault::Error(VaultError::NotInitialized))
        } else if !fits(self.idle(held) - self.queued) || !fits(self.free(held) + self.deployed) {
            Some(Fault::Trap(Trap::Overflow))
        } else {
            None
        }
    }

    /// What `get_net_assets` answers.
    pub open spec fn get_net_assets_answer(
        self,
        held: i128,
    ) -> Result<i128, Fault<VaultError>> {
        match self.net_assets_fault(held) {
            Some(f) => Err::<i128, Fault<VaultError>>(f),
            None => Ok((self.free(held) + self.deployed) as i128),
        }
    }

    /// Free reserves plus deployed capital: the assets that queued withdrawals
    /// have no claim on.
    pub fn get_net_assets(&self, held: i128) -> (r: Result<i128, Fault<VaultError>>)
        ensures
            r == self.get_net_assets_answer(held),
    {
        if self.engine.is_none() {
            return Err(Fault::Error(VaultError::NotInitialized));
        }
        match self.free_reserves(held) {
            Ok(free) => match plus(free, self.deployed) {
                Ok(z) => Ok(z),
                Err(t) => Err(Fault::Trap(t)),
            },
            Err(t) => Err(Fault::Trap(t)),
        }
    }

    /// Deployed capital written off and not recovered.
    pub fn recognised_losses(&self) -> (n: i128)
        ensures
            n == self.written_off,
    {
        self.written_off
    }

    /// Why the floor base cannot be given.
    pub open spec fn floor_base_fault(self, held: i128) -> Option<Fault<VaultError>> {
        let uncommitted = self.idle(held) - self.queued;
        if self.engine is None {
            Some(Fault::Error(VaultError::NotInitialized))
        } else if !fits(uncommitted) || !fits(uncommitted + self.deployed) || !fits(
            uncommitted + self.deployed + self.written_off,
        ) {
            Some(Fault::Trap(Trap::Overflow))
        } else {
            None
        }
    }

    /// What `floor_base` answers.
    pub open spec fn floor_base_answer(
        self,
        held: i128,
    ) -> Result<i128, Fault<VaultError>> {
        match self.floor_base_fault(held) {
            Some(f) => Err::<i128, Fault<VaultError>>(f),
            None => Ok(self.base(held) as i128),
        }
    }

    /// What the reserve floor is a share of: what the vault has beyond its
    /// queue, in cash and out at pools, plus losses on record.
    pub fn floor_base(&self, held: i128) -> (r: Result<i128, Fault<VaultError>>)
        ensures
            r == self.floor_base_answer(held),
    {
        if self.engine.is_none() {
            return Err(Fault::Error(VaultError::NotInitialized));
        }
        let uncommitted: i128 = match minus(self.idle_reserves(held), self.queued) {
            Ok(z) => z,
            Err(t) => {
                return Err(Fault::Trap(t));
            },
        };
        let net: i128 = match plus(uncommitted, self.deployed) {
            Ok(z) => z,
            Err(t) => {
                return Err(Fault::Trap(t));
            },
        };
        match plus(net, self.written_off) {
            Ok(base) => Ok(
                if base < 0 {
                    0
                } else {
                    base
                },
            ),
            Err(t) => Err(Fault::Trap(t)),
        }
    }

    /// What `get_nav` answers.
    pub open spec fn get_nav_answer(
        self,
        reading: Result<i128, InvokeError>,
    ) -> Result<i128, Fault<VaultError>> {
        if self.oracle is None || self.oracle_feed is None {
            Err::<i128, Fault<VaultError>>(Fault::Error(VaultError::OracleNotConfigured))
        } else {
            match reading {
                Ok(nav) => Ok(nav),
                Err(e) => Err(Fault::Trap(Trap::Callee(e))),
            }
        }
    }

    /// The value of the vault's feed. `reading` is the oracle's own answer,
    /// and its refusal is passed on unchanged.
    pub fn get_nav(&self, reading: Result<i128, InvokeError>) -> (r: Result<
        i128,
        Fault<VaultError>,
    >)
        ensures
            r == self.get_nav_answer(reading),
    {
        if self.oracle.is_none() || self.oracle_feed.is_none() {
            return Err(Fault::Error(VaultError::OracleNotConfigured));
        }
        match reading {
            Ok(nav) => Ok(nav),
            Err(e) => Err(Fault::Trap(Trap::Callee(e))),
        }
    }

    /// A claim.
    pub fn get_claim(&self, claim_id: u64) -> (r: Result<Claim, VaultError>)
        ensures
            r == (if self.claims@.dom().contains(claim_id) {
                Ok::<Claim, VaultError>(self.claims@[claim_id])
            } else {
                Err(VaultError::ClaimNotFound)
            }),
    {
        match self.claims.get(claim_id) {
            Some(c) => Ok(c),
            None => Err(VaultError::ClaimNotFound),
        }
    }

    /// Whether a claim was stepped over: unpaid, still owed, and collectable
    /// by its owner out of order.
    pub fn is_deferred(&self, claim_id: u64) -> (b: bool)
        ensures
            b == stepped_over(self.deferred@, claim_id),
    {
        match self.deferred.get(claim_id) {
            Some(b) => b,
            None => false,
        }
    }

    /// What `claim_status` answers.
    pub open spec fn claim_status_answer(
        self,
        claim_id: u64,
        held: i128,
    ) -> Result<ClaimStatus, VaultError> {
        if !self.claims@.dom().contains(claim_id) {
            Err::<ClaimStatus, VaultError>(VaultError::ClaimNotFound)
        } else if self.claims@[claim_id].claimed {
            Ok(ClaimStatus::Claimed)
        } else if (claim_id == self.queue_head || stepped_over(self.deferred@, claim_id))
            && self.idle(held) >= self.claims@[claim_id].amount {
            Ok(ClaimStatus::Ready)
        } else {
            Ok(ClaimStatus::Pending)
        }
    }

    /// Where a claim stands.
    pub fn claim_status(&self, claim_id: u64, held: i128) -> (r: Result<ClaimStatus, VaultError>)
        ensures
            r == self.claim_status_answer(claim_id, held),
    {
        let claim: Claim = match self.get_claim(claim_id) {
            Ok(c) => c,
            Err(e) => {
                return Err(e);
            },
        };
        if claim.claimed {
            return Ok(ClaimStatus::Claimed);
        }
        let collectable: bool = claim_id == self.queue_head || self.is_deferred(claim_id);
        if collectable && self.idle_reserves(held) >= claim.amount {
            return Ok(ClaimStatus::Ready);
        }
        Ok(ClaimStatus::Pending)
    }

    /// The next claim the queue has not reached.
    pub fn queue_head(&self) -> (n: u64)
        ensures
            n == self.queue_head,
    {
        self.queue_head
    }

    /// The next claim id to be handed out.
    pub fn queue_tail(&self) -> (n: u64)
        ensures
            n == self.queue_tail,
    {
        self.queue_tail
    }

    /// What `queue_length` answers.
    pub open spec fn queue_length_answer(
        self,
    ) -> Result<u64, Trap> {
        if self.queue_head <= self.queue_tail {
            Ok::<u64, Trap>((self.queue_tail - self.queue_head) as u64)
        } else {
            Err(Trap::Overflow)
        }
    }

    /// Claims the queue has not reached yet.
    pub fn queue_length(&self) -> (r: Result<u64, Trap>)
        ensures
            r == self.queue_length_answer(),
    {
        match self.queue_tail.checked_sub(self.queue_head) {
            Some(n) => Ok(n),
            None => Err(Trap::Overflow),
        }
    }

    /// Deposits ever taken.
    pub fn deposits(&self) -> (n: u64)
        ensures
            n == self.deposits,
    {
        self.deposits
    }

    /// Whether the circuit breaker is on.
    pub fn paused(&self) -> (b: bool)
        ensures
            b == self.paused,
    {
        self.paused
    }

    /// The admin.
    pub fn admin(&self) -> (r: Result<Address, VaultError>)
        ensures
            r == (match self.role.admin {
                Some(a) => Ok::<Address, VaultError>(a),
                None => Err(VaultError::NotInitialized),
            }),
    {
        match self.role.admin {
            Some(a) => Ok(a),
            None => Err(VaultError::NotInitialized),
        }
    }

    /// The USDC in custody.
    pub fn usdc(&self) -> (r: Result<Address, VaultError>)
        ensures
            r == (match self.usdc {
                Some(a) => Ok::<Address, VaultError>(a),
                None => Err(VaultError::NotInitialized),
            }),
    {
        match self.usdc {
            Some(a) => Ok(a),
            None => Err(VaultError::NotInitialized),
        }
    }

    /// The agUSD minted against deposits.
    pub fn agusd(&self) -> (r: Result<Address, VaultError>)
        ensures
            r == (match self.agusd {
                Some(a) => Ok::<Address, VaultError>(a),
                None => Err(VaultError::NotInitialized),
            }),
    {
        match self.agusd {
            Some(a) => Ok(a),
            None => Err(VaultError::NotInitialized),
        }
    }

    /// The engine that may instruct releases.
    pub fn allocation_engine(&self) -> (r: Result<Address, VaultError>)
        ensures
            r == (match self.engine {
                Some(a) => Ok::<Address, VaultError>(a),
                None => Err(VaultError::NotInitialized),
            }),
    {
        match self.engine {
            Some(a) => Ok(a),
            None => Err(VaultError::NotInitialized),
        }
    }

    /// The oracle that reports the vault's feed.
    pub fn oracle(&self) -> (r: Result<Address, VaultError>)
        ensures
            r == (match self.oracle {
                Some(a) => Ok::<Address, VaultError>(a),
                None => Err(VaultError::OracleNotConfigured),
            }),
    {
        match self.oracle {
            Some(a) => Ok(a),
            None => Err(VaultError::OracleNotConfigured),
        }
    }

    /// The feed on that oracle.
    pub fn oracle_feed(&self) -> (r: Result<Symbol, VaultError>)
        ensures
            r == (match self.oracle_feed {
                Some(a) => Ok::<Symbol, VaultError>(a),
                None => Err(VaultError::OracleNotConfigured),
            }),
    {
        match self.oracle_feed {
            Some(a) => Ok(a),
            None => Err(VaultError::OracleNotConfigured),
        }
    }
}

/// Claims are paid first in, first out: whatever is older than a paid claim
/// was paid too, or was stepped over because the token refused it.
pub proof fn the_queue_is_first_in_first_out(v: Vault, paid: u64, id: u64)
    requires
        v.sound(),
        v.claims@.dom().contains(paid),
        v.claims@[paid].claimed,
        1 <= id < paid,
    ensures
        v.claims@.dom().contains(id),
        v.claims@[id].claimed || stepped_over(v.deferred@, id),
{
    assert(paid < v.queue_head) by {
        assert(v.claims@.dom().contains(paid));
        if paid >= v.queue_head {
            assert(!v.claims@[paid].claimed);
        }
    }
    assert(v.claims@[id].claimed || stepped_over(v.deferred@, id));
}

/// A recovery never lowers the floor base below what it was before its cash
/// arrived: it leaves it alone where it undoes a loss, and raises it by the
/// rest.
pub proof fn a_recovery_never_lowers_the_base(
    before: Vault,
    after: Vault,
    inv: Invocation,
    admin: Address,
    amount: i128,
    held: i128,
)
    requires
        before.sound(),
        before.usdc is Some,
        before.record_recovery_fault(inv, admin, amount, held) is None,
        before.recouped(after, amount),
        fits(held - amount),
    ensures
        after.base(held) >= before.base((held - amount) as i128),
        amount <= before.written_off ==> after.base(held) == before.base((held - amount) as i128),
{
    before.queued_is_not_negative();
}

impl Vault {
    /// The queue is never owed less than nothing.
    pub proof fn queued_is_not_negative(self)
        requires
            self.sound(),
        ensures
            self.queued >= 0,
    {
        self.claims.finite();
        assert forall|i: u64| #[trigger] self.claims@.dom().contains(i) implies self.claims@[i].amount
            >= 0 by {}
        lemma_total_bounds(
            self.claims@,
            |id: u64, c: Claim|
                if c.claimed {
                    0
                } else {
                    c.amount as int
                },
            0,
        );
    }

    /// What is owed covers every claim that is not yet paid.
    pub proof fn queue_covers_a_claim(self, id: u64)
        requires
            self.sound(),
            self.claims@.dom().contains(id),
            !self.claims@[id].claimed,
        ensures
            self.queued >= self.claims@[id].amount,
    {
        self.claims.finite();
        assert forall|i: u64| #[trigger] self.claims@.dom().contains(i) implies self.claims@[i].amount
            >= 0 by {}
        lemma_unpaid_covers(self.claims@, id);
    }
}

/// A write-down buys no release: whatever was refused before it is refused
/// after it, for every amount and every balance.
pub proof fn a_write_down_does_not_reopen_the_floor(
    before: Vault,
    after: Vault,
    by: Invocation,
    admin: Address,
    written: i128,
    inv: Invocation,
    amount: i128,
    held: i128,
)
    requires
        before.sound(),
        before.record_writedown_fault(by, admin, written) is None,
        before.wrote_down(after, written),
        before.settle_allocation_fault(inv, amount, held) is Some,
    ensures
        after.settle_allocation_fault(inv, amount, held) is Some,
{
}

/// The floor holds across calls, not within one: two releases in a row are
/// granted exactly where one release of both amounts would be.
pub proof fn slicing_a_release_buys_nothing(
    before: Vault,
    between: Vault,
    inv: Invocation,
    first: i128,
    second: i128,
    held: i128,
)
    requires
        before.sound(),
        second > 0,
        fits(first + second),
        before.settle_allocation_fault(inv, first, held) is None,
        before.released(between, first),
    ensures
        (between.settle_allocation_fault(inv, second, (held - first) as i128) is None) == (
        before.settle_allocation_fault(inv, (first + second) as i128, held) is None),
{
    before.queued_is_not_negative();
}

/// An engine that has no unannounced cash to point at cannot shrink the
/// deployed book by a repayment, and without the admin's signature it cannot
/// shrink it by a write-down.
pub proof fn an_engine_alone_cannot_shrink_the_deployed_book(
    v: Vault,
    inv: Invocation,
    admin: Address,
    amount: i128,
    held: i128,
)
    requires
        v.idle(held) <= v.booked,
        v.role.admin is Some ==> !inv.signed(v.role.admin->0),
    ensures
        v.record_repayment_fault(inv, amount, held) is Some,
        v.record_writedown_fault(inv, admin, amount) is Some,
        v.record_recovery_fault(inv, admin, amount, held) is Some,
{
}

/// The circuit breaker stops deposits, withdrawal requests and releases, and
/// has no say in a payout.
pub proof fn the_breaker_stops_no_payout(
    v: Vault,
    paused: Vault,
    inv: Invocation,
    from: Address,
    claim_id: u64,
    amount: i128,
    held: i128,
    delivered: bool,
)
    requires
        paused == (Vault { paused: true, ..v }),
    ensures
        paused.claim_withdrawal_fault(inv, from, claim_id, held, delivered)
            == v.claim_withdrawal_fault(inv, from, claim_id, held, delivered),
        paused.settle_withdrawal_fault(held, delivered) == v.settle_withdrawal_fault(
            held,
            delivered,
        ),
        paused.deposit_fault(inv, from, amount) == Some(
            Fault::<VaultError>::Error(VaultError::Paused),
        ),
        paused.request_withdrawal_fault(inv, from, amount) == Some(
            Fault::<VaultError>::Error(VaultError::Paused),
        ),
        paused.settle_allocation_fault(inv, amount, held) is Some,
{
}

/// Settling the head of the queue is what its owner could have done: wherever
/// anybody can have it paid, the owner can collect it, and the vault ends up
/// the same.
pub proof fn settling_is_what_the_owner_could_have_done(
    v: Vault,
    after: Vault,
    inv: Invocation,
    held: i128,
)
    requires
        v.sound(),
        v.settle_withdrawal_fault(held, true) is None,
        v.settled(after),
        inv.signed(v.claims@[v.queue_head].owner),
    ensures
        v.claim_withdrawal_fault(
            inv,
            v.claims@[v.queue_head].owner,
            v.queue_head,
            held,
            true,
        ) is None,
        v.collected(after, v.queue_head),
{
    assert(!stepped_over(v.deferred@, v.queue_head));
}

/// Whoever is at the head, the queue moves: a head that the cash covers can be
/// stepped over on anybody's call if the token refuses it, and paid if not.
pub proof fn the_queue_moves_without_its_head(v: Vault, held: i128)
    requires
        v.sound(),
        v.queue_head < v.queue_tail,
        v.usdc is Some,
        held >= v.claims@[v.queue_head].amount,
        fits(v.booked - v.claims@[v.queue_head].amount),
    ensures
        v.settle_withdrawal_fault(held, true) is None,
        v.settle_withdrawal_fault(held, false) is None,
{
    let id = v.queue_head;
    v.claims.finite();
    assert(v.claims@.dom().contains(id));
    assert(!v.claims@[id].claimed);
    assert forall|i: u64| #[trigger] v.claims@.dom().contains(i) implies v.claims@[i].amount
        >= 0 by {}
    lemma_unpaid_covers(v.claims@, id);
}

/// A claim that was stepped over is still owed, and its owner can collect it
/// as soon as the token delivers.
pub proof fn a_deferred_claim_is_still_owed(
    v: Vault,
    after: Vault,
    inv: Invocation,
    held: i128,
)
    requires
        v.sound(),
        v.settle_withdrawal_fault(held, false) is None,
        v.deferred_head(after),
        inv.signed(v.claims@[v.queue_head].owner),
        fits(v.booked - v.claims@[v.queue_head].amount),
    ensures
        after.queued == v.queued,
        after.claims@ == v.claims@,
        after.claim_withdrawal_fault(
            inv,
            v.claims@[v.queue_head].owner,
            v.queue_head,
            held,
            true,
        ) is None,
{
    let id = v.queue_head;
    v.claims.finite();
    assert forall|i: u64| #[trigger] v.claims@.dom().contains(i) implies v.claims@[i].amount
        >= 0 by {}
    lemma_unpaid_covers(v.claims@, id);
    assert(stepped_over(after.deferred@, id));
}

/// A claim is paid at most once, and to nobody but its owner.
pub proof fn a_claim_is_paid_once_and_to_its_owner(
    v: Vault,
    inv: Invocation,
    from: Address,
    claim_id: u64,
    held: i128,
    delivered: bool,
)
    requires
        v.sound(),
        v.claims@.dom().contains(claim_id),
        v.claims@[claim_id].claimed || v.claims@[claim_id].owner != from,
    ensures
        v.claim_withdrawal_fault(inv, from, claim_id, held, delivered) is Some,
        v.claims@[claim_id].claimed ==> claim_id < v.queue_head,
{
    if v.claims@[claim_id].claimed && claim_id >= v.queue_head {
        assert(!v.claims@[claim_id].claimed);
    }
}

/// From the first deposit on, the agUSD pointer stands.
pub proof fn the_first_deposit_fixes_agusd(
    before: Vault,
    after: Vault,
    by: Invocation,
    from: Address,
    amount: i128,
    inv: Invocation,
    admin: Address,
    minter: Result<Address, InvokeError>,
    decimals: Result<u32, InvokeError>,
    usdc_decimals: Result<u32, InvokeError>,
)
    requires
        before.deposit_fault(by, from, amount) is None,
        before.deposited(after, amount),
    ensures
        after.set_agusd_fault(inv, admin, minter, decimals, usdc_decimals) is Some,
{
}

/// While capital is out, the engine pointer stands.
pub proof fn capital_out_fixes_the_engine(
    before: Vault,
    after: Vault,
    by: Invocation,
    released: i128,
    held: i128,
    inv: Invocation,
    admin: Address,
    governed: Result<Address, InvokeError>,
    booked: Result<i128, InvokeError>,
)
    requires
        before.sound(),
        before.settle_allocation_fault(by, released, held) is None,
        before.released(after, released),
    ensures
        after.set_engine_fault(inv, admin, governed, booked) is Some,
{
}

/// A vault that has no agUSD mints and burns nothing, and one that has no
/// engine releases and books nothing.
pub proof fn an_unwired_vault_moves_nothing(
    v: Vault,
    inv: Invocation,
    who: Address,
    amount: i128,
    held: i128,
)
    ensures
        v.agusd is None ==> v.deposit_fault(inv, who, amount) is Some
            && v.request_withdrawal_fault(inv, who, amount) is Some,
        v.engine is None ==> v.settle_allocation_fault(inv, amount, held) is Some
            && v.record_repayment_fault(inv, amount, held) is Some && v.record_writedown_fault(
            inv,
            who,
            amount,
        ) is Some && v.record_recovery_fault(inv, who, amount, held) is Some,
{
}

/// A floor that was never opened releases nothing.
pub proof fn a_closed_floor_releases_nothing(v: Vault, inv: Invocation, amount: i128, held: i128)
    requires
        v.sound(),
        v.floor_bps == BPS,
    ensures
        v.settle_allocation_fault(inv, amount, held) is Some,
{
}

/// The floor base is the net assets until a loss is recognised, wherever the
/// vault's cash covers its queue.
pub proof fn without_losses_the_base_is_the_net_assets(v: Vault, held: i128)
    requires
        v.sound(),
        v.written_off == 0,
        v.queued <= v.idle(held),
    ensures
        v.base(held) == v.free(held) + v.deployed,
{
}

} // verus!
