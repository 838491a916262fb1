//! What passes between a contract and the ledger that runs it.
//!
//! A transaction happens whole or not at all. A method that refuses therefore
//! leaves its contract as it was, and a method that succeeds does so on the
//! understanding that the calls it lists are then carried out: if one of them
//! fails, the ledger discards the new state with everything else.

use crate::address::{Address, Symbol};
use crate::agusd_core;
use crate::engine;
use crate::etherfuse;
use crate::oracle;
use crate::private_credit;
use crate::staking;
use crate::token::TokenError;
use crate::vault;
use vstd::prelude::*;

verus! {

/// The circumstances of one call.
pub struct Invocation {
    /// The contract being called.
    pub contract: Address,
    /// Who has authorized this call: those who signed for it, and the contract
    /// that makes it.
    pub signers: Vec<Address>,
    /// The ledger's clock, in seconds.
    pub timestamp: u64,
    /// The ledger's sequence number.
    pub sequence: u32,
}

impl Invocation {
    /// Whether an address has authorized this call.
    pub open spec fn signed(self, who: Address) -> bool {
        self.signers@.contains(who)
    }

    /// Whether an address has authorized this call.
    pub fn authorized(&self, who: Address) -> (b: bool)
        ensures
            b == self.signed(who),
    {
        let n: usize = self.signers.len();
        let mut i: usize = 0;
        while i < n
            invariant
                i <= n,
                n == self.signers@.len(),
                forall|j: int| 0 <= j < i ==> self.signers@[j] != who,
            decreases n - i,
        {
            if self.signers[i] == who {
                return true;
            }
            i = i + 1;
        }
        false
    }

    /// Whether `n` is the call that this call's contract makes into `callee`:
    /// the same ledger and the same signatures, and the calling contract's own.
    pub open spec fn opens(self, n: Invocation, callee: Address) -> bool {
        &&& n.contract == callee
        &&& n.signers@ == self.signers@.push(self.contract)
        &&& n.timestamp == self.timestamp
        &&& n.sequence == self.sequence
    }

    /// The call that this call's contract makes into `callee`.
    pub fn nested(&self, callee: Address) -> (n: Invocation)
        ensures
            self.opens(n, callee),
    {
        let mut signers: Vec<Address> = Vec::new();
        let len: usize = self.signers.len();
        let mut i: usize = 0;
        while i < len
            invariant
                i <= len,
                len == self.signers@.len(),
                signers@ == self.signers@.take(i as int),
            decreases len - i,
        {
            signers.push(self.signers[i]);
            i = i + 1;
        }
        assert(self.signers@.take(len as int) =~= self.signers@);
        signers.push(self.contract);
        Invocation {
            contract: callee,
            signers,
            timestamp: self.timestamp,
            sequence: self.sequence,
        }
    }
}

/// How a call into another contract can fail.
#[derive(Clone, Copy, Debug, PartialEq, Eq, Structural)]
pub enum InvokeError {
    /// The contract aborted, or there was nothing to answer.
    Abort,
    /// The contract refused with this code.
    Contract(u32),
}

/// Why the ledger aborts a call.
#[derive(Clone, Copy, Debug, PartialEq, Eq, Structural)]
pub enum Trap {
    /// An authorization that the call needs was not given.
    Unauthorized,
    /// Arithmetic left the range of its type.
    Overflow,
    /// A storage entry that the call relies on does not exist.
    Absent,
    /// An argument outside what the entry point takes.
    BadArgument,
    /// The token underneath refused.
    Token(TokenError),
    /// A call into another contract failed.
    Callee(InvokeError),
}

/// Why a call did not happen.
#[derive(Clone, Copy, Debug, PartialEq, Eq, Structural)]
pub enum Fault<E> {
    /// The contract refused with one of its own errors.
    Error(E),
    /// The ledger aborted the call.
    Trap(Trap),
}

/// A call into another contract that a successful method asks for.
#[derive(Clone, Copy, Debug, PartialEq, Eq, Structural)]
pub enum Call {
    /// `token.transfer(from, to, amount)`.
    Transfer { token: Address, from: Address, to: Address, amount: i128 },
    /// `token.mint(to, amount)`.
    Mint { token: Address, to: Address, amount: i128 },
    /// `token.burn(from, amount)`.
    Burn { token: Address, from: Address, amount: i128 },
    /// `vault.settle_allocation(pool, amount)`.
    SettleAllocation { vault: Address, pool: Address, amount: i128 },
    /// `vault.record_repayment(amount)`.
    RecordRepayment { vault: Address, amount: i128 },
    /// `vault.record_writedown(admin, amount)`.
    RecordWritedown { vault: Address, admin: Address, amount: i128 },
    /// `vault.record_recovery(admin, amount)`.
    RecordRecovery { vault: Address, admin: Address, amount: i128 },
    /// `pool.allocate(amount)`.
    Allocate { pool: Address, amount: i128 },
    /// `pool.deallocate(amount)`.
    Deallocate { pool: Address, amount: i128 },
    /// `pool.write_down(amount)`.
    WriteDown { pool: Address, amount: i128 },
    /// `pool.recover_surplus(caller)`.
    RecoverSurplus { pool: Address, caller: Address },
    /// `vault.stake(from, amount)` on a staking vault.
    Stake { vault: Address, from: Address, amount: i128 },
    /// `vault.request_unstake(from, shares)` on a staking vault.
    RequestUnstake { vault: Address, from: Address, shares: i128 },
    /// `vault.claim(from)` on a staking vault.
    Claim { vault: Address, from: Address },
}

/// A storage entry whose time to live a successful method extends.
#[derive(Clone, Copy, Debug, PartialEq, Eq, Structural)]
pub enum Rent {
    /// The contract's instance entry.
    Instance,
    /// A token balance.
    Balance { of: Address },
    /// A token allowance, until it expires.
    Allowance { from: Address, spender: Address, ledgers: u32 },
    /// A pending unstake.
    Pending { of: Address },
    /// A withdrawal claim.
    Claim { id: u64 },
    /// The mark on a claim that was stepped over.
    Deferred { id: u64 },
    /// The engine's exposure record for a pool.
    Exposure { pool: Address },
    /// The engine's total of exposures.
    TotalAllocated,
    /// The engine's total of losses.
    WrittenOff,
    /// The engine's record of losses for a pool.
    WrittenOffPool { pool: Address },
    /// The latest value of a feed.
    Nav { feed: Symbol },
}

/// A record in the ledger's event stream.
#[derive(Clone, Copy, Debug, PartialEq, Eq, Structural)]
pub enum Event {
    /// `approve` on a token.
    Approve { from: Address, spender: Address, amount: i128, expiration_ledger: u32 },
    /// `transfer` on a token.
    Transfer { from: Address, to: Address, amount: i128 },
    /// `mint` on a token.
    Mint { to: Address, amount: i128 },
    /// `burn` on a token.
    Burn { from: Address, amount: i128 },
    MinterSet(agusd_core::MinterSet),
    AgUsdCoreAdminProposed(agusd_core::AdminProposed),
    AgUsdCoreAdminChanged(agusd_core::AdminChanged),
    StakingAgUsdRepointed(staking::AgUsdRepointed),
    Staked(staking::Staked),
    UnstakeRequested(staking::UnstakeRequested),
    UnstakeClaimed(staking::UnstakeClaimed),
    YieldDistributed(staking::YieldDistributed),
    StakingAdminProposed(staking::AdminProposed),
    StakingAdminChanged(staking::AdminChanged),
    VaultAdminProposed(vault::AdminProposed),
    VaultAdminChanged(vault::AdminChanged),
    Deposit(vault::Deposit),
    WithdrawalRequested(vault::WithdrawalRequested),
    WithdrawalClaimed(vault::WithdrawalClaimed),
    WithdrawalDeferred(vault::WithdrawalDeferred),
    PauseToggled(vault::PauseToggled),
    ReserveFloorSet(vault::ReserveFloorSet),
    RepaymentRecorded(vault::RepaymentRecorded),
    WriteDownRecorded(vault::WriteDownRecorded),
    RecoveryRecorded(vault::RecoveryRecorded),
    VaultAgUsdRepointed(vault::AgUsdRepointed),
    OracleRepointed(vault::OracleRepointed),
    EngineRepointed(vault::EngineRepointed),
    PoolRegistered(engine::PoolRegistered),
    CapsUpdated(engine::CapsUpdated),
    ReserveFloorUpdated(engine::ReserveFloorUpdated),
    VaultRepointed(engine::VaultRepointed),
    Allocated(engine::Allocated),
    Deallocated(engine::Deallocated),
    WrittenDown(engine::WrittenDown),
    PoolCapSet(engine::PoolCapSet),
    PoolUnregistered(engine::PoolUnregistered),
    Recovered(engine::Recovered),
    EngineAdminProposed(engine::AdminProposed),
    EngineAdminChanged(engine::AdminChanged),
    ReporterAdded(oracle::ReporterAdded),
    ReporterRemoved(oracle::ReporterRemoved),
    FeedRegistered(oracle::FeedRegistered),
    QuorumThresholdSet(oracle::QuorumThresholdSet),
    NavQuorumReached(oracle::NavQuorumReached),
    NavUpdated(oracle::NavUpdated),
    NavRejected(oracle::NavRejected),
    OracleAdminProposed(oracle::AdminProposed),
    OracleAdminChanged(oracle::AdminChanged),
    PrivateCreditCounterpartiesSet(private_credit::CounterpartiesSet),
    PrivateCreditWrittenDown(private_credit::WrittenDown),
    PrivateCreditSurplusRecovered(private_credit::SurplusRecovered),
    PrivateCreditAdminProposed(private_credit::AdminProposed),
    PrivateCreditAdminChanged(private_credit::AdminChanged),
    EtherfuseCounterpartiesSet(etherfuse::CounterpartiesSet),
    EtherfuseWrittenDown(etherfuse::WrittenDown),
    EtherfuseSurplusRecovered(etherfuse::SurplusRecovered),
    EtherfuseAdminProposed(etherfuse::AdminProposed),
    EtherfuseAdminChanged(etherfuse::AdminChanged),
}

/// What the ledger still has to do for a call that succeeded, each list in
/// order.
pub struct Effects {
    pub calls: Vec<Call>,
    pub events: Vec<Event>,
    pub rent: Vec<Rent>,
}

/// The three lists of [`Effects`].
#[verifier::ext_equal]
pub struct EffectsView {
    pub calls: Seq<Call>,
    pub events: Seq<Event>,
    pub rent: Seq<Rent>,
}

impl View for Effects {
    type V = EffectsView;

    open spec fn view(&self) -> EffectsView {
        EffectsView { calls: self.calls@, events: self.events@, rent: self.rent@ }
    }
}

impl Effects {
    /// Nothing to do.
    pub fn none() -> (fx: Effects)
        ensures
            fx@ == (EffectsView { calls: seq![], events: seq![], rent: seq![] }),
    {
        Effects { calls: Vec::new(), events: Vec::new(), rent: Vec::new() }
    }

    /// And then make this call.
    pub fn call(self, call: Call) -> (fx: Effects)
        ensures
            fx@ == (EffectsView { calls: self@.calls.push(call), ..self@ }),
    {
        let mut fx = self;
        fx.calls.push(call);
        fx
    }

    /// And then record this event.
    pub fn event(self, event: Event) -> (fx: Effects)
        ensures
            fx@ == (EffectsView { events: self@.events.push(event), ..self@ }),
    {
        let mut fx = self;
        fx.events.push(event);
        fx
    }

    /// And keep this storage entry alive.
    pub fn keep(self, entry: Rent) -> (fx: Effects)
        ensures
            fx@ == (EffectsView { rent: self@.rent.push(entry), ..self@ }),
    {
        let mut fx = self;
        fx.rent.push(entry);
        fx
    }
}

/// What one call brings an address of a token, less what it takes. Only calls
/// on the token itself count.
pub open spec fn brings(call: Call, token: Address, who: Address) -> int {
    match call {
        Call::Transfer { token: t, from, to, amount } => if t == token {
            (if to == who {
                amount as int
            } else {
                0
            }) - (if from == who {
                amount as int
            } else {
                0
            })
        } else {
            0
        },
        Call::Mint { token: t, to, amount } => if t == token && to == who {
            amount as int
        } else {
            0
        },
        Call::Burn { token: t, from, amount } => if t == token && from == who {
            -amount
        } else {
            0
        },
        _ => 0,
    }
}

/// What a list of calls brings an address of a token, less what it takes.
pub open spec fn net(calls: Seq<Call>, token: Address, who: Address) -> int
    decreases calls.len(),
{
    if calls.len() == 0 {
        0
    } else {
        net(calls.drop_last(), token, who) + brings(calls.last(), token, who)
    }
}

/// What no calls bring, and what one call brings.
pub proof fn lemma_net(call: Call, token: Address, who: Address)
    ensures
        net(seq![], token, who) == 0,
        net(seq![call], token, who) == brings(call, token, who),
{
    reveal_with_fuel(net, 2);
    assert(seq![call].drop_last() =~= seq![]);
}

/// The answer of a call that succeeded, and what the ledger still has to do.
pub struct Receipt<T> {
    pub value: T,
    pub effects: Effects,
}

impl<T> Receipt<T> {
    /// Whether this is the given answer with the given effects.
    pub open spec fn gives(
        self,
        value: T,
        calls: Seq<Call>,
        events: Seq<Event>,
        rent: Seq<Rent>,
    ) -> bool {
        &&& self.value == value
        &&& self.effects.calls@ =~= calls
        &&& self.effects.events@ =~= events
        &&& self.effects.rent@ =~= rent
    }
}

} // verus!
