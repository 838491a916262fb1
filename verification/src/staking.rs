//! The staking vault, issuer of the yield-bearing sagUSD share.
//!
//! agUSD goes in, shares come out at `nav / supply`, and yield raises the nav
//! so that every share appreciates. Leaving takes two steps with a cooldown
//! between them. The nav moves in exactly three ways, each backed by a
//! transfer: `stake` in, `request_unstake` out, `distribute_yield` in.

use crate::address::Address;
use crate::host::{Call, Effects, Event, Fault, Invocation, InvokeError, Receipt, Rent, Trap};
use crate::host::{lemma_net, net};
use crate::math::{fits, fits_u64, minus, over, plus, quotient, times};
use crate::role::{Role, RoleRefusal};
use crate::table::{lemma_total_insert, lemma_total_remove, total, Table};
use crate::token::{moved, AllowanceDataKey, AllowanceValue, Token, TokenError, TokenMetadata};
use vstd::prelude::*;

verus! {

/// How far ahead a pending unstake is kept alive: ninety days of ledgers.
pub const PENDING_BUMP: u32 = 1_555_200;

/// A pending unstake with at least this long to live is left alone.
pub const PENDING_LIFETIME: u32 = 1_537_920;

/// A share price of one, at seven decimals.
pub const ONE: i128 = 10_000_000;

/// What the staking vault refuses.
#[derive(Clone, Copy, Debug, PartialEq, Eq, Structural)]
pub enum StakingError {
    /// Kept so that its code never means anything new.
    AlreadyInitialized,
    NotInitialized,
    NotAdmin,
    /// The contract has taken custody of agUSD, through a stake or through
    /// delivered yield, so the token it accepts is fixed.
    CustodyTaken,
    /// `accept_admin` with no handover in flight.
    NoPendingAdmin,
    /// `accept_admin` by an address that was not the one proposed.
    NotPendingAdmin,
    /// A stake, an unstake or a yield distribution of zero or less.
    InvalidAmount,
    /// A stake that is worth something and rounds to no shares at all.
    ZeroShares,
    /// An unstake with no shares in existence to price it against.
    NoSupply,
    /// Nothing is recorded as owed.
    NothingPending,
    /// The cooldown on the pending balance has not run out.
    StillInCooldown,
}

impl StakingError {
    /// The code the ledger reports.
    pub open spec fn number(self) -> u32 {
        match self {
            StakingError::AlreadyInitialized => 800,
            StakingError::NotInitialized => 801,
            StakingError::NotAdmin => 802,
            StakingError::CustodyTaken => 803,
            StakingError::NoPendingAdmin => 804,
            StakingError::NotPendingAdmin => 805,
            StakingError::InvalidAmount => 806,
            StakingError::ZeroShares => 807,
            StakingError::NoSupply => 808,
            StakingError::NothingPending => 809,
            StakingError::StillInCooldown => 810,
        }
    }

    /// The code the ledger reports.
    pub fn code(self) -> (n: u32)
        ensures
            n == self.number(),
    {
        match self {
            StakingError::AlreadyInitialized => 800,
            StakingError::NotInitialized => 801,
            StakingError::NotAdmin => 802,
            StakingError::CustodyTaken => 803,
            StakingError::NoPendingAdmin => 804,
            StakingError::NotPendingAdmin => 805,
            StakingError::InvalidAmount => 806,
            StakingError::ZeroShares => 807,
            StakingError::NoSupply => 808,
            StakingError::NothingPending => 809,
            StakingError::StillInCooldown => 810,
        }
    }
}

/// The staked asset was repointed.
#[derive(Clone, Copy, Debug, PartialEq, Eq, Structural)]
pub struct AgUsdRepointed {
    pub agusd: Address,
}

/// agUSD was staked. Carries the nav and the supply as they stand afterwards,
/// so that a price history can be read off the event stream.
#[derive(Clone, Copy, Debug, PartialEq, Eq, Structural)]
pub struct Staked {
    pub staker: Address,
    pub assets: i128,
    pub shares: i128,
    pub nav: i128,
    pub supply: i128,
}

/// Shares were burned and the assets behind them left the share price.
#[derive(Clone, Copy, Debug, PartialEq, Eq, Structural)]
pub struct UnstakeRequested {
    pub staker: Address,
    pub shares: i128,
    pub assets: i128,
    pub claimable_at: u64,
    pub nav: i128,
    pub supply: i128,
}

/// A matured unstake was paid out.
#[derive(Clone, Copy, Debug, PartialEq, Eq, Structural)]
pub struct UnstakeClaimed {
    pub staker: Address,
    pub assets: i128,
}

/// Yield arrived.
#[derive(Clone, Copy, Debug, PartialEq, Eq, Structural)]
pub struct YieldDistributed {
    pub amount: i128,
    pub nav: i128,
    pub supply: i128,
}

/// A handover of the admin role was proposed.
#[derive(Clone, Copy, Debug, PartialEq, Eq, Structural)]
pub struct AdminProposed {
    pub new_admin: Address,
}

/// A proposed admin accepted the role.
#[derive(Clone, Copy, Debug, PartialEq, Eq, Structural)]
pub struct AdminChanged {
    pub admin: Address,
}

/// What a departed staker is owed, and from when.
#[derive(Clone, Copy, Debug, PartialEq, Eq, Structural)]
pub struct Pending {
    pub assets: i128,
    pub claimable_at: u64,
}

/// An off-chain liquidity strategy, for display.
#[derive(Clone, Debug)]
pub struct Allocation {
    pub name: String,
    pub target_bps: u32,
    pub apy_bps: u32,
}

/// The storage of the staking vault.
#[derive(Clone)]
pub struct Staking {
    pub role: Role,
    pub agusd: Option<Address>,
    pub nav: i128,
    pub cooldown: Option<u64>,
    pub allocations: Vec<Allocation>,
    pub stakes: u64,
    pub pending: Table<Address, Pending>,
    pub token: Token,
}

/// The shares a stake buys.
pub open spec fn shares_for(amount: int, supply: int, nav: int) -> int {
    if supply == 0 || nav == 0 {
        amount
    } else {
        quotient(amount * supply, nav)
    }
}

/// The assets behind a number of shares.
pub open spec fn assets_for(shares: int, supply: int, nav: int) -> int {
    quotient(shares * nav, supply)
}

/// agUSD per share, scaled by [`ONE`].
pub open spec fn rate(nav: int, supply: int) -> int {
    if supply == 0 {
        ONE as int
    } else {
        quotient(nav * ONE, supply)
    }
}

/// What is recorded as owed to one address.
pub open spec fn pending_of(pending: Map<Address, Pending>, who: Address) -> Pending {
    if pending.dom().contains(who) {
        pending[who]
    } else {
        Pending { assets: 0, claimable_at: 0 }
    }
}

/// What is owed to all departed stakers together.
pub open spec fn owed(pending: Map<Address, Pending>) -> int {
    total(pending, |who: Address, p: Pending| p.assets as int)
}

proof fn lemma_owed_insert(pending: Map<Address, Pending>, who: Address, p: Pending)
    requires
        pending.dom().finite(),
    ensures
        owed(pending.insert(who, p)) == owed(pending) + p.assets - pending_of(pending, who).assets,
{
    lemma_total_insert(pending, |who: Address, p: Pending| p.assets as int, who, p);
}

proof fn lemma_owed_remove(pending: Map<Address, Pending>, who: Address)
    requires
        pending.dom().finite(),
    ensures
        owed(pending.remove(who)) == owed(pending) - pending_of(pending, who).assets,
{
    lemma_total_remove(pending, |who: Address, p: Pending| p.assets as int, who);
}

/// A quotient of a non-negative number is the floor.
proof fn lemma_floor(x: int, d: int)
    requires
        x >= 0,
        d > 0,
    ensures
        quotient(x, d) >= 0,
        quotient(x, d) * d <= x < quotient(x, d) * d + d,
{
    assert(x / d >= 0 && (x / d) * d <= x < (x / d) * d + d) by (nonlinear_arith)
        requires
            x >= 0,
            d > 0,
    ;
}

/// A larger fraction has a floor that is no smaller.
proof fn lemma_rate_monotone(nav: int, supply: int, nav2: int, supply2: int)
    requires
        nav >= 0,
        supply > 0,
        nav2 >= 0,
        supply2 > 0,
        nav * supply2 <= nav2 * supply,
    ensures
        rate(nav, supply) <= rate(nav2, supply2),
{
    let q = rate(nav, supply);
    let q2 = rate(nav2, supply2);
    lemma_floor(nav * ONE, supply);
    lemma_floor(nav2 * ONE, supply2);
    assert(q <= q2) by (nonlinear_arith)
        requires
            q * supply <= nav * 10_000_000,
            nav2 * 10_000_000 < q2 * supply2 + supply2,
            nav * supply2 <= nav2 * supply,
            supply > 0,
            supply2 > 0,
            nav >= 0,
    {
        // q*supply*supply2 <= nav*ONE*supply2 <= nav2*supply*ONE < (q2+1)*supply2*supply
        assert(q * supply * supply2 <= nav * 10_000_000 * supply2);
        assert(nav * 10_000_000 * supply2 == (nav * supply2) * 10_000_000);
        assert((nav * supply2) * 10_000_000 <= (nav2 * supply) * 10_000_000);
        assert((nav2 * supply) * 10_000_000 == (nav2 * 10_000_000) * supply);
        assert((nav2 * 10_000_000) * supply < (q2 * supply2 + supply2) * supply);
        assert((q2 * supply2 + supply2) * supply == (q2 + 1) * (supply * supply2));
        assert(q * supply * supply2 == q * (supply * supply2));
        assert(q * (supply * supply2) < (q2 + 1) * (supply * supply2));
        assert(supply * supply2 > 0);
    }
}

/// A stake never lowers the share price.
pub proof fn a_stake_never_lowers_the_rate(nav: int, supply: int, amount: int)
    requires
        nav >= 0,
        supply >= 0,
        amount > 0,
        shares_for(amount, supply, nav) > 0,
    ensures
        rate(nav, supply) <= rate(nav + amount, supply + shares_for(amount, supply, nav)),
{
    let shares = shares_for(amount, supply, nav);
    if supply == 0 {
        lemma_floor((nav + amount) * ONE, amount);
        let q = rate(nav + amount, amount);
        assert(q >= ONE) by (nonlinear_arith)
            requires
                (nav + amount) * 10_000_000 < q * amount + amount,
                nav >= 0,
                amount > 0,
                ONE == 10_000_000,
        ;
    } else {
        if nav == 0 {
            assert(nav * (supply + shares) <= (nav + amount) * supply) by (nonlinear_arith)
                requires
                    nav == 0,
                    amount > 0,
                    supply > 0,
            ;
        } else {
            assert(amount * supply >= 0) by (nonlinear_arith)
                requires
                    amount > 0,
                    supply > 0,
            ;
            lemma_floor(amount * supply, nav);
            assert(nav * (supply + shares) <= (nav + amount) * supply) by (nonlinear_arith)
                requires
                    shares * nav <= amount * supply,
            ;
        }
        lemma_rate_monotone(nav, supply, nav + amount, supply + shares);
    }
}

/// An unstake never lowers the share price of the shares that remain.
pub proof fn an_unstake_never_lowers_the_rate(nav: int, supply: int, shares: int)
    requires
        nav >= 0,
        0 < shares < supply,
    ensures
        0 <= assets_for(shares, supply, nav) <= nav,
        rate(nav, supply) <= rate(nav - assets_for(shares, supply, nav), supply - shares),
{
    let assets = assets_for(shares, supply, nav);
    lemma_assets_within(nav, supply, shares);
    assert(shares * nav >= 0) by (nonlinear_arith)
        requires
            shares > 0,
            nav >= 0,
    ;
    lemma_floor(shares * nav, supply);
    assert(nav * (supply - shares) <= (nav - assets) * supply) by (nonlinear_arith)
        requires
            assets * supply <= shares * nav,
    ;
    lemma_rate_monotone(nav, supply, nav - assets, supply - shares);
}

/// Shares are never worth more than the nav, and all of them are worth all of
/// it.
proof fn lemma_assets_within(nav: int, supply: int, shares: int)
    requires
        nav >= 0,
        0 < shares <= supply,
    ensures
        0 <= assets_for(shares, supply, nav) <= nav,
        shares == supply ==> assets_for(shares, supply, nav) == nav,
{
    let assets = assets_for(shares, supply, nav);
    assert(shares * nav >= 0) by (nonlinear_arith)
        requires
            shares > 0,
            nav >= 0,
    ;
    lemma_floor(shares * nav, supply);
    assert(assets <= nav) by (nonlinear_arith)
        requires
            assets * supply <= shares * nav,
            0 < shares <= supply,
            nav >= 0,
    ;
    if shares == supply {
        assert(assets == nav) by (nonlinear_arith)
            requires
                assets * supply <= supply * nav,
                supply * nav < assets * supply + supply,
                supply > 0,
        ;
    }
}

/// Yield never lowers the share price.
pub proof fn yield_never_lowers_the_rate(nav: int, supply: int, amount: int)
    requires
        nav >= 0,
        supply >= 0,
        amount > 0,
    ensures
        rate(nav, supply) <= rate(nav + amount, supply),
{
    if supply > 0 {
        assert(nav * supply <= (nav + amount) * supply) by (nonlinear_arith)
            requires
                amount > 0,
                supply > 0,
        ;
        lemma_rate_monotone(nav, supply, nav + amount, supply);
    }
}

/// Unstaking the shares that a stake has just bought brings back no more than
/// was staked. (Yield that arrived while there were no shares at all belongs
/// to whoever stakes first; that is the one case left out.)
pub proof fn a_round_trip_makes_no_money(nav: int, supply: int, amount: int)
    requires
        nav >= 0,
        supply >= 0,
        amount > 0,
        supply > 0 || nav == 0,
        shares_for(amount, supply, nav) > 0,
    ensures
        assets_for(
            shares_for(amount, supply, nav),
            supply + shares_for(amount, supply, nav),
            nav + amount,
        ) <= amount,
{
    let shares = shares_for(amount, supply, nav);
    if supply != 0 && nav != 0 {
        assert(amount * supply >= 0) by (nonlinear_arith)
            requires
                amount > 0,
                supply > 0,
        ;
        lemma_floor(amount * supply, nav);
    } else if nav == 0 {
        assert(shares * nav <= amount * supply) by (nonlinear_arith)
            requires
                nav == 0,
                amount > 0,
                supply >= 0,
        ;
    }
    let worth = assets_for(shares, supply + shares, nav + amount);
    assert(shares * (nav + amount) >= 0) by (nonlinear_arith)
        requires
            shares > 0,
            nav >= 0,
            amount > 0,
    ;
    lemma_floor(shares * (nav + amount), supply + shares);
    assert(worth <= amount) by (nonlinear_arith)
        requires
            worth * (supply + shares) <= shares * (nav + amount),
            shares * nav <= amount * supply,
            supply + shares > 0,
    {
        assert(shares * (nav + amount) == shares * nav + shares * amount);
        assert(shares * nav + shares * amount <= amount * supply + shares * amount);
        assert(amount * supply + shares * amount == amount * (supply + shares));
        assert(worth * (supply + shares) <= amount * (supply + shares));
    }
}

impl Staking {
    /// The contract's refusal for a refusal on the role.
    pub open spec fn denial(e: RoleRefusal) -> Fault<StakingError> {
        match e {
            RoleRefusal::Unset => Fault::Error(StakingError::NotInitialized),
            RoleRefusal::NotAdmin => Fault::Error(StakingError::NotAdmin),
            RoleRefusal::NoPending => Fault::Error(StakingError::NoPendingAdmin),
            RoleRefusal::NotPending => Fault::Error(StakingError::NotPendingAdmin),
            RoleRefusal::Unauthorized => Fault::Trap(Trap::Unauthorized),
        }
    }

    fn deny(e: RoleRefusal) -> (f: Fault<StakingError>)
        ensures
            f == Staking::denial(e),
    {
        match e {
            RoleRefusal::Unset => Fault::Error(StakingError::NotInitialized),
            RoleRefusal::NotAdmin => Fault::Error(StakingError::NotAdmin),
            RoleRefusal::NoPending => Fault::Error(StakingError::NoPendingAdmin),
            RoleRefusal::NotPending => Fault::Error(StakingError::NotPendingAdmin),
            RoleRefusal::Unauthorized => Fault::Trap(Trap::Unauthorized),
        }
    }

    /// Everything the contract answers for: the nav behind the shares, and
    /// what departed stakers are owed.
    pub open spec fn obligations(self) -> int {
        self.nav + owed(self.pending@)
    }

    /// What every call keeps: sound share books, and no negative amount
    /// anywhere.
    pub open spec fn sound(self) -> bool {
        &&& self.token.sound()
        &&& self.nav >= 0
        &&& forall|a: Address| #[trigger] pending_of(self.pending@, a).assets >= 0
    }

    /// A contract whose constructor has not run.
    pub fn empty() -> (s: Staking)
        ensures
            s.role == (Role { admin: None, pending: None }),
            s.agusd is None,
            s.nav == 0,
            s.cooldown is None,
            s.allocations@.len() == 0,
            s.stakes == 0,
            s.pending@ == Map::<Address, Pending>::empty(),
            s.token.balances@ == Map::<Address, i128>::empty(),
            s.token.allowances@ == Map::<AllowanceDataKey, AllowanceValue>::empty(),
            s.token.supply == 0,
            s.token.metadata is None,
            s.sound(),
            s.obligations() == 0,
    {
        let s = Staking {
            role: Role::vacant(),
            agusd: None,
            nav: 0,
            cooldown: None,
            allocations: Vec::new(),
            stakes: 0,
            pending: Table::new(),
            token: Token::empty(),
        };
        assert(s.pending@.dom() =~= Set::empty());
        s
    }

    /// What `__constructor` answers, and what it leaves behind.
    pub open spec fn __constructor_step(
        self,
        after: Staking,
        inv: Invocation,
        admin: Address,
        agusd: Address,
        cooldown_seconds: u64,
        decimal: u32,
        name: String,
        symbol: String,
        r: Result<Receipt<()>, Fault<StakingError>>,
    ) -> bool {
        match r {
            Ok(d) => {
                &&& inv.signed(admin)
                &&& after == (Staking {
                    role: Role { admin: Some(admin), ..self.role },
                    agusd: Some(agusd),
                    nav: 0,
                    cooldown: Some(cooldown_seconds),
                    token: Token {
                        metadata: Some(TokenMetadata { decimal, name, symbol }),
                        ..self.token
                    },
                    ..self
                })
                &&& d.gives((), seq![], seq![], seq![Rent::Instance])
            },
            Err(f) => {
                &&& !inv.signed(admin)
                &&& f == Fault::<StakingError>::Trap(Trap::Unauthorized)
                &&& after == self
            },
        }
    }

    /// Records the admin, the accepted agUSD, the cooldown and the share
    /// metadata, in the transaction that deploys the contract.
    pub fn __constructor(
        &mut self,
        inv: &Invocation,
        admin: Address,
        agusd: Address,
        cooldown_seconds: u64,
        decimal: u32,
        name: String,
        symbol: String,
    ) -> (r: Result<Receipt<()>, Fault<StakingError>>)
        ensures
            old(self).__constructor_step(
                *final(self),
                *inv,
                admin,
                agusd,
                cooldown_seconds,
                decimal,
                name,
                symbol,
                r,
            ),
            old(self).sound() ==> final(self).sound(),
    {
        if !inv.authorized(admin) {
            return Err(Fault::Trap(Trap::Unauthorized));
        }
        self.role.admin = Some(admin);
        self.agusd = Some(agusd);
        self.nav = 0;
        self.cooldown = Some(cooldown_seconds);
        self.token.set_metadata(decimal, name, symbol);
        Ok(Receipt { value: (), effects: Effects::none().keep(Rent::Instance) })
    }

    /// Why `set_agusd` is refused, given what the current token says this
    /// contract holds of it.
    pub open spec fn set_agusd_fault(
        self,
        inv: Invocation,
        admin: Address,
        holding: Result<i128, InvokeError>,
    ) -> Option<Fault<StakingError>> {
        if self.role.require_refusal(inv, admin) is Some {
            Some(Staking::denial(self.role.require_refusal(inv, admin)->0))
        } else if self.stakes > 0 || self.nav != 0 {
            Some(Fault::Error(StakingError::CustodyTaken))
        } else if self.agusd is None {
            Some(Fault::Error(StakingError::NotInitialized))
        } else {
            match holding {
                Err(e) => Some(Fault::Trap(Trap::Callee(e))),
                Ok(balance) => if balance != 0 {
                    Some(Fault::Error(StakingError::CustodyTaken))
                } else {
                    None
                },
            }
        }
    }

    /// What `set_agusd` answers, and what it leaves behind.
    pub open spec fn set_agusd_step(
        self,
        after: Staking,
        inv: Invocation,
        admin: Address,
        agusd: Address,
        holding: Result<i128, InvokeError>,
        r: Result<Receipt<()>, Fault<StakingError>>,
    ) -> bool {
        match r {
            Ok(d) => {
                &&& self.set_agusd_fault(inv, admin, holding) is None
                &&& after == (Staking { agusd: Some(agusd), ..self })
                &&& d.gives(
                    (),
                    seq![],
                    seq![Event::StakingAgUsdRepointed(AgUsdRepointed { agusd })],
                    seq![Rent::Instance],
                )
            },
            Err(f) => {
                &&& self.set_agusd_fault(inv, admin, holding) == Some(f)
                &&& after == self
            },
        }
    }

    /// Accepts a different agUSD, before the contract has taken custody of
    /// anything. `holding` is the current token's answer for this contract's
    /// balance.
    pub fn set_agusd(
        &mut self,
        inv: &Invocation,
        admin: Address,
        agusd: Address,
        holding: Result<i128, InvokeError>,
    ) -> (r: Result<Receipt<()>, Fault<StakingError>>)
        ensures
            old(self).set_agusd_step(*final(self), *inv, admin, agusd, holding, r),
            old(self).sound() ==> final(self).sound(),
    {
        match self.role.require(inv, admin) {
            Ok(_) => {},
            Err(e) => {
                return Err(Staking::deny(e));
            },
        }
        if self.stakes > 0 || self.nav != 0 {
            return Err(Fault::Error(StakingError::CustodyTaken));
        }
        if self.agusd.is_none() {
            return Err(Fault::Error(StakingError::NotInitialized));
        }
        match holding {
            Err(e) => {
                return Err(Fault::Trap(Trap::Callee(e)));
            },
            Ok(balance) => if balance != 0 {
                return Err(Fault::Error(StakingError::CustodyTaken));
            },
        }
        self.agusd = Some(agusd);
        Ok(
            Receipt {
                value: (),
                effects: Effects::none().keep(Rent::Instance).event(
                    Event::StakingAgUsdRepointed(AgUsdRepointed { agusd }),
                ),
            },
        )
    }

    /// Why `stake` is refused.
    pub open spec fn stake_fault(self, inv: Invocation, from: Address, amount: i128) -> Option<
        Fault<StakingError>,
    > {
        let supply = self.token.supply;
        let shares = shares_for(amount as int, supply as int, self.nav as int);
        if !inv.signed(from) {
            Some(Fault::Trap(Trap::Unauthorized))
        } else if amount <= 0 {
            Some(Fault::Error(StakingError::InvalidAmount))
        } else if self.agusd is None {
            Some(Fault::Error(StakingError::NotInitialized))
        } else if supply != 0 && self.nav != 0 && !(fits(amount * supply) && fits(shares)) {
            Some(Fault::Trap(Trap::Overflow))
        } else if shares <= 0 {
            Some(Fault::Error(StakingError::ZeroShares))
        } else if self.token.mint_trap(from, shares as i128) is Some {
            Some(Fault::Trap(self.token.mint_trap(from, shares as i128)->0))
        } else if !fits(self.nav + amount) || !fits_u64(self.stakes + 1) {
            Some(Fault::Trap(Trap::Overflow))
        } else {
            None
        }
    }

    /// The state after a stake.
    pub open spec fn staked(self, after: Staking, from: Address, amount: i128) -> bool {
        let shares = shares_for(amount as int, self.token.supply as int, self.nav as int);
        &&& after.token.balances@ == moved(self.token.balances@, from, shares)
        &&& after == (Staking {
            nav: (self.nav + amount) as i128,
            stakes: (self.stakes + 1) as u64,
            token: Token {
                balances: after.token.balances,
                supply: (self.token.supply + shares) as i128,
                ..self.token
            },
            ..self
        })
    }

    /// What `stake` answers, and what it leaves behind.
    pub open spec fn stake_step(
        self,
        after: Staking,
        inv: Invocation,
        from: Address,
        amount: i128,
        r: Result<Receipt<i128>, Fault<StakingError>>,
    ) -> bool {
        match r {
            Ok(d) => {
                let shares = shares_for(
                    amount as int,
                    self.token.supply as int,
                    self.nav as int,
                ) as i128;
                let nav = (self.nav + amount) as i128;
                let supply = (self.token.supply + shares) as i128;
                &&& self.stake_fault(inv, from, amount) is None
                &&& self.staked(after, from, amount)
                &&& d.gives(
                    shares,
                    seq![
                        Call::Transfer {
                            token: self.agusd->0,
                            from,
                            to: inv.contract,
                            amount,
                        },
                    ],
                    seq![
                        Event::Mint { to: from, amount: shares },
                        Event::Staked(
                            Staked { staker: from, assets: amount, shares, nav, supply },
                        ),
                    ],
                    seq![Rent::Instance, Rent::Balance { of: from }],
                )
                &&& from != inv.contract ==> after.obligations()
                    == self.obligations() + net(
                    d.effects.calls@,
                    self.agusd->0,
                    inv.contract,
                )
                &&& self.sound() ==> after.unit_price() >= self.unit_price()
            },
            Err(f) => {
                &&& self.stake_fault(inv, from, amount) == Some(f)
                &&& after == self
            },
        }
    }

    /// Takes agUSD in and mints shares at the current share price.
    pub fn stake(&mut self, inv: &Invocation, from: Address, amount: i128) -> (r: Result<
        Receipt<i128>,
        Fault<StakingError>,
    >)
        ensures
            old(self).stake_step(*final(self), *inv, from, amount, r),
            old(self).sound() ==> final(self).sound(),
    {
        if !inv.authorized(from) {
            return Err(Fault::Trap(Trap::Unauthorized));
        }
        if amount <= 0 {
            return Err(Fault::Error(StakingError::InvalidAmount));
        }
        let agusd: Address = match self.agusd {
            Some(a) => a,
            None => {
                return Err(Fault::Error(StakingError::NotInitialized));
            },
        };
        let supply: i128 = self.token.total_supply();
        let nav: i128 = self.nav;
        let shares: i128 = if supply == 0 || nav == 0 {
            amount
        } else {
            let product: i128 = match times(amount, supply) {
                Ok(z) => z,
                Err(t) => {
                    return Err(Fault::Trap(t));
                },
            };
            match over(product, nav) {
                Ok(z) => z,
                Err(t) => {
                    return Err(Fault::Trap(t));
                },
            }
        };
        if shares <= 0 {
            return Err(Fault::Error(StakingError::ZeroShares));
        }
        let nav_after: i128 = match plus(nav, amount) {
            Ok(z) => z,
            Err(t) => {
                return Err(Fault::Trap(t));
            },
        };
        if self.stakes == u64::MAX {
            return Err(Fault::Trap(Trap::Overflow));
        }
        let minted = match self.token.mint(from, shares) {
            Ok(d) => d,
            Err(t) => {
                return Err(Fault::Trap(t));
            },
        };
        self.nav = nav_after;
        self.stakes = self.stakes + 1;
        let pull = Call::Transfer { token: agusd, from, to: inv.contract, amount };
        proof {
            lemma_net(pull, agusd, inv.contract);
            if old(self).sound() {
                old(self).token.supply_covers_every_balance(from);
                a_stake_never_lowers_the_rate(nav as int, supply as int, amount as int);
            }
        }
        Ok(
            Receipt {
                value: shares,
                effects: minted.effects.call(pull).event(
                    Event::Staked(
                        Staked {
                            staker: from,
                            assets: amount,
                            shares,
                            nav: self.nav,
                            supply: self.token.total_supply(),
                        },
                    ),
                ),
            },
        )
    }

    /// Why `request_unstake` is refused.
    pub open spec fn request_unstake_fault(
        self,
        inv: Invocation,
        from: Address,
        shares: i128,
    ) -> Option<Fault<StakingError>> {
        let supply = self.token.supply;
        let assets = assets_for(shares as int, supply as int, self.nav as int);
        if !inv.signed(from) {
            Some(Fault::Trap(Trap::Unauthorized))
        } else if shares <= 0 {
            Some(Fault::Error(StakingError::InvalidAmount))
        } else if supply == 0 {
            Some(Fault::Error(StakingError::NoSupply))
        } else if !(fits(shares * self.nav) && fits(assets)) {
            Some(Fault::Trap(Trap::Overflow))
        } else if self.token.burn_unchecked_trap(from, shares) is Some {
            Some(Fault::Trap(self.token.burn_unchecked_trap(from, shares)->0))
        } else if !fits(self.nav - assets) {
            Some(Fault::Trap(Trap::Overflow))
        } else if self.cooldown is None {
            Some(Fault::Trap(Trap::Absent))
        } else if !fits(pending_of(self.pending@, from).assets + assets) || !fits_u64(
            inv.timestamp + self.cooldown->0,
        ) {
            Some(Fault::Trap(Trap::Overflow))
        } else {
            None
        }
    }

    /// The state after an unstake was requested.
    pub open spec fn unstaked(
        self,
        after: Staking,
        from: Address,
        shares: i128,
        claimable_at: u64,
    ) -> bool {
        let assets = assets_for(shares as int, self.token.supply as int, self.nav as int);
        &&& after.token.balances@ == moved(self.token.balances@, from, -shares)
        &&& after.pending@ == self.pending@.insert(
            from,
            Pending {
                assets: (pending_of(self.pending@, from).assets + assets) as i128,
                claimable_at,
            },
        )
        &&& after == (Staking {
            nav: (self.nav - assets) as i128,
            pending: after.pending,
            token: Token {
                balances: after.token.balances,
                supply: (self.token.supply - shares) as i128,
                ..self.token
            },
            ..self
        })
    }

    /// What `request_unstake` answers, and what it leaves behind.
    pub open spec fn request_unstake_step(
        self,
        after: Staking,
        inv: Invocation,
        from: Address,
        shares: i128,
        r: Result<Receipt<i128>, Fault<StakingError>>,
    ) -> bool {
        match r {
            Ok(d) => {
                let assets = assets_for(
                    shares as int,
                    self.token.supply as int,
                    self.nav as int,
                ) as i128;
                let nav = (self.nav - assets) as i128;
                let supply = (self.token.supply - shares) as i128;
                let claimable_at = (inv.timestamp + self.cooldown->0) as u64;
                &&& self.request_unstake_fault(inv, from, shares) is None
                &&& self.unstaked(after, from, shares, claimable_at)
                &&& d.gives(
                    assets,
                    seq![],
                    seq![
                        Event::Burn { from, amount: shares },
                        Event::UnstakeRequested(
                            UnstakeRequested {
                                staker: from,
                                shares,
                                assets,
                                claimable_at,
                                nav,
                                supply,
                            },
                        ),
                    ],
                    seq![Rent::Instance, Rent::Balance { of: from }, Rent::Pending { of: from }],
                )
                &&& after.obligations() == self.obligations()
                &&& self.sound() && supply > 0 ==> after.unit_price()
                    >= self.unit_price()
                &&& self.sound() && supply == 0 ==> nav == 0
            },
            Err(f) => {
                &&& self.request_unstake_fault(inv, from, shares) == Some(f)
                &&& after == self
            },
        }
    }

    /// Burns shares now and locks the agUSD they are worth behind the
    /// cooldown. A second request restarts the cooldown on the whole pending
    /// balance.
    pub fn request_unstake(&mut self, inv: &Invocation, from: Address, shares: i128) -> (r: Result<
        Receipt<i128>,
        Fault<StakingError>,
    >)
        ensures
            old(self).request_unstake_step(*final(self), *inv, from, shares, r),
            old(self).sound() ==> final(self).sound(),
    {
        if !inv.authorized(from) {
            return Err(Fault::Trap(Trap::Unauthorized));
        }
        if shares <= 0 {
            return Err(Fault::Error(StakingError::InvalidAmount));
        }
        let supply: i128 = self.token.total_supply();
        if supply == 0 {
            return Err(Fault::Error(StakingError::NoSupply));
        }
        let nav: i128 = self.nav;
        let product: i128 = match times(shares, nav) {
            Ok(z) => z,
            Err(t) => {
                return Err(Fault::Trap(t));
            },
        };
        let assets: i128 = match over(product, supply) {
            Ok(z) => z,
            Err(t) => {
                return Err(Fault::Trap(t));
            },
        };
        let available: i128 = self.token.balance(from);
        if available < shares {
            return Err(Fault::Trap(Trap::Token(TokenError::InsufficientBalance)));
        }
        if minus(supply, shares).is_err() {
            return Err(Fault::Trap(Trap::Overflow));
        }
        let nav_after: i128 = match minus(nav, assets) {
            Ok(z) => z,
            Err(t) => {
                return Err(Fault::Trap(t));
            },
        };
        let cooldown: u64 = match self.cooldown {
            Some(c) => c,
            None => {
                return Err(Fault::Trap(Trap::Absent));
            },
        };
        let already: Pending = self.pending(from);
        let sum: i128 = match plus(already.assets, assets) {
            Ok(z) => z,
            Err(t) => {
                return Err(Fault::Trap(t));
            },
        };
        let claimable_at: u64 = match inv.timestamp.checked_add(cooldown) {
            Some(z) => z,
            None => {
                return Err(Fault::Trap(Trap::Overflow));
            },
        };
        let burned = match self.token.burn_unchecked(from, shares) {
            Ok(d) => d,
            Err(t) => {
                return Err(Fault::Trap(t));
            },
        };
        self.nav = nav_after;
        self.pending.set(from, Pending { assets: sum, claimable_at });
        proof {
            let p = Pending { assets: sum, claimable_at };
            old(self).pending.finite();
            lemma_owed_insert(old(self).pending@, from, p);
            if old(self).sound() {
                old(self).token.supply_covers_every_balance(from);
                lemma_assets_within(nav as int, supply as int, shares as int);
                if shares < supply {
                    an_unstake_never_lowers_the_rate(nav as int, supply as int, shares as int);
                }
                assert forall|a: Address| #[trigger]
                    pending_of(self.pending@, a).assets >= 0 by {
                    assert(pending_of(old(self).pending@, a).assets >= 0);
                    assert(pending_of(old(self).pending@, from).assets >= 0);
                }
            }
        }
        Ok(
            Receipt {
                value: assets,
                effects: burned.effects.keep(Rent::Pending { of: from }).event(
                    Event::UnstakeRequested(
                        UnstakeRequested {
                            staker: from,
                            shares,
                            assets,
                            claimable_at,
                            nav: self.nav,
                            supply: self.token.total_supply(),
                        },
                    ),
                ),
            },
        )
    }

    /// What `bump_pending` answers, and what it asks for.
    pub open spec fn bump_pending_step(
        self,
        addr: Address,
        r: Result<Receipt<()>, Fault<StakingError>>,
    ) -> bool {
        match r {
            Ok(d) => {
                &&& pending_of(self.pending@, addr).assets > 0
                &&& d.gives((), seq![], seq![], seq![Rent::Pending { of: addr }])
            },
            Err(f) => {
                &&& pending_of(self.pending@, addr).assets <= 0
                &&& f == Fault::Error(StakingError::NothingPending)
            },
        }
    }

    /// Postpones the archival of a pending unstake. Anyone may.
    pub fn bump_pending(&self, addr: Address) -> (r: Result<Receipt<()>, Fault<StakingError>>)
        ensures
            self.bump_pending_step(addr, r),
    {
        if self.pending(addr).assets <= 0 {
            return Err(Fault::Error(StakingError::NothingPending));
        }
        Ok(Receipt { value: (), effects: Effects::none().keep(Rent::Pending { of: addr }) })
    }

    /// Why `claim` is refused.
    pub open spec fn claim_fault(self, inv: Invocation, from: Address) -> Option<
        Fault<StakingError>,
    > {
        let p = pending_of(self.pending@, from);
        if !inv.signed(from) {
            Some(Fault::Trap(Trap::Unauthorized))
        } else if p.assets <= 0 {
            Some(Fault::Error(StakingError::NothingPending))
        } else if inv.timestamp < p.claimable_at {
            Some(Fault::Error(StakingError::StillInCooldown))
        } else if self.agusd is None {
            Some(Fault::Error(StakingError::NotInitialized))
        } else {
            None
        }
    }

    /// The state after a matured unstake was paid out.
    pub open spec fn claimed(self, after: Staking, from: Address) -> bool {
        &&& after.pending@ == self.pending@.remove(from)
        &&& after == (Staking { pending: after.pending, ..self })
    }

    /// What `claim` answers, and what it leaves behind.
    pub open spec fn claim_step(
        self,
        after: Staking,
        inv: Invocation,
        from: Address,
        r: Result<Receipt<i128>, Fault<StakingError>>,
    ) -> bool {
        match r {
            Ok(d) => {
                let assets = pending_of(self.pending@, from).assets;
                &&& self.claim_fault(inv, from) is None
                &&& self.claimed(after, from)
                &&& d.gives(
                    assets,
                    seq![
                        Call::Transfer {
                            token: self.agusd->0,
                            from: inv.contract,
                            to: from,
                            amount: assets,
                        },
                    ],
                    seq![Event::UnstakeClaimed(UnstakeClaimed { staker: from, assets })],
                    seq![],
                )
                &&& from != inv.contract ==> after.obligations()
                    == self.obligations() + net(
                    d.effects.calls@,
                    self.agusd->0,
                    inv.contract,
                )
            },
            Err(f) => {
                &&& self.claim_fault(inv, from) == Some(f)
                &&& after == self
            },
        }
    }

    /// Pays out a matured unstake.
    pub fn claim(&mut self, inv: &Invocation, from: Address) -> (r: Result<
        Receipt<i128>,
        Fault<StakingError>,
    >)
        ensures
            old(self).claim_step(*final(self), *inv, from, r),
            old(self).sound() ==> final(self).sound(),
    {
        if !inv.authorized(from) {
            return Err(Fault::Trap(Trap::Unauthorized));
        }
        let p: Pending = self.pending(from);
        if p.assets <= 0 {
            return Err(Fault::Error(StakingError::NothingPending));
        }
        if inv.timestamp < p.claimable_at {
            return Err(Fault::Error(StakingError::StillInCooldown));
        }
        let agusd: Address = match self.agusd {
            Some(a) => a,
            None => {
                return Err(Fault::Error(StakingError::NotInitialized));
            },
        };
        self.pending.remove(from);
        let pay = Call::Transfer { token: agusd, from: inv.contract, to: from, amount: p.assets };
        proof {
            old(self).pending.finite();
            lemma_owed_remove(old(self).pending@, from);
            lemma_net(pay, agusd, inv.contract);
            if old(self).sound() {
                assert forall|a: Address| #[trigger]
                    pending_of(self.pending@, a).assets >= 0 by {
                    assert(pending_of(old(self).pending@, a).assets >= 0);
                }
            }
        }
        Ok(
            Receipt {
                value: p.assets,
                effects: Effects::none().call(pay).event(
                    Event::UnstakeClaimed(UnstakeClaimed { staker: from, assets: p.assets }),
                ),
            },
        )
    }

    /// Why `distribute_yield` is refused.
    pub open spec fn distribute_yield_fault(self, inv: Invocation, amount: i128) -> Option<
        Fault<StakingError>,
    > {
        if self.role.admin is None {
            Some(Fault::Trap(Trap::Absent))
        } else if !inv.signed(self.role.admin->0) {
            Some(Fault::Trap(Trap::Unauthorized))
        } else if amount <= 0 {
            Some(Fault::Error(StakingError::InvalidAmount))
        } else if self.agusd is None {
            Some(Fault::Error(StakingError::NotInitialized))
        } else if !fits(self.nav + amount) {
            Some(Fault::Trap(Trap::Overflow))
        } else {
            None
        }
    }

    /// The state after yield came in.
    pub open spec fn credited(self, after: Staking, amount: i128) -> bool {
        after == (Staking { nav: (self.nav + amount) as i128, ..self })
    }

    /// What `distribute_yield` answers, and what it leaves behind.
    pub open spec fn distribute_yield_step(
        self,
        after: Staking,
        inv: Invocation,
        amount: i128,
        r: Result<Receipt<()>, Fault<StakingError>>,
    ) -> bool {
        match r {
            Ok(d) => {
                let nav = (self.nav + amount) as i128;
                &&& self.distribute_yield_fault(inv, amount) is None
                &&& self.credited(after, amount)
                &&& d.gives(
                    (),
                    seq![
                        Call::Transfer {
                            token: self.agusd->0,
                            from: self.role.admin->0,
                            to: inv.contract,
                            amount,
                        },
                    ],
                    seq![
                        Event::YieldDistributed(
                            YieldDistributed { amount, nav, supply: self.token.supply },
                        ),
                    ],
                    seq![Rent::Instance],
                )
                &&& self.role.admin->0 != inv.contract ==> after.obligations()
                    == self.obligations() + net(
                    d.effects.calls@,
                    self.agusd->0,
                    inv.contract,
                )
                &&& self.sound() ==> after.unit_price() >= self.unit_price()
            },
            Err(f) => {
                &&& self.distribute_yield_fault(inv, amount) == Some(f)
                &&& after == self
            },
        }
    }

    /// Takes yield in from the admin and raises the nav by as much. Mints no
    /// shares.
    pub fn distribute_yield(&mut self, inv: &Invocation, amount: i128) -> (r: Result<
        Receipt<()>,
        Fault<StakingError>,
    >)
        ensures
            old(self).distribute_yield_step(*final(self), *inv, amount, r),
            old(self).sound() ==> final(self).sound(),
    {
        let admin: Address = match self.role.admin {
            Some(a) => a,
            None => {
                return Err(Fault::Trap(Trap::Absent));
            },
        };
        if !inv.authorized(admin) {
            return Err(Fault::Trap(Trap::Unauthorized));
        }
        if amount <= 0 {
            return Err(Fault::Error(StakingError::InvalidAmount));
        }
        let agusd: Address = match self.agusd {
            Some(a) => a,
            None => {
                return Err(Fault::Error(StakingError::NotInitialized));
            },
        };
        let nav: i128 = match plus(self.nav, amount) {
            Ok(z) => z,
            Err(t) => {
                return Err(Fault::Trap(t));
            },
        };
        let pull = Call::Transfer { token: agusd, from: admin, to: inv.contract, amount };
        proof {
            lemma_net(pull, agusd, inv.contract);
            if old(self).sound() {
                old(self).token.supply_covers_every_balance(admin);
                yield_never_lowers_the_rate(
                    self.nav as int,
                    self.token.supply as int,
                    amount as int,
                );
            }
        }
        self.nav = nav;
        Ok(
            Receipt {
                value: (),
                effects: Effects::none().call(pull).keep(Rent::Instance).event(
                    Event::YieldDistributed(
                        YieldDistributed { amount, nav, supply: self.token.total_supply() },
                    ),
                ),
            },
        )
    }

    /// What `set_allocations` answers, and what it leaves behind.
    pub open spec fn set_allocations_step(
        self,
        after: Staking,
        inv: Invocation,
        allocations: Vec<Allocation>,
        r: Result<Receipt<()>, Trap>,
    ) -> bool {
        match r {
            Ok(d) => {
                &&& self.role.admin is Some && inv.signed(self.role.admin->0)
                &&& after == (Staking { allocations, ..self })
                &&& d.gives((), seq![], seq![], seq![])
            },
            Err(t) => {
                &&& t == (if self.role.admin is None {
                    Trap::Absent
                } else {
                    Trap::Unauthorized
                })
                &&& self.role.admin is Some ==> !inv.signed(self.role.admin->0)
                &&& after == self
            },
        }
    }

    /// Records the off-chain strategies, for display.
    pub fn set_allocations(&mut self, inv: &Invocation, allocations: Vec<Allocation>) -> (r: Result<
        Receipt<()>,
        Trap,
    >)
        ensures
            old(self).set_allocations_step(*final(self), *inv, allocations, r),
            old(self).sound() ==> final(self).sound(),
    {
        let admin: Address = match self.role.admin {
            Some(a) => a,
            None => {
                return Err(Trap::Absent);
            },
        };
        if !inv.authorized(admin) {
            return Err(Trap::Unauthorized);
        }
        self.allocations = allocations;
        Ok(Receipt { value: (), effects: Effects::none() })
    }

    /// What `propose_admin` answers, and what it leaves behind.
    pub open spec fn propose_admin_step(
        self,
        after: Staking,
        inv: Invocation,
        admin: Address,
        new_admin: Address,
        r: Result<Receipt<()>, Fault<StakingError>>,
    ) -> bool {
        match r {
            Ok(d) => {
                &&& self.role.require_refusal(inv, admin) is None
                &&& after == (Staking {
                    role: self.role.proposed(new_admin),
                    ..self
                })
                &&& d.gives(
                    (),
                    seq![],
                    seq![Event::StakingAdminProposed(AdminProposed { new_admin })],
                    seq![Rent::Instance],
                )
            },
            Err(f) => {
                &&& self.role.require_refusal(inv, admin) is Some
                &&& f == Staking::denial(self.role.require_refusal(inv, admin)->0)
                &&& after == self
            },
        }
    }

    /// Offers the admin role to another address. Replaces any earlier offer.
    pub fn propose_admin(&mut self, inv: &Invocation, admin: Address, new_admin: Address) -> (r:
        Result<Receipt<()>, Fault<StakingError>>)
        ensures
            old(self).propose_admin_step(*final(self), *inv, admin, new_admin, r),
            old(self).sound() ==> final(self).sound(),
    {
        match self.role.require(inv, admin) {
            Ok(_) => {},
            Err(e) => {
                return Err(Staking::deny(e));
            },
        }
        self.role.pending = Some(new_admin);
        Ok(
            Receipt {
                value: (),
                effects: Effects::none().keep(Rent::Instance).event(
                    Event::StakingAdminProposed(AdminProposed { new_admin }),
                ),
            },
        )
    }

    /// What `accept_admin` answers, and what it leaves behind.
    pub open spec fn accept_admin_step(
        self,
        after: Staking,
        inv: Invocation,
        new_admin: Address,
        r: Result<Receipt<()>, Fault<StakingError>>,
    ) -> bool {
        match r {
            Ok(d) => {
                &&& self.role.accept_refusal(inv, new_admin) is None
                &&& after == (Staking {
                    role: self.role.accepted(new_admin),
                    ..self
                })
                &&& d.gives(
                    (),
                    seq![],
                    seq![Event::StakingAdminChanged(AdminChanged { admin: new_admin })],
                    seq![Rent::Instance],
                )
            },
            Err(f) => {
                &&& self.role.accept_refusal(inv, new_admin) is Some
                &&& f == Staking::denial(self.role.accept_refusal(inv, new_admin)->0)
                &&& after == self
            },
        }
    }

    /// Takes the offered admin role over.
    pub fn accept_admin(&mut self, inv: &Invocation, new_admin: Address) -> (r: Result<
        Receipt<()>,
        Fault<StakingError>,
    >)
        ensures
            old(self).accept_admin_step(*final(self), *inv, new_admin, r),
            old(self).sound() ==> final(self).sound(),
    {
        match self.role.require_pending(inv, new_admin) {
            Ok(_) => {},
            Err(e) => {
                return Err(Staking::deny(e));
            },
        }
        self.role.admin = Some(new_admin);
        self.role.pending = None;
        Ok(
            Receipt {
                value: (),
                effects: Effects::none().keep(Rent::Instance).event(
                    Event::StakingAdminChanged(AdminChanged { admin: new_admin }),
                ),
            },
        )
    }

    /// The address that has been offered the role and has not accepted yet.
    pub fn pending_admin(&self) -> (a: Option<Address>)
        ensures
            a == self.role.pending,
    {
        self.role.pending
    }

    // ---- views ----

    /// The agUSD behind the shares.
    pub fn nav(&self) -> (n: i128)
        ensures
            n == self.nav,
    {
        self.nav
    }

    /// How many shares there are.
    pub fn total_shares(&self) -> (n: i128)
        ensures
            n == self.token.supply,
    {
        self.token.total_supply()
    }

    /// The share price as a number.
    pub open spec fn unit_price(self) -> int {
        rate(self.nav as int, self.token.supply as int)
    }

    /// What `exchange_rate` answers.
    pub open spec fn exchange_rate_answer(
        self,
    ) -> Result<i128, Trap> {
        if self.token.supply != 0 && !(fits(self.nav * ONE) && fits(self.unit_price())) {
            Err::<i128, Trap>(Trap::Overflow)
        } else {
            Ok(self.unit_price() as i128)
        }
    }

    /// agUSD per share at seven decimals. One while there are no shares.
    pub fn exchange_rate(&self) -> (r: Result<i128, Trap>)
        ensures
            r == self.exchange_rate_answer(),
    {
        let supply: i128 = self.token.total_supply();
        if supply == 0 {
            Ok(ONE)
        } else {
            match times(self.nav, ONE) {
                Ok(product) => over(product, supply),
                Err(t) => Err(t),
            }
        }
    }

    /// What `share_price` answers.
    pub open spec fn share_price_answer(
        self,
    ) -> Result<i128, Trap> {
        if self.token.supply != 0 && !(fits(self.nav * ONE) && fits(self.unit_price())) {
            Err::<i128, Trap>(Trap::Overflow)
        } else {
            Ok(self.unit_price() as i128)
        }
    }

    /// [`Staking::exchange_rate`] under its other name.
    pub fn share_price(&self) -> (r: Result<i128, Trap>)
        ensures
            r == self.share_price_answer(),
    {
        self.exchange_rate()
    }

    /// What is recorded as owed to an address.
    pub fn pending(&self, addr: Address) -> (p: Pending)
        ensures
            p == pending_of(self.pending@, addr),
    {
        match self.pending.get(addr) {
            Some(p) => p,
            None => Pending { assets: 0, claimable_at: 0 },
        }
    }

    /// The unstake cooldown in seconds.
    pub fn cooldown(&self) -> (n: u64)
        ensures
            n == (match self.cooldown {
                Some(c) => c,
                None => 0,
            }),
    {
        match self.cooldown {
            Some(c) => c,
            None => 0,
        }
    }

    /// The recorded strategies.
    pub fn allocations(&self) -> (a: &Vec<Allocation>)
        ensures
            *a == self.allocations,
    {
        &self.allocations
    }

    /// The accepted token.
    pub fn agusd(&self) -> (r: Result<Address, Trap>)
        ensures
            r == (match self.agusd {
                Some(a) => Ok::<Address, Trap>(a),
                None => Err(Trap::Absent),
            }),
    {
        match self.agusd {
            Some(a) => Ok(a),
            None => Err(Trap::Absent),
        }
    }

    /// The admin.
    pub fn admin(&self) -> (r: Result<Address, Trap>)
        ensures
            r == (match self.role.admin {
                Some(a) => Ok::<Address, Trap>(a),
                None => Err(Trap::Absent),
            }),
    {
        match self.role.admin {
            Some(a) => Ok(a),
            None => Err(Trap::Absent),
        }
    }

    /// How many stakes were ever taken.
    pub fn stakes(&self) -> (n: u64)
        ensures
            n == self.stakes,
    {
        self.stakes
    }

    // ---- the token itself ----

    /// What an address holds.
    pub fn balance(&self, id: Address) -> (n: i128)
        ensures
            n == self.token.holds(id),
    {
        self.token.balance(id)
    }

    /// Moves tokens, with the holder's authorization.
    pub fn transfer(
        &mut self,
        inv: &Invocation,
        from: Address,
        to: Address,
        amount: i128,
    ) -> (r: Result<Receipt<()>, Trap>)
        ensures
            old(self).token.transfer_step(final(self).token, *inv, from, to, amount, r),
            *final(self) == (Staking { token: final(self).token, ..*old(self) }),
            old(self).sound() ==> final(self).sound(),
    {
        self.token.transfer(inv, from, to, amount)
    }

    /// Moves tokens out of an allowance.
    pub fn transfer_from(
        &mut self,
        inv: &Invocation,
        spender: Address,
        from: Address,
        to: Address,
        amount: i128,
    ) -> (r: Result<Receipt<()>, Trap>)
        ensures
            old(self).token.transfer_from_step(final(self).token, *inv, spender, from, to, amount, r),
            *final(self) == (Staking { token: final(self).token, ..*old(self) }),
            old(self).sound() ==> final(self).sound(),
    {
        self.token.transfer_from(inv, spender, from, to, amount)
    }

    /// Grants an allowance.
    pub fn approve(
        &mut self,
        inv: &Invocation,
        from: Address,
        spender: Address,
        amount: i128,
        expiration_ledger: u32,
    ) -> (r: Result<Receipt<()>, Trap>)
        ensures
            old(self).token.approve_step(final(self).token, *inv, from, spender, amount, expiration_ledger, r),
            *final(self) == (Staking { token: final(self).token, ..*old(self) }),
            old(self).sound() ==> final(self).sound(),
    {
        self.token.approve(inv, from, spender, amount, expiration_ledger)
    }

    /// What `spender` may still spend of `from`'s balance.
    pub fn allowance(&self, inv: &Invocation, from: Address, spender: Address) -> (n: i128)
        ensures
            n == self.token.allowed(inv.sequence, from, spender),
    {
        self.token.allowance(inv, from, spender)
    }

    /// The number of decimals.
    pub fn decimals(&self) -> (r: Result<u32, Trap>)
        ensures
            r == (match self.token.metadata {
                Some(m) => Ok::<u32, Trap>(m.decimal),
                None => Err(Trap::Absent),
            }),
    {
        self.token.decimals()
    }

    /// The name.
    pub fn name(&self) -> (r: Result<String, Trap>)
        ensures
            match r {
                Ok(name) => self.token.metadata is Some && name@ == self.token.metadata->0.name@,
                Err(t) => self.token.metadata is None && t == Trap::Absent,
            },
    {
        self.token.name()
    }

    /// The symbol.
    pub fn symbol(&self) -> (r: Result<String, Trap>)
        ensures
            match r {
                Ok(symbol) => {
                    &&& self.token.metadata is Some
                    &&& symbol@ == self.token.metadata->0.symbol@
                },
                Err(t) => self.token.metadata is None && t == Trap::Absent,
            },
    {
        self.token.symbol()
    }

    /// How many tokens there are.
    pub fn total_supply(&self) -> (n: i128)
        ensures
            n == self.token.supply,
    {
        self.token.total_supply()
    }
}

/// One transaction on the staking contract and on the agUSD it holds.
pub enum StakingStep {
    Stake { inv: Invocation, from: Address, amount: i128 },
    RequestUnstake { inv: Invocation, from: Address, shares: i128 },
    Claim { inv: Invocation, from: Address },
    DistributeYield { inv: Invocation, amount: i128 },
    /// Shares changed hands.
    PayShares { from: Address, to: Address, amount: i128 },
    /// agUSD of somebody else's changed hands.
    PayAgUsd { from: Address, to: Address, amount: i128 },
    /// agUSD came into being.
    IssueAgUsd { to: Address, amount: i128 },
    /// agUSD of somebody else's ceased to be.
    RetireAgUsd { from: Address, amount: i128 },
    /// The admin role, the recorded strategies or an allowance on shares
    /// changed.
    Configure,
}

impl Staking {
    /// What a transaction that succeeds does to the contract at `at` and to
    /// its agUSD.
    pub open spec fn steps(
        self,
        after: Staking,
        agusd: Token,
        agusd_after: Token,
        at: Address,
        step: StakingStep,
    ) -> bool {
        match step {
            StakingStep::Stake { inv, from, amount } => {
                &&& inv.contract == at && from != at
                &&& self.stake_fault(inv, from, amount) is None
                &&& self.staked(after, from, amount)
                &&& agusd.pays(agusd_after, from, at, amount)
            },
            StakingStep::RequestUnstake { inv, from, shares } => {
                &&& inv.contract == at
                &&& self.request_unstake_fault(inv, from, shares) is None
                &&& self.unstaked(
                    after,
                    from,
                    shares,
                    (inv.timestamp + self.cooldown->0) as u64,
                )
                &&& agusd_after == agusd
            },
            StakingStep::Claim { inv, from } => {
                &&& inv.contract == at && from != at
                &&& self.claim_fault(inv, from) is None
                &&& self.claimed(after, from)
                &&& agusd.pays(agusd_after, at, from, pending_of(self.pending@, from).assets)
            },
            StakingStep::DistributeYield { inv, amount } => {
                &&& inv.contract == at && self.role.admin->0 != at
                &&& self.distribute_yield_fault(inv, amount) is None
                &&& self.credited(after, amount)
                &&& agusd.pays(agusd_after, self.role.admin->0, at, amount)
            },
            StakingStep::PayShares { from, to, amount } => {
                &&& self.token.pays(after.token, from, to, amount)
                &&& after == (Staking { token: after.token, ..self })
                &&& agusd_after == agusd
            },
            StakingStep::PayAgUsd { from, to, amount } => {
                &&& from != at
                &&& agusd.pays(agusd_after, from, to, amount)
                &&& after == self
            },
            StakingStep::IssueAgUsd { to, amount } => {
                &&& agusd.issues(agusd_after, to, amount)
                &&& after == self
            },
            StakingStep::RetireAgUsd { from, amount } => {
                &&& from != at
                &&& agusd.retires(agusd_after, from, amount)
                &&& after == self
            },
            StakingStep::Configure => {
                &&& after == (Staking {
                    role: after.role,
                    allocations: after.allocations,
                    token: Token { allowances: after.token.allowances, ..self.token },
                    ..self
                })
                &&& agusd_after == agusd
            },
        }
    }
}

/// What somebody simply gave the contract, without calling it.
pub open spec fn given(step: StakingStep, at: Address) -> int {
    match step {
        StakingStep::PayAgUsd { to, amount, .. } => if to == at {
            amount as int
        } else {
            0
        },
        StakingStep::IssueAgUsd { to, amount } => if to == at {
            amount as int
        } else {
            0
        },
        _ => 0,
    }
}

/// Whatever is called, the agUSD the contract holds moves with the nav and
/// what departed stakers are owed, and with nothing else but what it is given.
/// The share price never falls while there are shares.
pub proof fn the_balance_follows_the_nav_and_what_is_owed(
    before: Staking,
    after: Staking,
    agusd: Token,
    agusd_after: Token,
    at: Address,
    step: StakingStep,
)
    requires
        before.sound(),
        agusd.sound(),
        before.steps(after, agusd, agusd_after, at, step),
    ensures
        after.sound(),
        agusd_after.sound(),
        agusd_after.holds(at) - after.obligations() == agusd.holds(at) - before.obligations()
            + given(step, at),
        after.token.supply > 0 ==> after.unit_price() >= before.unit_price(),
{
    before.pending.finite();
    match step {
        StakingStep::Stake { inv, from, amount } => {
            let shares = shares_for(
                amount as int,
                before.token.supply as int,
                before.nav as int,
            ) as i128;
            agusd.a_payment_brings_what_it_says(agusd_after, from, at, amount, at);
            before.token.an_issue_brings_what_it_says(after.token, from, shares, at);
            before.token.supply_covers_every_balance(from);
            a_stake_never_lowers_the_rate(
                before.nav as int,
                before.token.supply as int,
                amount as int,
            );
        },
        StakingStep::RequestUnstake { inv, from, shares } => {
            let nav = before.nav as int;
            let supply = before.token.supply as int;
            before.token.supply_covers_every_balance(from);
            before.token.a_retirement_takes_what_it_says(after.token, from, shares, at);
            lemma_assets_within(nav, supply, shares as int);
            lemma_owed_insert(before.pending@, from, after.pending@[from]);
            if shares < supply {
                an_unstake_never_lowers_the_rate(nav, supply, shares as int);
            }
            assert forall|a: Address| #[trigger] pending_of(after.pending@, a).assets >= 0 by {
                assert(pending_of(before.pending@, a).assets >= 0);
                assert(pending_of(before.pending@, from).assets >= 0);
            }
        },
        StakingStep::Claim { inv, from } => {
            lemma_owed_remove(before.pending@, from);
            agusd.a_payment_brings_what_it_says(
                agusd_after,
                at,
                from,
                pending_of(before.pending@, from).assets,
                at,
            );
            assert forall|a: Address| #[trigger] pending_of(after.pending@, a).assets >= 0 by {
                assert(pending_of(before.pending@, a).assets >= 0);
            }
        },
        StakingStep::DistributeYield { inv, amount } => {
            let admin = before.role.admin->0;
            agusd.a_payment_brings_what_it_says(agusd_after, admin, at, amount, at);
            before.token.supply_covers_every_balance(admin);
            yield_never_lowers_the_rate(
                before.nav as int,
                before.token.supply as int,
                amount as int,
            );
        },
        StakingStep::PayShares { from, to, amount } => {
            before.token.a_payment_brings_what_it_says(after.token, from, to, amount, at);
        },
        StakingStep::PayAgUsd { from, to, amount } => {
            agusd.a_payment_brings_what_it_says(agusd_after, from, to, amount, at);
        },
        StakingStep::IssueAgUsd { to, amount } => {
            agusd.an_issue_brings_what_it_says(agusd_after, to, amount, at);
        },
        StakingStep::RetireAgUsd { from, amount } => {
            agusd.a_retirement_takes_what_it_says(agusd_after, from, amount, at);
        },
        StakingStep::Configure => {},
    }
}

/// At every point of every history in which nobody simply gives the contract
/// agUSD, it holds exactly the nav and what departed stakers are owed.
pub proof fn the_balance_is_the_nav_and_what_is_owed(
    history: Seq<(Staking, Token)>,
    steps: Seq<StakingStep>,
    at: Address,
    now: int,
)
    requires
        history.len() == steps.len() + 1,
        history[0].0.sound() && history[0].1.sound(),
        history[0].1.holds(at) == history[0].0.obligations(),
        forall|i: int|
            0 <= i < steps.len() ==> (#[trigger] history[i]).0.steps(
                history[i + 1].0,
                history[i].1,
                history[i + 1].1,
                at,
                steps[i],
            ) && given(steps[i], at) == 0,
        0 <= now < history.len(),
    ensures
        history[now].0.sound() && history[now].1.sound(),
        history[now].1.holds(at) == history[now].0.obligations(),
    decreases now,
{
    if now > 0 {
        let i = now - 1;
        the_balance_is_the_nav_and_what_is_owed(history, steps, at, i);
        assert(history[i].0.steps(
            history[i + 1].0,
            history[i].1,
            history[i + 1].1,
            at,
            steps[i],
        ) && given(steps[i], at) == 0);
        the_balance_follows_the_nav_and_what_is_owed(
            history[i].0,
            history[now].0,
            history[i].1,
            history[now].1,
            at,
            steps[i],
        );
    }
}

/// Once the contract has taken a stake or yield, the token it accepts stands.
pub proof fn custody_fixes_the_accepted_token(
    before: Staking,
    after: Staking,
    by: Invocation,
    from: Address,
    amount: i128,
    inv: Invocation,
    admin: Address,
    holding: Result<i128, InvokeError>,
)
    requires
        before.sound(),
        (before.stake_fault(by, from, amount) is None && before.staked(after, from, amount)) || (
        before.distribute_yield_fault(by, amount) is None && before.credited(after, amount)),
    ensures
        after.set_agusd_fault(inv, admin, holding) is Some,
{
}

} // verus!
