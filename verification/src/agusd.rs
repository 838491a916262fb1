//! The first agUSD: a synthetic dollar that keeps its own reserve.
//!
//! Minted one for one against USDC. A buffer of the supply stays here for
//! instant redemption, and what exceeds it is deployed into credit vaults at
//! target weights after every movement. Rebalancing alternates between asking
//! the vaults and deciding: a [`Stage`] says how far it has come, what comes
//! next follows from the stage, and the reply to it gives the next stage.

use crate::address::Address;
use crate::host::{Call, Effects, Event, Fault, Invocation, InvokeError, Receipt, Rent, Trap};
use crate::math::{fits, lemma_quotient_shrinks, minus, over, plus, quotient, smaller, times, BPS};
use crate::token::{moved, AllowanceDataKey, AllowanceValue, Token, TokenMetadata};
use vstd::prelude::*;

verus! {

/// A vault share price of one, at seven decimals.
pub const SHARE_ONE: i128 = 10_000_000;

/// Movements of less than a tenth of a dollar are not worth making.
pub const MIN_ALLOC: i128 = 1_000_000;

/// The buffer where none was configured, in bps of the supply.
pub const DEFAULT_BUFFER_BPS: u32 = 2_000;

/// What the contract refuses beyond what every token does.
#[derive(Clone, Copy, Debug, PartialEq, Eq, Structural)]
pub enum AgUsdError {
    /// The redemption exceeds the instant-liquidity buffer.
    InsufficientBuffer,
}

impl AgUsdError {
    /// The code the ledger reports.
    pub open spec fn number(self) -> u32 {
        match self {
            AgUsdError::InsufficientBuffer => 100,
        }
    }

    /// The code the ledger reports.
    pub fn code(self) -> (n: u32)
        ensures
            n == self.number(),
    {
        match self {
            AgUsdError::InsufficientBuffer => 100,
        }
    }
}

/// A credit vault, and its share of what is deployed.
#[derive(Clone, Copy, Debug, PartialEq, Eq, Structural)]
pub struct Target {
    pub vault: Address,
    pub weight_bps: u32,
}

/// A part of a shortfall, and the vault to draw it from.
#[derive(Clone, Copy, Debug, PartialEq, Eq, Structural)]
pub struct Draw {
    pub vault: Address,
    pub part: i128,
}

/// What a vault says of a position in it.
#[derive(Clone, Copy, Debug, PartialEq, Eq, Structural)]
pub struct Quote {
    pub balance: i128,
    pub share_price: i128,
}

/// How far a rebalance has come.
pub enum Stage {
    /// The targets before this one are harvested. Once all are, the reserve is
    /// read.
    Harvest { next: usize },
    /// The stakes before this one are made.
    Deploy { calls: Vec<Call>, next: usize },
    /// The draws before this one are dealt with.
    Refill { parts: Vec<Draw>, next: usize },
    /// This draw has been priced, and its request is to be made.
    Request { parts: Vec<Draw>, next: usize, call: Call },
    /// There was nothing to move.
    Done,
}

/// What a rebalance asks for next.
#[derive(Clone, Copy, Debug, PartialEq, Eq, Structural)]
pub enum Action {
    /// Make a call, and go on whatever comes of it.
    Attempt(Call),
    /// Make a call. If it fails, so does the transaction.
    Make(Call),
    /// Ask USDC what the reserve holds.
    AskReserve,
    /// Ask a vault what it says of the position in it. If it does not answer,
    /// the transaction fails.
    AskQuote { vault: Address },
    /// Nothing more.
    Finish,
}

/// What came of it.
#[derive(Clone, Copy, Debug, PartialEq, Eq)]
pub enum Reply {
    /// The call was made, or was passed over.
    Called,
    /// What USDC said.
    Reserve(Result<i128, InvokeError>),
    /// What the vault said.
    Quoted(Quote),
}

/// Whether a reply is one to what was asked for.
pub open spec fn answers(action: Action, reply: Reply) -> bool {
    match action {
        Action::Attempt(_) => reply is Called,
        Action::Make(_) => reply is Called,
        Action::AskReserve => reply is Reserve,
        Action::AskQuote { .. } => reply is Quoted,
        Action::Finish => false,
    }
}

/// The storage of the contract.
#[derive(Clone)]
pub struct AgUsd {
    pub admin: Option<Address>,
    pub usdc: Option<Address>,
    pub treasury: Option<Address>,
    pub targets: Vec<Target>,
    pub buffer_bps: Option<u32>,
    pub token: Token,
}

/// A target's part of an amount.
pub open spec fn share_of(amount: int, t: Target) -> int {
    quotient(amount * t.weight_bps, BPS as int)
}

/// Whether splitting an amount leaves the 128-bit range at some target.
pub open spec fn split_overflows(amount: int, targets: Seq<Target>) -> bool {
    exists|i: int| 0 <= i < targets.len() && !fits(amount * (#[trigger] targets[i]).weight_bps)
}

/// The stakes that deploy an amount: one per target with a part in it.
pub open spec fn stakes(amount: int, targets: Seq<Target>, from: Address) -> Seq<Call>
    decreases targets.len(),
{
    if targets.len() == 0 {
        seq![]
    } else {
        let t = targets.last();
        let rest = stakes(amount, targets.drop_last(), from);
        if share_of(amount, t) > 0 {
            rest.push(Call::Stake { vault: t.vault, from, amount: share_of(amount, t) as i128 })
        } else {
            rest
        }
    }
}

/// The draws that refill an amount: one per target with a part in it.
pub open spec fn draws(amount: int, targets: Seq<Target>) -> Seq<Draw>
    decreases targets.len(),
{
    if targets.len() == 0 {
        seq![]
    } else {
        let t = targets.last();
        let rest = draws(amount, targets.drop_last());
        if share_of(amount, t) > 0 {
            rest.push(Draw { vault: t.vault, part: share_of(amount, t) as i128 })
        } else {
            rest
        }
    }
}

/// The claims that harvest every target.
pub open spec fn claims(targets: Seq<Target>, from: Address) -> Seq<Call> {
    targets.map_values(|t: Target| Call::Claim { vault: t.vault, from })
}

/// The request that a draw comes to at a quote: for what the part is worth in
/// shares, and for no more than are held. None where there is nothing to ask
/// for.
pub open spec fn drawn(draw: Draw, quote: Quote, from: Address) -> Result<Option<Call>, Trap> {
    let shares = smaller(
        quotient(draw.part * SHARE_ONE, quote.share_price as int),
        quote.balance as int,
    );
    if quote.share_price <= 0 || quote.balance <= 0 {
        Ok(None)
    } else if !fits(draw.part * SHARE_ONE) {
        Err(Trap::Overflow)
    } else if shares > 0 {
        Ok(Some(Call::RequestUnstake { vault: draw.vault, from, shares: shares as i128 }))
    } else {
        Ok(None)
    }
}

/// What the targets' weights add up to.
pub open spec fn weights(targets: Seq<Target>) -> int
    decreases targets.len(),
{
    if targets.len() == 0 {
        0
    } else {
        weights(targets.drop_last()) + targets.last().weight_bps
    }
}

/// What a list of stakes adds up to.
pub open spec fn staked(calls: Seq<Call>) -> int
    decreases calls.len(),
{
    if calls.len() == 0 {
        0
    } else {
        staked(calls.drop_last()) + (match calls.last() {
            Call::Stake { amount, .. } => amount as int,
            _ => 0,
        })
    }
}

/// What positions are worth at the prices quoted for them. Nothing where the
/// running sum leaves the 128-bit range on the way.
pub open spec fn worth(quotes: Seq<Quote>) -> Option<int>
    decreases quotes.len(),
{
    if quotes.len() == 0 {
        Some(0)
    } else {
        let q = quotes.last();
        let value = quotient(q.balance * q.share_price, SHARE_ONE as int);
        match worth(quotes.drop_last()) {
            None => None,
            Some(sum) => if fits(q.balance * q.share_price) && fits(sum + value) {
                Some(sum + value)
            } else {
                None
            },
        }
    }
}

/// A walk that stops stays stopped.
proof fn lemma_worth_stuck(quotes: Seq<Quote>, i: int)
    requires
        0 <= i <= quotes.len(),
        worth(quotes.take(i)) is None,
    ensures
        worth(quotes) is None,
    decreases quotes.len() - i,
{
    if i == quotes.len() {
        assert(quotes.take(i) =~= quotes);
    } else {
        assert(quotes.take(i + 1).drop_last() =~= quotes.take(i));
        lemma_worth_stuck(quotes, i + 1);
    }
}

/// A part of an amount that fits, fits.
proof fn lemma_share_fits(amount: int, t: Target)
    requires
        fits(amount * t.weight_bps),
    ensures
        fits(share_of(amount, t)),
        amount >= 0 ==> share_of(amount, t) >= 0,
        amount >= 0 ==> share_of(amount, t) * BPS <= amount * t.weight_bps,
{
    let x = amount * t.weight_bps;
    lemma_quotient_shrinks(x, BPS as int);
    assert(amount >= 0 ==> x >= 0) by (nonlinear_arith)
        requires
            x == amount * t.weight_bps,
    ;
}

/// Deploying an excess at weights that add up to no more than the whole never
/// stakes more than the excess, so the buffer is left at its target or above.
pub proof fn deploying_leaves_the_buffer(excess: int, targets: Seq<Target>, from: Address)
    requires
        excess >= 0,
        weights(targets) <= BPS,
        !split_overflows(excess, targets),
    ensures
        0 <= staked(stakes(excess, targets, from)) <= excess,
{
    lemma_staked_share(excess, targets, from);
    let s = staked(stakes(excess, targets, from));
    let w = weights(targets);
    assert(s <= excess) by (nonlinear_arith)
        requires
            s * 10_000 <= excess * w,
            w <= 10_000,
            excess >= 0,
    ;
}

proof fn lemma_staked_share(excess: int, targets: Seq<Target>, from: Address)
    requires
        excess >= 0,
        !split_overflows(excess, targets),
    ensures
        0 <= staked(stakes(excess, targets, from)),
        staked(stakes(excess, targets, from)) * BPS <= excess * weights(targets),
    decreases targets.len(),
{
    if targets.len() > 0 {
        let rest = targets.drop_last();
        let t = targets.last();
        assert(!split_overflows(excess, rest)) by {
            assert forall|i: int| 0 <= i < rest.len() implies fits(
                excess * (#[trigger] rest[i]).weight_bps,
            ) by {
                assert(rest[i] == targets[i]);
            }
        }
        lemma_staked_share(excess, rest, from);
        assert(fits(excess * targets[targets.len() - 1].weight_bps));
        lemma_share_fits(excess, t);
        let q = stakes(excess, rest, from);
        let c = Call::Stake { vault: t.vault, from, amount: share_of(excess, t) as i128 };
        assert(q.push(c).drop_last() =~= q);
        assert(excess * (weights(rest) + t.weight_bps) == excess * weights(rest) + excess
            * t.weight_bps) by (nonlinear_arith);
    }
}

/// Deploying an excess at weights that add up to the whole leaves less than
/// one unit per target of it behind.
pub proof fn deploying_leaves_only_dust(excess: int, targets: Seq<Target>, from: Address)
    requires
        excess >= 0,
        targets.len() > 0,
        weights(targets) == BPS,
        !split_overflows(excess, targets),
    ensures
        staked(stakes(excess, targets, from)) > excess - targets.len(),
{
    lemma_staked_dust(excess, targets, from);
}

proof fn lemma_staked_dust(excess: int, targets: Seq<Target>, from: Address)
    requires
        excess >= 0,
        !split_overflows(excess, targets),
    ensures
        staked(stakes(excess, targets, from)) * BPS + targets.len() * (BPS - 1) >= excess * weights(
            targets,
        ),
    decreases targets.len(),
{
    if targets.len() > 0 {
        let rest = targets.drop_last();
        let t = targets.last();
        assert(!split_overflows(excess, rest)) by {
            assert forall|i: int| 0 <= i < rest.len() implies fits(
                excess * (#[trigger] rest[i]).weight_bps,
            ) by {
                assert(rest[i] == targets[i]);
            }
        }
        lemma_staked_dust(excess, rest, from);
        assert(fits(excess * targets[targets.len() - 1].weight_bps));
        lemma_share_fits(excess, t);
        let part = excess * t.weight_bps;
        assert(part >= 0) by (nonlinear_arith)
            requires
                part == excess * t.weight_bps,
                excess >= 0,
        ;
        assert(share_of(excess, t) * BPS + (BPS - 1) >= part);
        let q = stakes(excess, rest, from);
        let c = Call::Stake { vault: t.vault, from, amount: share_of(excess, t) as i128 };
        assert(q.push(c).drop_last() =~= q);
        assert(excess * (weights(rest) + t.weight_bps) == excess * weights(rest) + excess
            * t.weight_bps) by (nonlinear_arith);
    }
}

/// A rebalance moves funds to nobody but the targets: each stake it makes is
/// in the contract's own name, in a target's vault, of that target's part.
pub proof fn a_rebalance_stakes_only_with_the_targets(
    excess: int,
    targets: Seq<Target>,
    from: Address,
    i: int,
)
    requires
        0 <= i < stakes(excess, targets, from).len(),
    ensures
        exists|k: int|
            0 <= k < targets.len() && stakes(excess, targets, from)[i] == (Call::Stake {
                vault: (#[trigger] targets[k]).vault,
                from,
                amount: share_of(excess, targets[k]) as i128,
            }),
    decreases targets.len(),
{
    let rest = targets.drop_last();
    if i < stakes(excess, rest, from).len() {
        a_rebalance_stakes_only_with_the_targets(excess, rest, from, i);
        let k = choose|k: int|
            0 <= k < rest.len() && stakes(excess, rest, from)[i] == (Call::Stake {
                vault: (#[trigger] rest[k]).vault,
                from,
                amount: share_of(excess, rest[k]) as i128,
            });
        assert(targets[k] == rest[k]);
    } else {
        assert(targets[targets.len() - 1] == targets.last());
    }
}

impl AgUsd {
    /// What every call keeps: sound books.
    pub open spec fn sound(self) -> bool {
        self.token.sound()
    }

    /// The buffer, in bps of the supply.
    pub open spec fn buffer(self) -> u32 {
        match self.buffer_bps {
            Some(b) => b,
            None => DEFAULT_BUFFER_BPS,
        }
    }

    /// The reserve that the buffer asks for.
    pub open spec fn buffer_target(self) -> int {
        quotient(self.token.supply * self.buffer(), BPS as int)
    }

    /// Why the caller may not act as admin.
    pub open spec fn admin_trap(self, inv: Invocation) -> Option<Trap> {
        match self.admin {
            None => Some(Trap::Absent),
            Some(admin) => if !inv.signed(admin) {
                Some(Trap::Unauthorized)
            } else {
                None
            },
        }
    }

    fn require_admin(&self, inv: &Invocation) -> (r: Result<(), Trap>)
        ensures
            match r {
                Ok(_) => self.admin_trap(*inv) is None,
                Err(t) => self.admin_trap(*inv) == Some(t),
            },
    {
        match self.admin {
            None => Err(Trap::Absent),
            Some(admin) => if !inv.authorized(admin) {
                Err(Trap::Unauthorized)
            } else {
                Ok(())
            },
        }
    }

    /// A contract nobody has set up yet.
    pub fn empty() -> (a: AgUsd)
        ensures
            a.admin is None && a.usdc is None && a.treasury is None && a.buffer_bps is None,
            a.targets@.len() == 0,
            a.token.balances@ == Map::<Address, i128>::empty(),
            a.token.allowances@ == Map::<AllowanceDataKey, AllowanceValue>::empty(),
            a.token.supply == 0,
            a.token.metadata is None,
            a.sound(),
    {
        AgUsd {
            admin: None,
            usdc: None,
            treasury: None,
            targets: Vec::new(),
            buffer_bps: None,
            token: Token::empty(),
        }
    }

    /// What `initialize` answers, and what it leaves behind.
    pub open spec fn initialize_step(
        self,
        after: AgUsd,
        admin: Address,
        usdc: Address,
        treasury: Address,
        buffer_bps: u32,
        metadata: TokenMetadata,
        d: Receipt<()>,
    ) -> bool {
        &&& after == (AgUsd {
            admin: Some(admin),
            usdc: Some(usdc),
            treasury: Some(treasury),
            buffer_bps: Some(buffer_bps),
            token: Token { metadata: Some(metadata), ..self.token },
            ..self
        })
        &&& d.gives((), seq![], seq![], seq![Rent::Instance])
    }

    /// Records the admin, the USDC, the treasury, the buffer and the metadata.
    pub fn initialize(
        &mut self,
        admin: Address,
        usdc: Address,
        treasury: Address,
        buffer_bps: u32,
        decimal: u32,
        name: String,
        symbol: String,
    ) -> (d: Receipt<()>)
        ensures
            old(self).initialize_step(
                *final(self),
                admin,
                usdc,
                treasury,
                buffer_bps,
                TokenMetadata { decimal, name, symbol },
                d,
            ),
            old(self).sound() ==> final(self).sound(),
    {
        self.admin = Some(admin);
        self.usdc = Some(usdc);
        self.treasury = Some(treasury);
        self.buffer_bps = Some(buffer_bps);
        self.token.set_metadata(decimal, name, symbol);
        Receipt { value: (), effects: Effects::none().keep(Rent::Instance) }
    }

    /// What `set_targets` answers, and what it leaves behind.
    pub open spec fn set_targets_step(
        self,
        after: AgUsd,
        inv: Invocation,
        targets: Vec<Target>,
        r: Result<Receipt<()>, Trap>,
    ) -> bool {
        match r {
            Ok(d) => {
                &&& self.admin_trap(inv) is None
                &&& after == (AgUsd { targets, ..self })
                &&& d.gives((), seq![], seq![], seq![])
            },
            Err(t) => {
                &&& self.admin_trap(inv) == Some(t)
                &&& after == self
            },
        }
    }

    /// Sets the vaults and weights that the excess is deployed at.
    pub fn set_targets(&mut self, inv: &Invocation, targets: Vec<Target>) -> (r: Result<
        Receipt<()>,
        Trap,
    >)
        ensures
            old(self).set_targets_step(*final(self), *inv, targets, r),
            old(self).sound() ==> final(self).sound(),
    {
        match self.require_admin(inv) {
            Ok(_) => {},
            Err(t) => {
                return Err(t);
            },
        }
        self.targets = targets;
        Ok(Receipt { value: (), effects: Effects::none() })
    }

    /// What `set_buffer_bps` answers, and what it leaves behind.
    pub open spec fn set_buffer_bps_step(
        self,
        after: AgUsd,
        inv: Invocation,
        buffer_bps: u32,
        r: Result<Receipt<()>, Trap>,
    ) -> bool {
        match r {
            Ok(d) => {
                &&& self.admin_trap(inv) is None
                &&& after == (AgUsd { buffer_bps: Some(buffer_bps), ..self })
                &&& d.gives((), seq![], seq![], seq![])
            },
            Err(t) => {
                &&& self.admin_trap(inv) == Some(t)
                &&& after == self
            },
        }
    }

    /// Sets the buffer, in bps of the supply.
    pub fn set_buffer_bps(&mut self, inv: &Invocation, buffer_bps: u32) -> (r: Result<
        Receipt<()>,
        Trap,
    >)
        ensures
            old(self).set_buffer_bps_step(*final(self), *inv, buffer_bps, r),
            old(self).sound() ==> final(self).sound(),
    {
        match self.require_admin(inv) {
            Ok(_) => {},
            Err(t) => {
                return Err(t);
            },
        }
        self.buffer_bps = Some(buffer_bps);
        Ok(Receipt { value: (), effects: Effects::none() })
    }

    /// Why `deposit` is refused.
    pub open spec fn deposit_trap(self, inv: Invocation, from: Address, amount: i128) -> Option<
        Trap,
    > {
        if !inv.signed(from) {
            Some(Trap::Unauthorized)
        } else if amount <= 0 {
            Some(Trap::BadArgument)
        } else if self.usdc is None {
            Some(Trap::Absent)
        } else {
            self.token.mint_trap(from, amount)
        }
    }

    /// What `deposit` answers, and what it leaves behind.
    pub open spec fn deposit_step(
        self,
        after: AgUsd,
        inv: Invocation,
        from: Address,
        amount: i128,
        r: Result<Receipt<Stage>, Trap>,
    ) -> bool {
        match r {
            Ok(d) => {
                &&& self.deposit_trap(inv, from, amount) is None
                &&& after.token.balances@ == moved(
                    self.token.balances@,
                    from,
                    amount as int,
                )
                &&& after == (AgUsd {
                    token: Token {
                        balances: after.token.balances,
                        supply: (self.token.supply + amount) as i128,
                        ..self.token
                    },
                    ..self
                })
                &&& d.gives(
                    after.begun(),
                    seq![
                        Call::Transfer {
                            token: self.usdc->0,
                            from,
                            to: inv.contract,
                            amount,
                        },
                    ],
                    seq![Event::Mint { to: from, amount }],
                    seq![Rent::Instance, Rent::Balance { of: from }],
                )
            },
            Err(t) => {
                &&& self.deposit_trap(inv, from, amount) == Some(t)
                &&& after == self
            },
        }
    }

    /// Takes USDC in and mints as much agUSD. The rebalance that follows in the
    /// same transaction is what is returned, at its beginning.
    pub fn deposit(&mut self, inv: &Invocation, from: Address, amount: i128) -> (r: Result<
        Receipt<Stage>,
        Trap,
    >)
        ensures
            old(self).deposit_step(*final(self), *inv, from, amount, r),
            old(self).sound() ==> final(self).sound(),
    {
        if !inv.authorized(from) {
            return Err(Trap::Unauthorized);
        }
        if amount <= 0 {
            return Err(Trap::BadArgument);
        }
        let usdc: Address = match self.usdc {
            Some(u) => u,
            None => {
                return Err(Trap::Absent);
            },
        };
        match self.token.mint(from, amount) {
            Ok(d) => Ok(
                Receipt {
                    value: self.begin(),
                    effects: d.effects.call(
                        Call::Transfer { token: usdc, from, to: inv.contract, amount },
                    ),
                },
            ),
            Err(t) => Err(t),
        }
    }

    /// Why `redeem` is refused, given what USDC says the reserve holds.
    pub open spec fn redeem_fault(
        self,
        inv: Invocation,
        from: Address,
        amount: i128,
        held: Result<i128, InvokeError>,
    ) -> Option<Fault<AgUsdError>> {
        if !inv.signed(from) {
            Some(Fault::Trap(Trap::Unauthorized))
        } else if amount <= 0 {
            Some(Fault::Trap(Trap::BadArgument))
        } else if self.usdc is None {
            Some(Fault::Trap(Trap::Absent))
        } else if held is Err {
            Some(Fault::Trap(Trap::Callee(held->Err_0)))
        } else if amount > held->Ok_0 {
            Some(Fault::Error(AgUsdError::InsufficientBuffer))
        } else if self.token.burn_unchecked_trap(from, amount) is Some {
            Some(Fault::Trap(self.token.burn_unchecked_trap(from, amount)->0))
        } else {
            None
        }
    }

    /// What `redeem` answers, and what it leaves behind.
    pub open spec fn redeem_step(
        self,
        after: AgUsd,
        inv: Invocation,
        from: Address,
        amount: i128,
        held: Result<i128, InvokeError>,
        r: Result<Receipt<Stage>, Fault<AgUsdError>>,
    ) -> bool {
        match r {
            Ok(d) => {
                &&& self.redeem_fault(inv, from, amount, held) is None
                &&& after.token.balances@ == moved(
                    self.token.balances@,
                    from,
                    -amount,
                )
                &&& after == (AgUsd {
                    token: Token {
                        balances: after.token.balances,
                        supply: (self.token.supply - amount) as i128,
                        ..self.token
                    },
                    ..self
                })
                &&& d.gives(
                    after.begun(),
                    seq![
                        Call::Transfer {
                            token: self.usdc->0,
                            from: inv.contract,
                            to: from,
                            amount,
                        },
                    ],
                    seq![Event::Burn { from, amount }],
                    seq![Rent::Instance, Rent::Balance { of: from }],
                )
            },
            Err(f) => {
                &&& self.redeem_fault(inv, from, amount, held) == Some(f)
                &&& after == self
            },
        }
    }

    /// Burns agUSD and pays as much USDC out of the reserve. The rebalance that
    /// follows in the same transaction is what is returned, at its beginning.
    pub fn redeem(
        &mut self,
        inv: &Invocation,
        from: Address,
        amount: i128,
        held: Result<i128, InvokeError>,
    ) -> (r: Result<Receipt<Stage>, Fault<AgUsdError>>)
        ensures
            old(self).redeem_step(*final(self), *inv, from, amount, held, r),
            old(self).sound() ==> final(self).sound(),
    {
        if !inv.authorized(from) {
            return Err(Fault::Trap(Trap::Unauthorized));
        }
        if amount <= 0 {
            return Err(Fault::Trap(Trap::BadArgument));
        }
        let usdc: Address = match self.usdc {
            Some(u) => u,
            None => {
                return Err(Fault::Trap(Trap::Absent));
            },
        };
        match held {
            Err(e) => {
                return Err(Fault::Trap(Trap::Callee(e)));
            },
            Ok(reserve) => if amount > reserve {
                return Err(Fault::Error(AgUsdError::InsufficientBuffer));
            },
        }
        match self.token.burn_unchecked(from, amount) {
            Ok(d) => Ok(
                Receipt {
                    value: self.begin(),
                    effects: d.effects.call(
                        Call::Transfer { token: usdc, from: inv.contract, to: from, amount },
                    ),
                },
            ),
            Err(t) => Err(Fault::Trap(t)),
        }
    }

    /// A rebalance that has yet to do anything. Without targets there is
    /// nothing to do.
    pub open spec fn begun(self) -> Stage {
        if self.targets@.len() == 0 {
            Stage::Done
        } else {
            Stage::Harvest { next: 0 }
        }
    }

    /// What a rebalance keeps alive: it reads the supply where there are
    /// targets to bring the buffer into line with.
    pub open spec fn begun_rent(self) -> Seq<Rent> {
        if self.targets@.len() == 0 {
            seq![]
        } else {
            seq![Rent::Instance]
        }
    }

    fn begin(&self) -> (s: Stage)
        ensures
            s == self.begun(),
    {
        if self.targets.len() == 0 {
            Stage::Done
        } else {
            Stage::Harvest { next: 0 }
        }
    }

    /// Begins to bring the buffer back to its target. Anybody may ask for it.
    pub fn rebalance(&self) -> (d: Receipt<Stage>)
        ensures
            d.gives(self.begun(), seq![], seq![], self.begun_rent()),
    {
        let effects = if self.targets.len() == 0 {
            Effects::none()
        } else {
            Effects::none().keep(Rent::Instance)
        };
        Receipt { value: self.begin(), effects }
    }

    /// What a stage asks for: first to claim what has matured at every target,
    /// then to read the reserve, and then to make each stake, or to price each
    /// draw and make its request.
    pub open spec fn action(self, inv: Invocation, stage: Stage) -> Action {
        match stage {
            Stage::Harvest { next } => if next < self.targets@.len() {
                Action::Attempt(claims(self.targets@, inv.contract)[next as int])
            } else {
                Action::AskReserve
            },
            Stage::Deploy { calls, next } => if next < calls@.len() {
                Action::Make(calls@[next as int])
            } else {
                Action::Finish
            },
            Stage::Refill { parts, next } => if next < parts@.len() {
                Action::AskQuote { vault: parts@[next as int].vault }
            } else {
                Action::Finish
            },
            Stage::Request { parts, next, call } => Action::Attempt(call),
            Stage::Done => Action::Finish,
        }
    }

    /// What comes next in a rebalance.
    pub fn next_action(&self, inv: &Invocation, stage: &Stage) -> (a: Action)
        ensures
            a == self.action(*inv, *stage),
    {
        match stage {
            Stage::Harvest { next } => if *next < self.targets.len() {
                Action::Attempt(
                    Call::Claim { vault: self.targets[*next].vault, from: inv.contract },
                )
            } else {
                Action::AskReserve
            },
            Stage::Deploy { calls, next } => if *next < calls.len() {
                Action::Make(calls[*next])
            } else {
                Action::Finish
            },
            Stage::Refill { parts, next } => if *next < parts.len() {
                Action::AskQuote { vault: parts[*next].vault }
            } else {
                Action::Finish
            },
            Stage::Request { call, .. } => Action::Attempt(*call),
            Stage::Done => Action::Finish,
        }
    }

    /// Where a reply takes a rebalance. A reply to something that was not asked
    /// for takes it nowhere.
    pub open spec fn advanced(
        self,
        inv: Invocation,
        stage: Stage,
        reply: Reply,
        r: Result<Stage, Trap>,
    ) -> bool {
        if !answers(self.action(inv, stage), reply) {
            r == Ok::<Stage, Trap>(stage)
        } else {
            match stage {
                Stage::Harvest { next } => match reply {
                    Reply::Reserve(held) => self.planned(inv, held, r),
                    _ => r == Ok::<Stage, Trap>(Stage::Harvest { next: (next + 1) as usize }),
                },
                Stage::Deploy { calls, next } => r == Ok::<Stage, Trap>(
                    Stage::Deploy { calls, next: (next + 1) as usize },
                ),
                Stage::Refill { parts, next } => match drawn(
                    parts@[next as int],
                    reply->Quoted_0,
                    inv.contract,
                ) {
                    Err(t) => r == Err::<Stage, Trap>(t),
                    Ok(None) => r == Ok::<Stage, Trap>(
                        Stage::Refill { parts, next: (next + 1) as usize },
                    ),
                    Ok(Some(call)) => r == Ok::<Stage, Trap>(Stage::Request { parts, next, call }),
                },
                Stage::Request { parts, next, call } => r == Ok::<Stage, Trap>(
                    if next < parts@.len() {
                        Stage::Refill { parts, next: (next + 1) as usize }
                    } else {
                        Stage::Done
                    },
                ),
                Stage::Done => r == Ok::<Stage, Trap>(stage),
            }
        }
    }

    /// A rebalance from its beginning to its end: the stages it goes through,
    /// and the replies that take it from each to the next.
    pub open spec fn runs(self, inv: Invocation, stages: Seq<Stage>, replies: Seq<Reply>) -> bool {
        &&& stages.len() == replies.len() + 1
        &&& stages[0] == self.begun()
        &&& forall|i: int| 0 <= i < replies.len() ==> #[trigger] self.moves(inv, stages, replies, i)
        &&& self.action(inv, stages.last()) is Finish
    }

    /// Whether one reply answers what its stage asked for, and takes it to the
    /// next.
    pub open spec fn moves(
        self,
        inv: Invocation,
        stages: Seq<Stage>,
        replies: Seq<Reply>,
        i: int,
    ) -> bool {
        &&& answers(self.action(inv, stages[i]), replies[i])
        &&& self.advanced(inv, stages[i], replies[i], Ok(stages[i + 1]))
    }

    /// Takes a rebalance on, given what came of what it asked for.
    pub fn advance(&self, inv: &Invocation, stage: Stage, reply: Reply) -> (r: Result<Stage, Trap>)
        ensures
            self.advanced(*inv, stage, reply, r),
    {
        match (stage, reply) {
            (Stage::Harvest { next }, Reply::Called) => if next < self.targets.len() {
                Ok(Stage::Harvest { next: next + 1 })
            } else {
                Ok(Stage::Harvest { next })
            },
            (Stage::Harvest { next }, Reply::Reserve(held)) => if next < self.targets.len() {
                Ok(Stage::Harvest { next })
            } else {
                self.plan(inv, held)
            },
            (Stage::Deploy { calls, next }, Reply::Called) => if next < calls.len() {
                Ok(Stage::Deploy { calls, next: next + 1 })
            } else {
                Ok(Stage::Deploy { calls, next })
            },
            (Stage::Refill { parts, next }, Reply::Quoted(quote)) => if next < parts.len() {
                match self.draw(inv, parts[next], quote) {
                    Err(t) => Err(t),
                    Ok(None) => Ok(Stage::Refill { parts, next: next + 1 }),
                    Ok(Some(call)) => Ok(Stage::Request { parts, next, call }),
                }
            } else {
                Ok(Stage::Refill { parts, next })
            },
            (Stage::Request { parts, next, .. }, Reply::Called) => if next < parts.len() {
                Ok(Stage::Refill { parts, next: next + 1 })
            } else {
                Ok(Stage::Done)
            },
            (stage, _) => Ok(stage),
        }
    }

    /// What exceeds the buffer, or lacks from it where negative; or why that
    /// cannot be told.
    pub open spec fn excess(self, held: Result<i128, InvokeError>) -> Result<int, Trap> {
        if self.usdc is None {
            Err(Trap::Absent)
        } else if held is Err {
            Err(Trap::Callee(held->Err_0))
        } else if !fits(self.token.supply * self.buffer()) || !fits(
            held->Ok_0 - self.buffer_target(),
        ) {
            Err(Trap::Overflow)
        } else {
            Ok(held->Ok_0 - self.buffer_target())
        }
    }

    fn measure(&self, held: Result<i128, InvokeError>) -> (r: Result<i128, Trap>)
        ensures
            match r {
                Ok(z) => self.excess(held) == Ok::<int, Trap>(z as int),
                Err(t) => self.excess(held) == Err::<int, Trap>(t),
            },
    {
        if self.usdc.is_none() {
            return Err(Trap::Absent);
        }
        let reserve: i128 = match held {
            Ok(z) => z,
            Err(e) => {
                return Err(Trap::Callee(e));
            },
        };
        let product: i128 = match times(self.token.total_supply(), self.buffer_bps() as i128) {
            Ok(z) => z,
            Err(t) => {
                return Err(t);
            },
        };
        proof {
            lemma_quotient_shrinks(product as int, BPS as int);
        }
        let target: i128 = match over(product, BPS) {
            Ok(z) => z,
            Err(t) => {
                return Err(t);
            },
        };
        minus(reserve, target)
    }

    /// What a rebalance comes to, once every target has been harvested.
    pub open spec fn planned(
        self,
        inv: Invocation,
        held: Result<i128, InvokeError>,
        r: Result<Stage, Trap>,
    ) -> bool {
        if self.targets@.len() == 0 {
            r == Ok::<Stage, Trap>(Stage::Done)
        } else {
            match self.excess(held) {
                Err(t) => r == Err::<Stage, Trap>(t),
                Ok(excess) => if excess >= MIN_ALLOC {
                    if split_overflows(excess, self.targets@) {
                        r == Err::<Stage, Trap>(Trap::Overflow)
                    } else {
                        r matches Ok(Stage::Deploy { calls, next }) && next == 0 && calls@ == stakes(
                            excess,
                            self.targets@,
                            inv.contract,
                        )
                    }
                } else if excess <= -MIN_ALLOC {
                    if !fits(-excess) || split_overflows(-excess, self.targets@) {
                        r == Err::<Stage, Trap>(Trap::Overflow)
                    } else {
                        r matches Ok(Stage::Refill { parts, next }) && next == 0 && parts@ == draws(
                            -excess,
                            self.targets@,
                        )
                    }
                } else {
                    r == Ok::<Stage, Trap>(Stage::Done)
                },
            }
        }
    }

    /// Decides what brings the buffer back to its target: stake the excess at
    /// the target weights, ask the vaults for the shortfall, or leave dust
    /// where it is. `held` is what USDC says the reserve holds after the
    /// harvest.
    pub fn plan(&self, inv: &Invocation, held: Result<i128, InvokeError>) -> (r: Result<
        Stage,
        Trap,
    >)
        ensures
            self.planned(*inv, held, r),
    {
        if self.targets.len() == 0 {
            return Ok(Stage::Done);
        }
        let excess: i128 = match self.measure(held) {
            Ok(z) => z,
            Err(t) => {
                return Err(t);
            },
        };
        if excess >= MIN_ALLOC {
            match self.deploy(excess, inv.contract) {
                Ok(calls) => Ok(Stage::Deploy { calls, next: 0 }),
                Err(t) => Err(t),
            }
        } else if excess <= -MIN_ALLOC {
            let shortfall: i128 = match minus(0, excess) {
                Ok(z) => z,
                Err(t) => {
                    return Err(t);
                },
            };
            match self.refill(shortfall) {
                Ok(parts) => Ok(Stage::Refill { parts, next: 0 }),
                Err(t) => Err(t),
            }
        } else {
            Ok(Stage::Done)
        }
    }

    fn part(amount: i128, t: Target) -> (r: Result<i128, Trap>)
        ensures
            match r {
                Ok(z) => fits(amount * t.weight_bps) && z == share_of(amount as int, t),
                Err(e) => !fits(amount * t.weight_bps) && e == Trap::Overflow,
            },
    {
        let product: i128 = match times(amount, t.weight_bps as i128) {
            Ok(z) => z,
            Err(e) => {
                return Err(e);
            },
        };
        proof {
            lemma_share_fits(amount as int, t);
        }
        over(product, BPS)
    }

    fn deploy(&self, amount: i128, from: Address) -> (r: Result<Vec<Call>, Trap>)
        ensures
            match r {
                Ok(calls) => !split_overflows(amount as int, self.targets@) && calls@ == stakes(
                    amount as int,
                    self.targets@,
                    from,
                ),
                Err(t) => split_overflows(amount as int, self.targets@) && t == Trap::Overflow,
            },
    {
        let n: usize = self.targets.len();
        let mut calls: Vec<Call> = Vec::new();
        let mut i: usize = 0;
        while i < n
            invariant
                i <= n,
                n == self.targets@.len(),
                calls@ == stakes(amount as int, self.targets@.take(i as int), from),
                forall|j: int|
                    0 <= j < i ==> fits(amount * (#[trigger] self.targets@[j]).weight_bps),
            decreases n - i,
        {
            let t: Target = self.targets[i];
            let part: i128 = match AgUsd::part(amount, t) {
                Ok(z) => z,
                Err(e) => {
                    assert(!fits(amount * self.targets@[i as int].weight_bps));
                    return Err(e);
                },
            };
            proof {
                assert(self.targets@.take(i + 1).drop_last() =~= self.targets@.take(i as int));
                assert(self.targets@.take(i + 1).last() == t);
            }
            if part > 0 {
                calls.push(Call::Stake { vault: t.vault, from, amount: part });
            }
            i = i + 1;
        }
        assert(self.targets@.take(n as int) =~= self.targets@);
        Ok(calls)
    }

    fn refill(&self, amount: i128) -> (r: Result<Vec<Draw>, Trap>)
        ensures
            match r {
                Ok(parts) => !split_overflows(amount as int, self.targets@) && parts@ == draws(
                    amount as int,
                    self.targets@,
                ),
                Err(t) => split_overflows(amount as int, self.targets@) && t == Trap::Overflow,
            },
    {
        let n: usize = self.targets.len();
        let mut parts: Vec<Draw> = Vec::new();
        let mut i: usize = 0;
        while i < n
            invariant
                i <= n,
                n == self.targets@.len(),
                parts@ == draws(amount as int, self.targets@.take(i as int)),
                forall|j: int|
                    0 <= j < i ==> fits(amount * (#[trigger] self.targets@[j]).weight_bps),
            decreases n - i,
        {
            let t: Target = self.targets[i];
            let part: i128 = match AgUsd::part(amount, t) {
                Ok(z) => z,
                Err(e) => {
                    assert(!fits(amount * self.targets@[i as int].weight_bps));
                    return Err(e);
                },
            };
            proof {
                assert(self.targets@.take(i + 1).drop_last() =~= self.targets@.take(i as int));
                assert(self.targets@.take(i + 1).last() == t);
            }
            if part > 0 {
                parts.push(Draw { vault: t.vault, part });
            }
            i = i + 1;
        }
        assert(self.targets@.take(n as int) =~= self.targets@);
        Ok(parts)
    }

    /// The shares to ask a vault for, given what it quotes for the position in
    /// it: what the part is worth in shares, and no more than are held. None
    /// where there is nothing to ask for. A request that fails is passed over.
    pub fn draw(&self, inv: &Invocation, draw: Draw, quote: Quote) -> (r: Result<Option<Call>, Trap>)
        ensures
            r == drawn(draw, quote, inv.contract),
    {
        if quote.share_price <= 0 || quote.balance <= 0 {
            return Ok(None);
        }
        let scaled: i128 = match times(draw.part, SHARE_ONE) {
            Ok(z) => z,
            Err(t) => {
                return Err(t);
            },
        };
        proof {
            lemma_quotient_shrinks(scaled as int, quote.share_price as int);
        }
        let priced: i128 = match over(scaled, quote.share_price) {
            Ok(z) => z,
            Err(t) => {
                return Err(t);
            },
        };
        let shares: i128 = if priced > quote.balance {
            quote.balance
        } else {
            priced
        };
        if shares > 0 {
            Ok(Some(Call::RequestUnstake { vault: draw.vault, from: inv.contract, shares }))
        } else {
            Ok(None)
        }
    }

    /// What `deallocate` answers, and what it asks for.
    pub open spec fn deallocate_step(
        self,
        inv: Invocation,
        vault: Address,
        shares: i128,
        r: Result<Receipt<()>, Trap>,
    ) -> bool {
        match r {
            Ok(d) => {
                &&& self.admin_trap(inv) is None
                &&& d.gives(
                    (),
                    seq![Call::RequestUnstake { vault, from: inv.contract, shares }],
                    seq![],
                    seq![],
                )
            },
            Err(t) => self.admin_trap(inv) == Some(t),
        }
    }

    /// Asks a vault for capital back, on the admin's instruction. What the vault
    /// answers is the answer.
    pub fn deallocate(&self, inv: &Invocation, vault: Address, shares: i128) -> (r: Result<
        Receipt<()>,
        Trap,
    >)
        ensures
            self.deallocate_step(*inv, vault, shares, r),
    {
        match self.require_admin(inv) {
            Ok(_) => {},
            Err(t) => {
                return Err(t);
            },
        }
        Ok(
            Receipt {
                value: (),
                effects: Effects::none().call(
                    Call::RequestUnstake { vault, from: inv.contract, shares },
                ),
            },
        )
    }

    /// What `claim_alloc` answers, and what it asks for.
    pub open spec fn claim_alloc_step(
        self,
        inv: Invocation,
        vault: Address,
        r: Result<Receipt<()>, Trap>,
    ) -> bool {
        match r {
            Ok(d) => {
                &&& self.admin_trap(inv) is None
                &&& d.gives(
                    (),
                    seq![Call::Claim { vault, from: inv.contract }],
                    seq![],
                    seq![],
                )
            },
            Err(t) => self.admin_trap(inv) == Some(t),
        }
    }

    /// Claims matured capital from a vault, on the admin's instruction. What the
    /// vault answers is the answer.
    pub fn claim_alloc(&self, inv: &Invocation, vault: Address) -> (r: Result<Receipt<()>, Trap>)
        ensures
            self.claim_alloc_step(*inv, vault, r),
    {
        match self.require_admin(inv) {
            Ok(_) => {},
            Err(t) => {
                return Err(t);
            },
        }
        Ok(
            Receipt {
                value: (),
                effects: Effects::none().call(Call::Claim { vault, from: inv.contract }),
            },
        )
    }

    /// Why `sweep` is refused.
    pub open spec fn sweep_trap(self, inv: Invocation) -> Option<Trap> {
        if self.admin_trap(inv) is Some {
            self.admin_trap(inv)
        } else if self.usdc is None || self.treasury is None {
            Some(Trap::Absent)
        } else {
            None
        }
    }

    /// What `sweep` answers, and what it asks for.
    pub open spec fn sweep_step(
        self,
        inv: Invocation,
        amount: i128,
        r: Result<Receipt<()>, Trap>,
    ) -> bool {
        match r {
            Ok(d) => {
                &&& self.sweep_trap(inv) is None
                &&& d.gives(
                    (),
                    seq![
                        Call::Transfer {
                            token: self.usdc->0,
                            from: inv.contract,
                            to: self.treasury->0,
                            amount,
                        },
                    ],
                    seq![],
                    seq![],
                )
            },
            Err(t) => self.sweep_trap(inv) == Some(t),
        }
    }

    /// Moves part of the reserve to the treasury, on the admin's instruction.
    pub fn sweep(&self, inv: &Invocation, amount: i128) -> (r: Result<Receipt<()>, Trap>)
        ensures
            self.sweep_step(*inv, amount, r),
    {
        match self.require_admin(inv) {
            Ok(_) => {},
            Err(t) => {
                return Err(t);
            },
        }
        match (self.usdc, self.treasury) {
            (Some(token), Some(to)) => Ok(
                Receipt {
                    value: (),
                    effects: Effects::none().call(
                        Call::Transfer { token, from: inv.contract, to, amount },
                    ),
                },
            ),
            _ => Err(Trap::Absent),
        }
    }

    /// What `refund_reserve` answers, and what it asks for.
    pub open spec fn refund_reserve_step(
        self,
        inv: Invocation,
        from: Address,
        amount: i128,
        r: Result<Receipt<()>, Trap>,
    ) -> bool {
        match r {
            Ok(d) => {
                &&& inv.signed(from) && self.usdc is Some
                &&& d.gives(
                    (),
                    seq![
                        Call::Transfer {
                            token: self.usdc->0,
                            from,
                            to: inv.contract,
                            amount,
                        },
                    ],
                    seq![],
                    seq![],
                )
            },
            Err(t) => {
                &&& !inv.signed(from) || self.usdc is None
                &&& t == (if !inv.signed(from) {
                    Trap::Unauthorized
                } else {
                    Trap::Absent
                })
            },
        }
    }

    /// Returns USDC to the reserve.
    pub fn refund_reserve(&self, inv: &Invocation, from: Address, amount: i128) -> (r: Result<
        Receipt<()>,
        Trap,
    >)
        ensures
            self.refund_reserve_step(*inv, from, amount, r),
    {
        if !inv.authorized(from) {
            return Err(Trap::Unauthorized);
        }
        match self.usdc {
            Some(token) => Ok(
                Receipt {
                    value: (),
                    effects: Effects::none().call(
                        Call::Transfer { token, from, to: inv.contract, amount },
                    ),
                },
            ),
            None => Err(Trap::Absent),
        }
    }

    // ---- views ----

    /// What `reserve` answers.
    pub open spec fn reserve_answer(
        self,
        held: Result<i128, InvokeError>,
    ) -> Result<i128, Trap> {
        if self.usdc is None {
            Err::<i128, Trap>(Trap::Absent)
        } else {
            match held {
                Ok(z) => Ok(z),
                Err(e) => Err(Trap::Callee(e)),
            }
        }
    }

    /// The USDC in the contract, which is the capacity for instant redemption.
    /// `held` is the token's own answer.
    pub fn reserve(&self, held: Result<i128, InvokeError>) -> (r: Result<i128, Trap>)
        ensures
            r == self.reserve_answer(held),
    {
        if self.usdc.is_none() {
            return Err(Trap::Absent);
        }
        match held {
            Ok(z) => Ok(z),
            Err(e) => Err(Trap::Callee(e)),
        }
    }

    /// What the positions in the vaults are worth, given one quote per target.
    pub fn deployed(quotes: &Vec<Quote>) -> (r: Result<i128, Trap>)
        ensures
            match r {
                Ok(z) => worth(quotes@) == Some(z as int),
                Err(t) => worth(quotes@) is None && t == Trap::Overflow,
            },
    {
        let n: usize = quotes.len();
        let mut total: i128 = 0;
        let mut i: usize = 0;
        while i < n
            invariant
                i <= n,
                n == quotes@.len(),
                worth(quotes@.take(i as int)) == Some(total as int),
            decreases n - i,
        {
            let q: Quote = quotes[i];
            proof {
                assert(quotes@.take(i + 1).drop_last() =~= quotes@.take(i as int));
                assert(quotes@.take(i + 1).last() == q);
            }
            let product: i128 = match times(q.balance, q.share_price) {
                Ok(z) => z,
                Err(t) => {
                    proof {
                        lemma_worth_stuck(quotes@, i + 1);
                    }
                    return Err(t);
                },
            };
            proof {
                lemma_quotient_shrinks(product as int, SHARE_ONE as int);
            }
            let value: i128 = match over(product, SHARE_ONE) {
                Ok(z) => z,
                Err(t) => {
                    return Err(t);
                },
            };
            total =
            match plus(total, value) {
                Ok(z) => z,
                Err(t) => {
                    proof {
                        lemma_worth_stuck(quotes@, i + 1);
                    }
                    return Err(t);
                },
            };
            i = i + 1;
        }
        assert(quotes@.take(n as int) =~= quotes@);
        Ok(total)
    }

    /// The vaults and weights that the excess is deployed at.
    pub fn targets(&self) -> (t: &Vec<Target>)
        ensures
            *t == self.targets,
    {
        &self.targets
    }

    /// The buffer, in bps of the supply.
    pub fn buffer_bps(&self) -> (n: u32)
        ensures
            n == self.buffer(),
    {
        match self.buffer_bps {
            Some(b) => b,
            None => DEFAULT_BUFFER_BPS,
        }
    }

    /// The admin.
    pub fn admin(&self) -> (r: Result<Address, Trap>)
        ensures
            r == (match self.admin {
                Some(a) => Ok::<Address, Trap>(a),
                None => Err(Trap::Absent),
            }),
    {
        match self.admin {
            Some(a) => Ok(a),
            None => Err(Trap::Absent),
        }
    }

    /// The strategist's treasury.
    pub fn treasury(&self) -> (r: Result<Address, Trap>)
        ensures
            r == (match self.treasury {
                Some(a) => Ok::<Address, Trap>(a),
                None => Err(Trap::Absent),
            }),
    {
        match self.treasury {
            Some(a) => Ok(a),
            None => Err(Trap::Absent),
        }
    }

    /// The base asset.
    pub fn usdc(&self) -> (r: Result<Address, Trap>)
        ensures
            r == (match self.usdc {
                Some(a) => Ok::<Address, Trap>(a),
                None => Err(Trap::Absent),
            }),
    {
        match self.usdc {
            Some(a) => Ok(a),
            None => Err(Trap::Absent),
        }
    }

    // ---- the token itself ----

    /// What an address holds.
    pub fn balance(&self, id: Address) -> (n: i128)
        ensures
            n == self.token.holds(id),
    {
        self.token.balance(id)
    }

    /// Moves tokens, with the holder's authorization.
    pub fn transfer(
        &mut self,
        inv: &Invocation,
        from: Address,
        to: Address,
        amount: i128,
    ) -> (r: Result<Receipt<()>, Trap>)
        ensures
            old(self).token.transfer_step(final(self).token, *inv, from, to, amount, r),
            *final(self) == (AgUsd { token: final(self).token, ..*old(self) }),
            old(self).sound() ==> final(self).sound(),
    {
        self.token.transfer(inv, from, to, amount)
    }

    /// Moves tokens out of an allowance.
    pub fn transfer_from(
        &mut self,
        inv: &Invocation,
        spender: Address,
        from: Address,
        to: Address,
        amount: i128,
    ) -> (r: Result<Receipt<()>, Trap>)
        ensures
            old(self).token.transfer_from_step(final(self).token, *inv, spender, from, to, amount, r),
            *final(self) == (AgUsd { token: final(self).token, ..*old(self) }),
            old(self).sound() ==> final(self).sound(),
    {
        self.token.transfer_from(inv, spender, from, to, amount)
    }

    /// Grants an allowance.
    pub fn approve(
        &mut self,
        inv: &Invocation,
        from: Address,
        spender: Address,
        amount: i128,
        expiration_ledger: u32,
    ) -> (r: Result<Receipt<()>, Trap>)
        ensures
            old(self).token.approve_step(final(self).token, *inv, from, spender, amount, expiration_ledger, r),
            *final(self) == (AgUsd { token: final(self).token, ..*old(self) }),
            old(self).sound() ==> final(self).sound(),
    {
        self.token.approve(inv, from, spender, amount, expiration_ledger)
    }

    /// What `spender` may still spend of `from`'s balance.
    pub fn allowance(&self, inv: &Invocation, from: Address, spender: Address) -> (n: i128)
        ensures
            n == self.token.allowed(inv.sequence, from, spender),
    {
        self.token.allowance(inv, from, spender)
    }

    /// Destroys tokens, with the holder's authorization.
    pub fn burn(
        &mut self,
        inv: &Invocation,
        from: Address,
        amount: i128,
    ) -> (r: Result<Receipt<()>, Trap>)
        ensures
            old(self).token.burn_step(final(self).token, *inv, from, amount, r),
            *final(self) == (AgUsd { token: final(self).token, ..*old(self) }),
            old(self).sound() ==> final(self).sound(),
    {
        self.token.burn(inv, from, amount)
    }

    /// Destroys tokens out of an allowance.
    pub fn burn_from(
        &mut self,
        inv: &Invocation,
        spender: Address,
        from: Address,
        amount: i128,
    ) -> (r: Result<Receipt<()>, Trap>)
        ensures
            old(self).token.burn_from_step(final(self).token, *inv, spender, from, amount, r),
            *final(self) == (AgUsd { token: final(self).token, ..*old(self) }),
            old(self).sound() ==> final(self).sound(),
    {
        self.token.burn_from(inv, spender, from, amount)
    }

    /// The number of decimals.
    pub fn decimals(&self) -> (r: Result<u32, Trap>)
        ensures
            r == (match self.token.metadata {
                Some(m) => Ok::<u32, Trap>(m.decimal),
                None => Err(Trap::Absent),
            }),
    {
        self.token.decimals()
    }

    /// The name.
    pub fn name(&self) -> (r: Result<String, Trap>)
        ensures
            match r {
                Ok(name) => self.token.metadata is Some && name@ == self.token.metadata->0.name@,
                Err(t) => self.token.metadata is None && t == Trap::Absent,
            },
    {
        self.token.name()
    }

    /// The symbol.
    pub fn symbol(&self) -> (r: Result<String, Trap>)
        ensures
            match r {
                Ok(symbol) => {
                    &&& self.token.metadata is Some
                    &&& symbol@ == self.token.metadata->0.symbol@
                },
                Err(t) => self.token.metadata is None && t == Trap::Absent,
            },
    {
        self.token.symbol()
    }

    /// How many tokens there are.
    pub fn total_supply(&self) -> (n: i128)
        ensures
            n == self.token.supply,
    {
        self.token.total_supply()
    }
}

/// The stages of a rebalance up to the reading of the reserve.
pub proof fn lemma_harvest(
    a: AgUsd,
    inv: Invocation,
    stages: Seq<Stage>,
    replies: Seq<Reply>,
    i: int,
)
    requires
        a.targets@.len() > 0,
        a.runs(inv, stages, replies),
        0 <= i <= a.targets@.len(),
    ensures
        i < replies.len(),
        stages[i] matches Stage::Harvest { next } && next == i,
    decreases i,
{
    assert(a.targets@.len() == a.targets.len());
    if i > 0 {
        lemma_harvest(a, inv, stages, replies, i - 1);
        assert(a.moves(inv, stages, replies, i - 1));
    }
    if i == replies.len() {
        assert(stages.last() == stages[i]);
    }
}

/// A rebalance first tries to claim at every target, in order, and reads the
/// reserve only then.
pub proof fn a_rebalance_harvests_before_it_measures(
    a: AgUsd,
    inv: Invocation,
    stages: Seq<Stage>,
    replies: Seq<Reply>,
)
    requires
        a.targets@.len() > 0,
        a.runs(inv, stages, replies),
    ensures
        replies.len() > a.targets@.len(),
        forall|i: int|
            0 <= i < a.targets@.len() ==> a.action(inv, #[trigger] stages[i]) == Action::Attempt(
                claims(a.targets@, inv.contract)[i],
            ),
        a.action(inv, stages[a.targets@.len() as int]) == Action::AskReserve,
        replies[a.targets@.len() as int] matches Reply::Reserve(held) && a.excess(held) is Ok,
{
    let n = a.targets@.len() as int;
    lemma_harvest(a, inv, stages, replies, n);
    assert forall|i: int| 0 <= i < n implies a.action(inv, #[trigger] stages[i])
        == Action::Attempt(claims(a.targets@, inv.contract)[i]) by {
        lemma_harvest(a, inv, stages, replies, i);
    }
    assert(a.moves(inv, stages, replies, n));
}

proof fn lemma_deploy(
    a: AgUsd,
    inv: Invocation,
    stages: Seq<Stage>,
    replies: Seq<Reply>,
    held: i128,
    j: int,
)
    requires
        a.targets@.len() > 0,
        a.runs(inv, stages, replies),
        replies.len() > a.targets@.len(),
        replies[a.targets@.len() as int] == Reply::Reserve(Ok(held)),
        held - a.buffer_target() >= MIN_ALLOC,
        0 <= j <= stakes(held - a.buffer_target(), a.targets@, inv.contract).len(),
    ensures
        a.targets@.len() + 1 + j <= replies.len(),
        stages[a.targets@.len() + 1 + j] matches Stage::Deploy { calls, next } && next == j
            && calls@ == stakes(held - a.buffer_target(), a.targets@, inv.contract),
    decreases j,
{
    let n = a.targets@.len() as int;
    let k = n + 1 + j;
    if j == 0 {
        lemma_harvest(a, inv, stages, replies, n);
        assert(a.moves(inv, stages, replies, n));
    } else {
        lemma_deploy(a, inv, stages, replies, held, j - 1);
        if let Stage::Deploy { calls, next } = stages[k - 1] {
            assert(calls@.len() == calls.len());
        }
        if k - 1 == replies.len() {
            assert(stages.last() == stages[k - 1]);
        }
        assert(a.moves(inv, stages, replies, k - 1));
    }
}

/// Where the reserve exceeds the buffer by more than dust, a rebalance stakes
/// the excess at the target weights, one target after the other, and does
/// nothing else. With weights that add up to the whole, what it leaves in the
/// reserve is the buffer, and less than one unit per target besides.
pub proof fn a_rebalance_deploys_the_excess(
    a: AgUsd,
    inv: Invocation,
    stages: Seq<Stage>,
    replies: Seq<Reply>,
    held: i128,
)
    requires
        a.targets@.len() > 0,
        a.runs(inv, stages, replies),
        replies[a.targets@.len() as int] == Reply::Reserve(Ok(held)),
        held - a.buffer_target() >= MIN_ALLOC,
    ensures
        ({
            let n = a.targets@.len() as int;
            let made = stakes(held - a.buffer_target(), a.targets@, inv.contract);
            &&& replies.len() == n + 1 + made.len()
            &&& forall|j: int|
                0 <= j < made.len() ==> a.action(inv, #[trigger] stages[n + 1 + j])
                    == Action::Make(made[j])
            &&& weights(a.targets@) == BPS ==> a.buffer_target() <= held - staked(made)
                < a.buffer_target() + n
        }),
{
    let n = a.targets@.len() as int;
    let excess = held - a.buffer_target();
    let made = stakes(excess, a.targets@, inv.contract);
    lemma_harvest(a, inv, stages, replies, n);
    assert(a.moves(inv, stages, replies, n));
    assert forall|j: int| 0 <= j < made.len() implies a.action(inv, #[trigger] stages[n + 1 + j])
        == Action::Make(made[j]) by {
        lemma_deploy(a, inv, stages, replies, held, j);
    }
    let last = n + 1 + made.len();
    lemma_deploy(a, inv, stages, replies, held, made.len() as int);
    if last < replies.len() {
        assert(a.moves(inv, stages, replies, last));
    }
    if weights(a.targets@) == BPS {
        deploying_leaves_the_buffer(excess, a.targets@, inv.contract);
        deploying_leaves_only_dust(excess, a.targets@, inv.contract);
    }
}

/// Where the reserve lacks more than dust, a rebalance prices the draws that
/// make it up, one target after the other, requests what each comes to at the
/// price it was given, and does nothing else.
pub proof fn a_rebalance_requests_the_shortfall(
    a: AgUsd,
    inv: Invocation,
    stages: Seq<Stage>,
    replies: Seq<Reply>,
    held: i128,
    i: int,
)
    requires
        a.targets@.len() > 0,
        a.runs(inv, stages, replies),
        replies[a.targets@.len() as int] == Reply::Reserve(Ok(held)),
        held - a.buffer_target() <= -MIN_ALLOC,
        a.targets@.len() < i < stages.len(),
    ensures
        ({
            let asked = draws(a.buffer_target() - held, a.targets@);
            match stages[i] {
                Stage::Refill { parts, next } => {
                    &&& parts@ == asked
                    &&& next <= asked.len()
                    &&& i == a.targets@.len() + 1 ==> next == 0
                    &&& i == stages.len() - 1 <==> next == asked.len()
                },
                Stage::Request { parts, next, call } => {
                    &&& parts@ == asked
                    &&& next < asked.len()
                    &&& i < stages.len() - 1
                    &&& stages[i - 1] == (Stage::Refill { parts, next })
                    &&& replies[i - 1] matches Reply::Quoted(quote) && drawn(
                        asked[next as int],
                        quote,
                        inv.contract,
                    ) == Ok::<Option<Call>, Trap>(Some(call))
                },
                _ => false,
            }
        }),
    decreases i,
{
    let n = a.targets@.len() as int;
    lemma_harvest(a, inv, stages, replies, n);
    if i == n + 1 {
        assert(a.moves(inv, stages, replies, n));
    } else {
        a_rebalance_requests_the_shortfall(a, inv, stages, replies, held, i - 1);
        match stages[i - 1] {
            Stage::Refill { parts, .. } => {
                assert(parts@.len() == parts.len());
            },
            Stage::Request { parts, .. } => {
                assert(parts@.len() == parts.len());
            },
            _ => {},
        }
        assert(a.moves(inv, stages, replies, i - 1));
    }
    if i == stages.len() - 1 {
        assert(stages.last() == stages[i]);
    } else {
        assert(a.moves(inv, stages, replies, i));
    }
}

/// Where the reserve is within dust of the buffer, a rebalance moves nothing.
pub proof fn a_rebalance_leaves_dust_alone(
    a: AgUsd,
    inv: Invocation,
    stages: Seq<Stage>,
    replies: Seq<Reply>,
    held: i128,
)
    requires
        a.targets@.len() > 0,
        a.runs(inv, stages, replies),
        replies[a.targets@.len() as int] == Reply::Reserve(Ok(held)),
        -MIN_ALLOC < held - a.buffer_target() < MIN_ALLOC,
    ensures
        replies.len() == a.targets@.len() + 1,
{
    let n = a.targets@.len() as int;
    lemma_harvest(a, inv, stages, replies, n);
    assert(a.moves(inv, stages, replies, n));
    if n + 1 < replies.len() {
        assert(a.moves(inv, stages, replies, n + 1));
    }
}

} // verus!
