//! Laws of the dollar with a reserve.

use crate::address::Address;
use crate::agusd::{
    claims, deploying_leaves_only_dust, deploying_leaves_the_buffer, draws, drawn, lemma_harvest,
    share_of, staked, stakes, weights, worth, Action, AgUsd,
    AgUsdError, Draw, Quote, Reply, Stage, Target,
};
use crate::host::{Call, Event, Fault, InvokeError, Invocation, Receipt, Rent, Trap};
use crate::math::fits;
use crate::token::{held, TokenError, TokenMetadata};
use vstd::prelude::*;

verus! {

/// Whether `part` is `bps` basis points of a whole, rounded down.
pub open spec fn rounded_share(part: int, whole: int, bps: int) -> bool {
    part * 10_000 <= whole * bps < (part + 1) * 10_000
}

/// The share of the supply to keep in reserve is the one that was given last,
/// at the start or since, and a fifth where none ever was.
pub proof fn the_buffer_is_what_was_set(
    a: AgUsd,
    after: AgUsd,
    inv: Invocation,
    admin: Address,
    usdc: Address,
    treasury: Address,
    buffer_bps: u32,
    metadata: TokenMetadata,
    d: Receipt<()>,
    r: Result<Receipt<()>, Trap>,
)
    ensures
        a.buffer_bps is None ==> a.buffer() == 2_000,
        a.buffer_bps is Some ==> a.buffer() == a.buffer_bps->0,
        a.initialize_step(after, admin, usdc, treasury, buffer_bps, metadata, d) ==> {
            &&& after.buffer_bps == Some(buffer_bps)
            &&& after.admin == Some(admin)
            &&& after.usdc == Some(usdc)
            &&& after.treasury == Some(treasury)
            &&& after.token.metadata == Some(metadata)
            &&& after.targets == a.targets
            &&& after.token.supply == a.token.supply
            &&& after.token.balances == a.token.balances
            &&& after.token.allowances == a.token.allowances
        },
        a.set_buffer_bps_step(after, inv, buffer_bps, r) ==> {
            &&& r is Ok <==> a.admin is Some && inv.signers@.contains(a.admin->0)
            &&& r is Ok ==> after.buffer_bps == Some(buffer_bps)
            &&& r is Err ==> after.buffer_bps == a.buffer_bps
            &&& after == (AgUsd { buffer_bps: after.buffer_bps, ..a })
        },
{
}

/// The targets are what the admin set last.
pub proof fn the_targets_are_what_was_set(
    a: AgUsd,
    after: AgUsd,
    inv: Invocation,
    targets: Vec<Target>,
    r: Result<Receipt<()>, Trap>,
)
    requires
        a.set_targets_step(after, inv, targets, r),
    ensures
        r is Ok <==> a.admin is Some && inv.signers@.contains(a.admin->0),
        r is Ok ==> after.targets == targets,
        r is Err ==> after.targets == a.targets,
        after == (AgUsd { targets: after.targets, ..a }),
        a.admin is None ==> r == Err::<Receipt<()>, Trap>(Trap::Absent),
{
}

/// The reserve aimed for is the configured share of the supply, rounded down.
pub proof fn the_reserve_aimed_for_is_the_configured_share(a: AgUsd)
    requires
        a.token.supply >= 0,
    ensures
        a.buffer_bps is Some ==> rounded_share(
            a.buffer_target(),
            a.token.supply as int,
            a.buffer_bps->0 as int,
        ),
        a.buffer_bps is None ==> rounded_share(a.buffer_target(), a.token.supply as int, 2_000),
        a.buffer_target() >= 0,
{
    let b = a.buffer() as int;
    let x = a.token.supply * b;
    assert(x >= 0) by (nonlinear_arith)
        requires
            x == a.token.supply * b,
            a.token.supply >= 0,
            b >= 0,
    ;
}

/// A supply and its configured share have one rounding only.
proof fn lemma_one_target(a: AgUsd, bps: int, target: int)
    requires
        a.token.supply >= 0,
        bps == a.buffer(),
        rounded_share(target, a.token.supply as int, bps),
    ensures
        target == a.buffer_target(),
{
    the_reserve_aimed_for_is_the_configured_share(a);
}

/// What is measured as excess is what the reserve holds beyond the configured
/// share of the supply, whichever share was configured, and it is measured
/// wherever USDC is known and answers and the amounts stay in range.
pub proof fn the_excess_is_over_the_configured_share(
    a: AgUsd,
    reserve: i128,
    bps: u32,
    target: int,
)
    requires
        a.token.supply >= 0,
        a.buffer_bps == Some(bps),
        rounded_share(target, a.token.supply as int, bps as int),
        a.usdc is Some,
        fits(a.token.supply * bps),
        fits(reserve - target),
    ensures
        a.excess(Ok::<i128, InvokeError>(reserve)) == Ok::<int, Trap>(reserve - target),
{
    lemma_one_target(a, bps as int, target);
}

/// A plan deploys where the reserve is at least the least worth moving above
/// the configured share of the supply, refills where it is as much below, and
/// is done in between.
pub proof fn a_plan_steers_to_the_configured_share(
    a: AgUsd,
    inv: Invocation,
    reserve: i128,
    bps: u32,
    target: int,
    r: Result<Stage, Trap>,
)
    requires
        a.token.supply >= 0,
        a.targets@.len() > 0,
        a.buffer_bps == Some(bps),
        rounded_share(target, a.token.supply as int, bps as int),
        a.planned(inv, Ok::<i128, InvokeError>(reserve), r),
        r is Ok,
    ensures
        r->Ok_0 is Deploy <==> reserve - target >= 1_000_000,
        r->Ok_0 is Refill <==> target - reserve >= 1_000_000,
        r->Ok_0 is Done <==> -1_000_000 < reserve - target < 1_000_000,
        r->Ok_0 matches Stage::Deploy { calls, next } ==> next == 0 && calls@ == stakes(
            reserve - target,
            a.targets@,
            inv.contract,
        ),
        r->Ok_0 matches Stage::Refill { parts, next } ==> next == 0 && parts@ == draws(
            target - reserve,
            a.targets@,
        ),
{
    lemma_one_target(a, bps as int, target);
}

/// A plan is made wherever there are targets, USDC is known and answers, and
/// the amounts stay in range.
pub proof fn a_plan_is_made_in_range(
    a: AgUsd,
    inv: Invocation,
    reserve: i128,
    bps: u32,
    target: int,
    r: Result<Stage, Trap>,
)
    requires
        a.token.supply >= 0,
        a.buffer_bps == Some(bps),
        rounded_share(target, a.token.supply as int, bps as int),
        a.usdc is Some,
        fits(a.token.supply * bps),
        fits(reserve - target),
        fits(target - reserve),
        forall|i: int|
            0 <= i < a.targets@.len() ==> fits(
                (reserve - target) * (#[trigger] a.targets@[i]).weight_bps,
            ) && fits((target - reserve) * a.targets@[i].weight_bps),
        a.planned(inv, Ok::<i128, InvokeError>(reserve), r),
    ensures
        r is Ok,
        a.targets@.len() == 0 ==> r->Ok_0 is Done,
{
    lemma_one_target(a, bps as int, target);
}

/// The calls that a run makes between two of its stages.
pub open spec fn made(a: AgUsd, inv: Invocation, stages: Seq<Stage>, from: int, to: int) -> Seq<
    Call,
> {
    Seq::new(
        (to - from) as nat,
        |j: int| a.action(inv, stages[from + j])->Make_0,
    )
}

/// A rebalance that finds the reserve above the configured share of the supply
/// stakes the excess and nothing else. What it leaves in the reserve is no less
/// than that share where the weights add up to no more than the whole, and less
/// than one unit per target more where they add up to the whole.
pub proof fn a_rebalance_leaves_the_configured_share(
    a: AgUsd,
    inv: Invocation,
    stages: Seq<Stage>,
    replies: Seq<Reply>,
    reserve: i128,
    bps: u32,
    target: int,
)
    requires
        a.token.supply >= 0,
        a.targets@.len() > 0,
        a.buffer_bps == Some(bps),
        rounded_share(target, a.token.supply as int, bps as int),
        a.runs(inv, stages, replies),
        replies[a.targets@.len() as int] == Reply::Reserve(Ok(reserve)),
        reserve - target >= 1_000_000,
    ensures
        ({
            let n = a.targets@.len() as int;
            let calls = made(a, inv, stages, n + 1, replies.len() as int);
            &&& n < replies.len()
            &&& forall|j: int|
                n < j < replies.len() ==> (a.action(inv, #[trigger] stages[j]) matches Action::Make(
                    call,
                ) && call is Stake)
            &&& weights(a.targets@) <= 10_000 ==> target <= reserve - staked(calls)
            &&& weights(a.targets@) == 10_000 ==> reserve - staked(calls) < target + n
        }),
{
    lemma_one_target(a, bps as int, target);
    let n = a.targets@.len() as int;
    let excess = reserve - target;
    let planned = stakes(excess, a.targets@, inv.contract);
    crate::agusd::a_rebalance_deploys_the_excess(a, inv, stages, replies, reserve);
    assert forall|j: int| n < j < replies.len() implies (a.action(
        inv,
        #[trigger] stages[j],
    ) matches Action::Make(call) && call is Stake) by {
        let k = j - n - 1;
        assert(stages[n + 1 + k] == stages[j]);
        crate::agusd::a_rebalance_stakes_only_with_the_targets(
            excess,
            a.targets@,
            inv.contract,
            k,
        );
    }
    let calls = made(a, inv, stages, n + 1, replies.len() as int);
    assert forall|j: int| 0 <= j < planned.len() implies calls[j] == planned[j] by {
        assert(a.action(inv, stages[n + 1 + j]) == Action::Make(planned[j]));
    }
    assert(calls =~= planned);
    lemma_harvest(a, inv, stages, replies, n);
    assert(a.moves(inv, stages, replies, n));
    if weights(a.targets@) <= 10_000 {
        deploying_leaves_the_buffer(excess, a.targets@, inv.contract);
    }
    if weights(a.targets@) == 10_000 {
        deploying_leaves_only_dust(excess, a.targets@, inv.contract);
    }
}

/// What is staked is the sum of the stakes, and the weights are summed.
pub proof fn sums_are_over_every_entry(
    calls: Seq<Call>,
    vault: Address,
    from: Address,
    amount: i128,
    targets: Seq<Target>,
    t: Target,
)
    ensures
        staked(seq![]) == 0,
        staked(calls.push(Call::Stake { vault, from, amount })) == staked(calls) + amount,
        weights(seq![]) == 0,
        weights(targets.push(t)) == weights(targets) + t.weight_bps,
{
    assert(calls.push(Call::Stake { vault, from, amount }).drop_last() =~= calls);
    assert(targets.push(t).drop_last() =~= targets);
}

/// A target's part of an amount is its weight of it, rounded down.
pub proof fn a_part_is_a_weight_of_the_amount(amount: int, t: Target)
    requires
        amount >= 0,
    ensures
        share_of(amount, t) >= 0,
        rounded_share(share_of(amount, t), amount, t.weight_bps as int),
{
    let x = amount * t.weight_bps;
    assert(x >= 0) by (nonlinear_arith)
        requires
            x == amount * t.weight_bps,
            amount >= 0,
    ;
}

/// Every target whose part is not nothing is staked its part, and drawn on for
/// its part, in the order of the targets, and no other is.
pub proof fn every_target_gets_its_part(amount: int, targets: Seq<Target>, from: Address)
    ensures
        stakes(amount, targets, from) == targets.filter(
            |t: Target| share_of(amount, t) > 0,
        ).map_values(
            |t: Target|
                Call::Stake { vault: t.vault, from, amount: share_of(amount, t) as i128 },
        ),
        draws(amount, targets) == targets.filter(|t: Target| share_of(amount, t) > 0).map_values(
            |t: Target| Draw { vault: t.vault, part: share_of(amount, t) as i128 },
        ),
    decreases targets.len(),
{
    reveal(Seq::filter);
    let some = |t: Target| share_of(amount, t) > 0;
    let stake = |t: Target|
        Call::Stake { vault: t.vault, from, amount: share_of(amount, t) as i128 };
    let draw = |t: Target| Draw { vault: t.vault, part: share_of(amount, t) as i128 };
    if targets.len() > 0 {
        let rest = targets.drop_last();
        every_target_gets_its_part(amount, rest, from);
        let kept = rest.filter(some);
        assert(kept.push(targets.last()).map_values(stake) =~= kept.map_values(stake).push(
            stake(targets.last()),
        ));
        assert(kept.push(targets.last()).map_values(draw) =~= kept.map_values(draw).push(
            draw(targets.last()),
        ));
    }
    assert(stakes(amount, targets, from) =~= targets.filter(some).map_values(stake));
    assert(draws(amount, targets) =~= targets.filter(some).map_values(draw));
}

/// Every target is tried for a claim, in the contract's own name.
pub proof fn every_target_is_claimed_from(targets: Seq<Target>, from: Address, i: int)
    requires
        0 <= i < targets.len(),
    ensures
        claims(targets, from).len() == targets.len(),
        claims(targets, from)[i] == (Call::Claim { vault: targets[i].vault, from }),
{
}

/// A draw requests as many shares as its part buys back at the price quoted,
/// rounded down, and never more than are held; and asks for nothing where that
/// is nothing, or where there is no price or no share.
pub proof fn a_draw_requests_what_its_part_is_worth(
    draw: Draw,
    quote: Quote,
    from: Address,
)
    requires
        draw.part >= 0,
        fits(draw.part * 10_000_000),
    ensures
        drawn(draw, quote, from) is Ok,
        quote.share_price <= 0 || quote.balance <= 0 ==> drawn(draw, quote, from)->Ok_0 is None,
        drawn(draw, quote, from)->Ok_0 matches Some(call) ==> {
            &&& call matches Call::RequestUnstake { vault, from: whose, shares } && vault
                == draw.vault && whose == from && 0 < shares <= quote.balance && shares
                * quote.share_price <= draw.part * 10_000_000 && (shares < quote.balance
                ==> draw.part * 10_000_000 < (shares + 1) * quote.share_price)
        },
        drawn(draw, quote, from)->Ok_0 is None && quote.share_price > 0 && quote.balance > 0
            ==> draw.part * 10_000_000 < quote.share_price,
{
    if quote.share_price > 0 && quote.balance > 0 {
        let x = draw.part * 10_000_000;
        let d = quote.share_price as int;
        let q = x / d;
        assert(q >= 0 && q * d <= x < (q + 1) * d) by (nonlinear_arith)
            requires
                q == x / d,
                x >= 0,
                d > 0,
        ;
        let b = quote.balance as int;
        if b < q {
            assert(b * d <= q * d) by (nonlinear_arith)
                requires
                    b < q,
                    d > 0,
            ;
        }
        if q == 0 {
            assert(x < d) by (nonlinear_arith)
                requires
                    x < (q + 1) * d,
                    q == 0,
            ;
        }
        crate::math::lemma_quotient_shrinks(x, d);
    }
}

/// What is deployed is worth the shares at their prices, each holding rounded
/// down, and is the sum over all of them.
pub proof fn what_is_deployed_is_worth_its_shares(quotes: Seq<Quote>, q: Quote)
    requires
        q.balance >= 0,
        q.share_price >= 0,
    ensures
        worth(seq![]) == Some(0int),
        worth(quotes) is None ==> worth(quotes.push(q)) is None,
        worth(quotes) is Some && worth(quotes.push(q)) is Some ==> {
            let value = worth(quotes.push(q))->0 - worth(quotes)->0;
            &&& value * 10_000_000 <= q.balance * q.share_price < (value + 1) * 10_000_000
            &&& fits(q.balance * q.share_price)
            &&& fits(worth(quotes.push(q))->0)
        },
        worth(quotes) is Some && fits(q.balance * q.share_price) && fits(
            worth(quotes)->0 + q.balance * q.share_price,
        ) && worth(quotes)->0 >= 0 ==> worth(quotes.push(q)) is Some,
{
    assert(quotes.push(q).drop_last() =~= quotes);
    let x = q.balance * q.share_price;
    assert(x >= 0) by (nonlinear_arith)
        requires
            x == q.balance * q.share_price,
            q.balance >= 0,
            q.share_price >= 0,
    ;
}

/// A deposit mints exactly what it takes: it takes the depositor's signature
/// and a positive amount, pulls the amount of USDC into the contract, credits
/// the depositor as much, and starts a rebalance.
pub proof fn a_deposit_mints_what_it_takes(
    a: AgUsd,
    after: AgUsd,
    inv: Invocation,
    from: Address,
    amount: i128,
    r: Result<Receipt<Stage>, Trap>,
    other: Address,
)
    requires
        a.sound(),
        a.deposit_step(after, inv, from, amount, r),
        other != from,
    ensures
        r is Ok <==> {
            &&& inv.signers@.contains(from)
            &&& amount > 0
            &&& a.usdc is Some
            &&& a.token.supply + amount <= i128::MAX
        },
        r is Ok ==> {
            &&& held(after.token.balances@, from) == held(a.token.balances@, from) + amount
            &&& after.token.supply == a.token.supply + amount
            &&& r->Ok_0.effects.calls@ == seq![
                Call::Transfer { token: a.usdc->0, from, to: inv.contract, amount },
            ]
            &&& r->Ok_0.effects.events@ == seq![Event::Mint { to: from, amount }]
            &&& r->Ok_0.value is Done <==> a.targets@.len() == 0
            &&& a.targets@.len() > 0 ==> r->Ok_0.value == (Stage::Harvest { next: 0 })
        },
        held(after.token.balances@, other) == held(a.token.balances@, other),
        after.admin == a.admin && after.usdc == a.usdc && after.treasury == a.treasury
            && after.targets == a.targets && after.buffer_bps == a.buffer_bps
            && after.token.allowances == a.token.allowances,
        r is Err ==> after == a,
{
    a.token.supply_covers_every_balance(from);
}

/// A redemption pays exactly what it burns: it takes the holder's signature, a
/// positive amount that the reserve and the holder's balance cover, burns it,
/// pays the holder as much USDC out of the contract, and starts a rebalance.
pub proof fn a_redemption_pays_what_it_burns(
    a: AgUsd,
    after: AgUsd,
    inv: Invocation,
    from: Address,
    amount: i128,
    reserve: Result<i128, InvokeError>,
    r: Result<Receipt<Stage>, Fault<AgUsdError>>,
    other: Address,
)
    requires
        a.sound(),
        a.redeem_step(after, inv, from, amount, reserve, r),
        other != from,
    ensures
        r is Ok <==> {
            &&& inv.signers@.contains(from)
            &&& a.usdc is Some
            &&& reserve is Ok
            &&& 0 < amount <= reserve->Ok_0
            &&& amount <= held(a.token.balances@, from)
        },
        r is Ok ==> {
            &&& held(after.token.balances@, from) == held(a.token.balances@, from) - amount
            &&& after.token.supply == a.token.supply - amount
            &&& r->Ok_0.effects.calls@ == seq![
                Call::Transfer { token: a.usdc->0, from: inv.contract, to: from, amount },
            ]
            &&& r->Ok_0.effects.events@ == seq![Event::Burn { from, amount }]
            &&& r->Ok_0.value is Done <==> a.targets@.len() == 0
        },
        held(after.token.balances@, other) == held(a.token.balances@, other),
        after.admin == a.admin && after.usdc == a.usdc && after.treasury == a.treasury
            && after.targets == a.targets && after.buffer_bps == a.buffer_bps
            && after.token.allowances == a.token.allowances,
        r is Err ==> after == a,
        r == Err::<Receipt<Stage>, Fault<AgUsdError>>(Fault::Error(AgUsdError::InsufficientBuffer))
            ==> reserve is Ok && amount > reserve->Ok_0,
        r == Err::<Receipt<Stage>, Fault<AgUsdError>>(
            Fault::Trap(Trap::Token(TokenError::InsufficientBalance)),
        ) ==> amount > held(a.token.balances@, from),
{
    a.token.supply_covers_every_balance(from);
}

/// A sweep pays the treasury, a refund is paid in by whoever signed it, and the
/// admin alone may unstake or claim by hand; each moves the amount it names.
pub proof fn what_is_moved_by_hand(
    a: AgUsd,
    inv: Invocation,
    vault: Address,
    from: Address,
    amount: i128,
    r: Result<Receipt<()>, Trap>,
)
    ensures
        a.sweep_step(inv, amount, r) ==> {
            &&& r is Ok <==> a.admin is Some && inv.signers@.contains(a.admin->0) && a.usdc is Some
                && a.treasury is Some
            &&& r is Ok ==> r->Ok_0.effects.calls@ == seq![
                Call::Transfer {
                    token: a.usdc->0,
                    from: inv.contract,
                    to: a.treasury->0,
                    amount,
                },
            ]
        },
        a.refund_reserve_step(inv, from, amount, r) ==> {
            &&& r is Ok <==> inv.signers@.contains(from) && a.usdc is Some
            &&& r is Ok ==> r->Ok_0.effects.calls@ == seq![
                Call::Transfer { token: a.usdc->0, from, to: inv.contract, amount },
            ]
        },
        a.deallocate_step(inv, vault, amount, r) ==> {
            &&& r is Ok <==> a.admin is Some && inv.signers@.contains(a.admin->0)
            &&& r is Ok ==> r->Ok_0.effects.calls@ == seq![
                Call::RequestUnstake { vault, from: inv.contract, shares: amount },
            ]
        },
        a.claim_alloc_step(inv, vault, r) ==> {
            &&& r is Ok <==> a.admin is Some && inv.signers@.contains(a.admin->0)
            &&& r is Ok ==> r->Ok_0.effects.calls@ == seq![
                Call::Claim { vault, from: inv.contract },
            ]
        },
{
}

/// The reserve is what USDC says the contract holds.
pub proof fn the_reserve_is_what_is_held(a: AgUsd, reserve: Result<i128, InvokeError>)
    ensures
        a.usdc is Some && reserve is Ok ==> a.reserve_answer(reserve) == Ok::<i128, Trap>(
            reserve->Ok_0,
        ),
        a.usdc is None ==> a.reserve_answer(reserve) == Err::<i128, Trap>(Trap::Absent),
        a.reserve_answer(reserve) is Ok ==> a.usdc is Some && reserve is Ok,
{
}

/// A rebalance moves on with every answer it asked for: past a target that was
/// tried, past a stake that was made, past a draw that came to nothing or was
/// requested; and stays where it is on any other answer.
pub proof fn a_rebalance_moves_on_with_every_answer(
    a: AgUsd,
    inv: Invocation,
    stage: Stage,
    reply: Reply,
    next: Stage,
)
    requires
        a.advanced(inv, stage, reply, Ok(next)),
    ensures
        stage matches Stage::Harvest { next: i } ==> (i < a.targets@.len() ==> {
            &&& a.action(inv, stage) == Action::Attempt(
                Call::Claim { vault: a.targets@[i as int].vault, from: inv.contract },
            )
            &&& reply is Called ==> (next matches Stage::Harvest { next: j } && j == i + 1)
            &&& !(reply is Called) ==> next == stage
        }),
        stage matches Stage::Harvest { next: i } ==> (i >= a.targets@.len() ==> {
            &&& a.action(inv, stage) is AskReserve
            &&& reply matches Reply::Reserve(answer) ==> a.planned(inv, answer, Ok(next))
            &&& !(reply is Reserve) ==> next == stage
        }),
        stage matches Stage::Deploy { calls, next: i } ==> (i < calls@.len() ==> {
            &&& a.action(inv, stage) == Action::Make(calls@[i as int])
            &&& reply is Called ==> (next matches Stage::Deploy { calls: same, next: j } && same
                == calls && j == i + 1)
            &&& !(reply is Called) ==> next == stage
        }),
        stage matches Stage::Refill { parts, next: i } ==> (i < parts@.len() ==> {
            &&& a.action(inv, stage) == (Action::AskQuote { vault: parts@[i as int].vault })
            &&& reply matches Reply::Quoted(quote) ==> {
                let draw = drawn(parts@[i as int], quote, inv.contract);
                &&& draw is Ok
                &&& draw->Ok_0 is None ==> (next matches Stage::Refill { parts: same, next: j }
                    && same == parts && j == i + 1)
                &&& draw->Ok_0 matches Some(call) ==> next == (Stage::Request {
                    parts,
                    next: i,
                    call,
                })
            }
            &&& !(reply is Quoted) ==> next == stage
        }),
        stage matches Stage::Request { parts, next: i, call } ==> (i < parts@.len() ==> {
            &&& a.action(inv, stage) == Action::Attempt(call)
            &&& reply is Called ==> (next matches Stage::Refill { parts: same, next: j } && same
                == parts && j == i + 1)
            &&& !(reply is Called) ==> next == stage
        }),
        stage is Done ==> a.action(inv, stage) is Finish && next == stage,
        stage matches Stage::Deploy { calls, next: i } ==> (i >= calls@.len()
            ==> a.action(inv, stage) is Finish && next == stage),
        stage matches Stage::Refill { parts, next: i } ==> (i >= parts@.len()
            ==> a.action(inv, stage) is Finish && next == stage),
{
    assert(a.targets@.len() == a.targets.len());
    match stage {
        Stage::Deploy { calls, .. } => {
            assert(calls@.len() == calls.len());
        },
        Stage::Refill { parts, .. } => {
            assert(parts@.len() == parts.len());
        },
        Stage::Request { parts, .. } => {
            assert(parts@.len() == parts.len());
        },
        _ => {},
    }
}

/// Only a rebalance that cannot go on stops with a trap: one whose reserve
/// cannot be told or is out of range, or whose draw is.
pub proof fn a_rebalance_stops_only_where_it_cannot_go_on(
    a: AgUsd,
    inv: Invocation,
    stage: Stage,
    reply: Reply,
    trap: Trap,
)
    requires
        a.advanced(inv, stage, reply, Err(trap)),
    ensures
        ({
            ||| (stage is Harvest && (reply matches Reply::Reserve(answer) && a.planned(
                inv,
                answer,
                Err(trap),
            )))
            ||| (stage matches Stage::Refill { parts, next } && (reply matches Reply::Quoted(quote)
                && drawn(parts@[next as int], quote, inv.contract) == Err::<Option<Call>, Trap>(
                trap,
            )))
        }),
{
}

/// A rebalance starts with the first target, and is done where there is none;
/// what it moves by hand or on its own keeps the balances it wrote alive.
pub proof fn a_rebalance_starts_with_the_first_target(
    a: AgUsd,
    after: AgUsd,
    inv: Invocation,
    from: Address,
    amount: i128,
    reserve: Result<i128, InvokeError>,
    s: Receipt<Stage>,
)
    ensures
        a.targets@.len() == 0 ==> a.begun() is Done && a.begun_rent().len() == 0,
        a.targets@.len() > 0 ==> a.begun() == (Stage::Harvest { next: 0 }) && a.begun_rent()
            == seq![Rent::Instance],
        a.deposit_step(after, inv, from, amount, Ok(s)) || a.redeem_step(
            after,
            inv,
            from,
            amount,
            reserve,
            Ok(s),
        ) ==> s.value == after.begun() && s.effects.rent@ == seq![
            Rent::Instance,
            Rent::Balance { of: from },
        ],
{
}

/// Each refusal names what stands against it, and a plan that is made kept every
/// amount in range.
pub proof fn a_refusal_names_its_reason(
    a: AgUsd,
    after: AgUsd,
    inv: Invocation,
    who: Address,
    amount: i128,
    bps: u32,
    targets: Vec<Target>,
    reserve: Result<i128, InvokeError>,
    stage: Stage,
    t: Trap,
)
    requires
        a.sound(),
    ensures
        a.set_targets_step(after, inv, targets, Err(t)) ==> match t {
            Trap::Absent => a.admin is None,
            Trap::Unauthorized => a.admin is Some && !inv.signers@.contains(a.admin->0),
            _ => false,
        },
        a.set_buffer_bps_step(after, inv, bps, Err(t)) ==> match t {
            Trap::Absent => a.admin is None,
            Trap::Unauthorized => a.admin is Some && !inv.signers@.contains(a.admin->0),
            _ => false,
        },
        a.deallocate_step(inv, who, amount, Err(t)) ==> match t {
            Trap::Absent => a.admin is None,
            Trap::Unauthorized => a.admin is Some && !inv.signers@.contains(a.admin->0),
            _ => false,
        },
        a.claim_alloc_step(inv, who, Err(t)) ==> match t {
            Trap::Absent => a.admin is None,
            Trap::Unauthorized => a.admin is Some && !inv.signers@.contains(a.admin->0),
            _ => false,
        },
        a.sweep_step(inv, amount, Err(t)) ==> match t {
            Trap::Absent => a.admin is None || a.usdc is None || a.treasury is None,
            Trap::Unauthorized => a.admin is Some && !inv.signers@.contains(a.admin->0),
            _ => false,
        },
        a.refund_reserve_step(inv, who, amount, Err(t)) ==> match t {
            Trap::Absent => a.usdc is None,
            Trap::Unauthorized => !inv.signers@.contains(who),
            _ => false,
        },
        a.deposit_step(after, inv, who, amount, Err(t)) ==> match t {
            Trap::Unauthorized => !inv.signers@.contains(who),
            Trap::BadArgument => amount <= 0,
            Trap::Absent => a.usdc is None,
            Trap::Overflow => a.token.supply + amount > i128::MAX,
            _ => false,
        },
        a.redeem_fault(inv, who, amount, reserve) matches Some(f) ==> match f {
            Fault::Error(AgUsdError::InsufficientBuffer) => reserve is Ok && amount > reserve->Ok_0,
            Fault::Trap(Trap::Unauthorized) => !inv.signers@.contains(who),
            Fault::Trap(Trap::BadArgument) => amount <= 0,
            Fault::Trap(Trap::Absent) => a.usdc is None,
            Fault::Trap(Trap::Callee(e)) => reserve is Err && reserve->Err_0 == e,
            Fault::Trap(Trap::Token(TokenError::InsufficientBalance)) => amount > held(
                a.token.balances@,
                who,
            ),
            _ => false,
        },
        a.planned(inv, reserve, Err(t)) ==> match t {
            Trap::Absent => a.usdc is None,
            Trap::Callee(e) => reserve is Err && reserve->Err_0 == e,
            Trap::Overflow => reserve is Ok,
            _ => false,
        },
        a.excess(reserve) is Ok ==> a.usdc is Some && reserve is Ok && fits(
            a.token.supply * a.buffer(),
        ),
        a.planned(inv, reserve, Ok(stage)) && stage is Deploy ==> forall|i: int|
            0 <= i < a.targets@.len() ==> fits(
                a.excess(reserve)->Ok_0 * (#[trigger] a.targets@[i]).weight_bps,
            ),
        a.planned(inv, reserve, Ok(stage)) && stage is Refill ==> forall|i: int|
            0 <= i < a.targets@.len() ==> fits(
                -a.excess(reserve)->Ok_0 * (#[trigger] a.targets@[i]).weight_bps,
            ),
{
    a.token.supply_covers_every_balance(who);
}

} // verus!
