//! Laws of the oracle.

use crate::address::{Address, Symbol};
use crate::host::{Event, Fault, Invocation, Receipt, Rent, Trap};
use crate::math::fits;
use crate::oracle::{
    deviation, in_round, resolved, tally, voted, withdrawn, Ballot, Feed, NavPoint, OracleAdapter,
    OracleError, PushOutcome,
};
use vstd::prelude::*;

verus! {

/// How far one value is from another, whichever is the larger.
pub open spec fn distance(a: int, b: int) -> int {
    if a < b {
        b - a
    } else {
        a - b
    }
}

/// A deviation is the distance as a share of the last value, in basis points,
/// rounded down, for a fall as for a rise.
pub proof fn a_deviation_is_a_share_of_the_last_value(nav: int, last: int)
    requires
        last > 0,
    ensures
        deviation(nav, last) >= 0,
        deviation(nav, last) * last <= distance(nav, last) * 10_000 < (deviation(nav, last) + 1)
            * last,
        nav >= last ==> deviation(nav, last) * last <= (nav - last) * 10_000,
        nav <= last ==> deviation(nav, last) * last <= (last - nav) * 10_000,
{
    let x = distance(nav, last) * 10_000;
    let q = deviation(nav, last);
    assert(q == x / last);
    assert(q >= 0 && q * last <= x < (q + 1) * last) by (nonlinear_arith)
        requires
            q == x / last,
            x >= 0,
            last > 0,
    ;
}

/// A fall counts for as much as a rise of the same size.
pub proof fn a_fall_counts_as_a_rise(by: int, last: int)
    requires
        last > 0,
    ensures
        deviation(last + by, last) == deviation(last - by, last),
{
}

/// A larger move is no smaller a deviation, and none is none.
pub proof fn a_larger_move_deviates_no_less(near: int, far: int, last: int)
    requires
        last > 0,
        distance(near, last) <= distance(far, last),
    ensures
        deviation(near, last) <= deviation(far, last),
        deviation(last, last) == 0,
{
    a_deviation_is_a_share_of_the_last_value(near, last);
    a_deviation_is_a_share_of_the_last_value(far, last);
    a_deviation_is_a_share_of_the_last_value(last, last);
    lemma_bounded(deviation(near, last), deviation(far, last), last, distance(far, last) * 10_000);
    lemma_bounded(deviation(last, last), 0, last, 0);
}

/// What multiplies into less than one step more is no more.
proof fn lemma_bounded(a: int, b: int, last: int, x: int)
    requires
        last > 0,
        a * last <= x,
        x < (b + 1) * last,
    ensures
        a <= b,
{
    assert(a <= b) by (nonlinear_arith)
        requires
            last > 0,
            a * last <= x,
            x < (b + 1) * last,
    ;
}

/// Only the admin may act as the admin, and only signed.
pub proof fn an_admin_call_is_the_admins(o: OracleAdapter, inv: Invocation, admin: Address)
    ensures
        o.admin_fault(inv, admin) is None <==> o.role.admin == Some(admin)
            && inv.signers@.contains(admin),
        o.admin_fault(inv, admin) == Some(Fault::<OracleError>::Error(OracleError::NotInitialized))
            <==> o.role.admin is None,
        o.admin_fault(inv, admin) == Some(Fault::<OracleError>::Error(OracleError::NotAdmin))
            <==> o.role.admin is Some && o.role.admin != Some(admin),
        o.admin_fault(inv, admin) == Some(Fault::<OracleError>::Trap(Trap::Unauthorized))
            <==> o.role.admin == Some(admin) && !inv.signers@.contains(admin),
{
}

/// A tally is the number of ballots cast for a value, for that feed at that
/// time.
pub proof fn a_tally_counts_the_ballots_for_a_value(
    ballots: Seq<Ballot>,
    feed: Symbol,
    timestamp: u64,
    nav: i128,
)
    ensures
        tally(ballots, feed, timestamp, nav) == ballots.filter(
            |b: Ballot| b.feed_id == feed && b.timestamp == timestamp && b.nav == nav,
        ).len(),
    decreases ballots.len(),
{
    reveal(Seq::filter);
    if ballots.len() > 0 {
        a_tally_counts_the_ballots_for_a_value(ballots.drop_last(), feed, timestamp, nav);
    }
}

/// A reporter has voted when a ballot of theirs for that feed at that time is
/// still open.
pub proof fn a_vote_is_an_open_ballot(
    ballots: Seq<Ballot>,
    feed: Symbol,
    timestamp: u64,
    reporter: Address,
)
    ensures
        voted(ballots, feed, timestamp, reporter) <==> exists|i: int|
            0 <= i < ballots.len() && #[trigger] ballots[i].open && ballots[i].feed_id == feed
                && ballots[i].timestamp == timestamp && ballots[i].reporter == reporter,
{
    if voted(ballots, feed, timestamp, reporter) {
        let i = choose|i: int|
            0 <= i < ballots.len() && in_round(#[trigger] ballots[i], feed, timestamp)
                && ballots[i].reporter == reporter && ballots[i].open;
        assert(ballots[i].open);
    }
    if exists|i: int|
        0 <= i < ballots.len() && #[trigger] ballots[i].open && ballots[i].feed_id == feed
            && ballots[i].timestamp == timestamp && ballots[i].reporter == reporter {
        let i = choose|i: int|
            0 <= i < ballots.len() && #[trigger] ballots[i].open && ballots[i].feed_id == feed
                && ballots[i].timestamp == timestamp && ballots[i].reporter == reporter;
        assert(in_round(ballots[i], feed, timestamp));
    }
}

/// A commit drops the ballots that were cast for the value, closes the others
/// of the round and leaves every other round as it was.
pub proof fn a_commit_drops_its_tally_and_closes_its_round(
    ballots: Seq<Ballot>,
    feed: Symbol,
    timestamp: u64,
    nav: i128,
)
    ensures
        resolved(ballots, feed, timestamp, nav) == ballots.filter(
            |b: Ballot| !(b.feed_id == feed && b.timestamp == timestamp && b.nav == nav),
        ).map_values(
            |b: Ballot|
                if b.feed_id == feed && b.timestamp == timestamp {
                    (Ballot { open: false, ..b })
                } else {
                    b
                },
        ),
    decreases ballots.len(),
{
    reveal(Seq::filter);
    let keep = |b: Ballot| !(b.feed_id == feed && b.timestamp == timestamp && b.nav == nav);
    let close = |b: Ballot|
        if b.feed_id == feed && b.timestamp == timestamp {
            (Ballot { open: false, ..b })
        } else {
            b
        };
    if ballots.len() > 0 {
        let rest = ballots.drop_last();
        a_commit_drops_its_tally_and_closes_its_round(rest, feed, timestamp, nav);
        assert(rest.filter(keep).push(ballots.last()).map_values(close) =~= rest.filter(
            keep,
        ).map_values(close).push(close(ballots.last())));
    }
    assert(resolved(ballots, feed, timestamp, nav) =~= ballots.filter(keep).map_values(close));
}

/// A reporter that is removed takes their open ballots with them, and nobody
/// else's.
pub proof fn a_removal_takes_the_open_ballots(ballots: Seq<Ballot>, reporter: Address)
    ensures
        withdrawn(ballots, reporter) == ballots.filter(
            |b: Ballot| !(b.open && b.reporter == reporter),
        ),
    decreases ballots.len(),
{
    reveal(Seq::filter);
    if ballots.len() > 0 {
        a_removal_takes_the_open_ballots(ballots.drop_last(), reporter);
    } else {
        assert(withdrawn(ballots, reporter) =~= ballots);
    }
}

/// A feed asks for as many reporters as were set for it, and for one where
/// none were.
pub proof fn a_feed_asks_for_its_threshold(o: OracleAdapter, feed: Symbol, who: Address)
    ensures
        o.thresholds@.dom().contains(feed) ==> o.threshold(feed) == o.thresholds@[feed],
        !o.thresholds@.dom().contains(feed) ==> o.threshold(feed) == 1,
        o.reports(who) <==> o.reporters@.dom().contains(who) && o.reporters@[who],
{
}

/// Whether a value may follow the last one of a feed: it is newer, not too soon
/// after the last was taken, and no further from it than the bound, if there
/// is one.
pub open spec fn may_follow(
    o: OracleAdapter,
    now: u64,
    feed: Symbol,
    nav: i128,
    timestamp: u64,
) -> bool {
    let terms = o.feeds@[feed];
    let last = o.points@[feed];
    &&& timestamp > last.timestamp
    &&& now - last.recorded_at >= terms.min_interval_secs
    &&& terms.deviation_bps == 0 || last.nav <= 0 || distance(nav as int, last.nav as int) * 10_000
        <= terms.deviation_bps * last.nav
}

/// A value within the bounds of a registered feed, from a reporter that signed
/// it and has no open vote on it, that is the last the quorum needs and may
/// follow the value before it, is accepted and becomes the feed's value, and no
/// other feed moves. It may be a fall or a rise.
pub proof fn a_value_that_may_follow_is_accepted(
    o: OracleAdapter,
    after: OracleAdapter,
    inv: Invocation,
    reporter: Address,
    feed: Symbol,
    nav: i128,
    timestamp: u64,
    r: Result<Receipt<()>, Fault<OracleError>>,
    other: Symbol,
)
    requires
        o.push_nav_step(after, inv, reporter, feed, nav, timestamp, r),
        inv.signers@.contains(reporter),
        o.reporters@.dom().contains(reporter) && o.reporters@[reporter],
        o.feeds@.dom().contains(feed),
        0 < nav,
        o.feeds@[feed].min_nav <= nav <= o.feeds@[feed].max_nav,
        timestamp <= inv.timestamp,
        !voted(o.ballots@, feed, timestamp, reporter),
        tally(o.ballots@, feed, timestamp, nav) + 1 >= o.threshold(feed),
        o.points@.dom().contains(feed) ==> may_follow(o, inv.timestamp, feed, nav, timestamp)
            && fits((nav - o.points@[feed].nav) * 10_000) && fits(
            (o.points@[feed].nav - nav) * 10_000,
        ),
        other != feed,
    ensures
        r is Ok,
        after.points@.dom().contains(feed),
        after.points@[feed] == (NavPoint { nav, timestamp, recorded_at: inv.timestamp }),
        after.points@.dom().contains(other) == o.points@.dom().contains(other),
        o.points@.dom().contains(other) ==> after.points@[other] == o.points@[other],
        after.ballots@ == resolved(o.ballots@, feed, timestamp, nav),
        r->Ok_0.effects.calls@.len() == 0,
        r->Ok_0.effects.events@.len() == (if o.threshold(feed) > 1 {
            2int
        } else {
            1
        }),
        r->Ok_0.effects.events@.last() matches Event::NavUpdated(e) && e.feed_id == feed
            && e.reporter == reporter && e.nav == nav && e.timestamp == timestamp,
        after.reporters == o.reporters && after.feeds == o.feeds && after.thresholds
            == o.thresholds && after.role == o.role,
{
    if o.points@.dom().contains(feed) {
        let last = o.points@[feed].nav as int;
        if o.feeds@[feed].deviation_bps != 0 && last > 0 {
            a_deviation_is_a_share_of_the_last_value(nav as int, last);
            let q = deviation(nav as int, last);
            let bound = o.feeds@[feed].deviation_bps as int;
            assert(q <= bound) by (nonlinear_arith)
                requires
                    last > 0,
                    q * last <= bound * last,
            ;
        }
    }
}

/// A value becomes a feed's value only if a reporter signed it, the feed is
/// registered, the value is in its band and not from the future, enough
/// reporters agree, and, where there is a value before it, it is newer, not too
/// soon, and off by less than one basis point more than the bound.
pub proof fn a_value_is_accepted_only_if_it_may_follow(
    o: OracleAdapter,
    after: OracleAdapter,
    inv: Invocation,
    reporter: Address,
    feed: Symbol,
    nav: i128,
    timestamp: u64,
    r: Result<Receipt<()>, Fault<OracleError>>,
)
    requires
        o.push_nav_step(after, inv, reporter, feed, nav, timestamp, r),
        after.points@ != o.points@,
    ensures
        r is Ok,
        inv.signers@.contains(reporter),
        o.reporters@.dom().contains(reporter) && o.reporters@[reporter],
        o.feeds@.dom().contains(feed),
        0 < nav,
        o.feeds@[feed].min_nav <= nav <= o.feeds@[feed].max_nav,
        timestamp <= inv.timestamp,
        !voted(o.ballots@, feed, timestamp, reporter),
        tally(o.ballots@, feed, timestamp, nav) + 1 >= o.threshold(feed),
        o.points@.dom().contains(feed) ==> {
            let terms = o.feeds@[feed];
            let last = o.points@[feed];
            &&& timestamp > last.timestamp
            &&& inv.timestamp >= last.recorded_at + terms.min_interval_secs || (inv.timestamp
                == u64::MAX && last.recorded_at + terms.min_interval_secs > u64::MAX)
            &&& terms.deviation_bps > 0 && last.nav > 0 ==> distance(nav as int, last.nav as int)
                * 10_000 < (terms.deviation_bps + 1) * last.nav
        },
        after.points@.dom().contains(feed),
        after.points@[feed] == (NavPoint { nav, timestamp, recorded_at: inv.timestamp }),
{
    if r is Ok && o.points@.dom().contains(feed) {
        let last = o.points@[feed].nav as int;
        let bound = o.feeds@[feed].deviation_bps as int;
        if bound > 0 && last > 0 {
            a_deviation_is_a_share_of_the_last_value(nav as int, last);
            let q = deviation(nav as int, last);
            assert((q + 1) * last <= (bound + 1) * last) by (nonlinear_arith)
                requires
                    last > 0,
                    q <= bound,
            ;
        }
    }
}

/// A value is refused for its deviation only where there is a bound and it is
/// off by at least one basis point more than that; and what is refused for its
/// deviation changes nothing.
pub proof fn a_deviation_is_refused_only_beyond_the_bound(
    o: OracleAdapter,
    after: OracleAdapter,
    inv: Invocation,
    reporter: Address,
    feed: Symbol,
    nav: i128,
    timestamp: u64,
    r: Result<Receipt<()>, Fault<OracleError>>,
)
    requires
        o.push_nav_step(after, inv, reporter, feed, nav, timestamp, r),
        r == Err::<Receipt<()>, Fault<OracleError>>(
            Fault::Error(OracleError::DeviationOutOfBounds),
        ),
    ensures
        after == o,
        o.points@.dom().contains(feed),
        o.feeds@[feed].deviation_bps > 0,
        o.points@[feed].nav > 0,
        distance(nav as int, o.points@[feed].nav as int) * 10_000 >= (o.feeds@[feed].deviation_bps
            + 1) * o.points@[feed].nav,
{
    let last = o.points@[feed].nav as int;
    let bound = o.feeds@[feed].deviation_bps as int;
    a_deviation_is_a_share_of_the_last_value(nav as int, last);
    let q = deviation(nav as int, last);
    assert((bound + 1) * last <= q * last) by (nonlinear_arith)
        requires
            last > 0,
            q >= bound + 1,
    ;
}

/// Each other refusal of a value names what is wrong with it.
pub proof fn a_value_is_refused_for_the_reason_named(
    o: OracleAdapter,
    after: OracleAdapter,
    inv: Invocation,
    reporter: Address,
    feed: Symbol,
    nav: i128,
    timestamp: u64,
    r: Result<Receipt<()>, Fault<OracleError>>,
)
    requires
        o.push_nav_step(after, inv, reporter, feed, nav, timestamp, r),
        r is Err,
    ensures
        after == o,
        r->Err_0 == Fault::<OracleError>::Trap(Trap::Unauthorized) <==> !inv.signers@.contains(
            reporter,
        ),
        r->Err_0 == Fault::<OracleError>::Error(OracleError::UnauthorizedReporter) ==> !(
        o.reporters@.dom().contains(reporter) && o.reporters@[reporter]),
        r->Err_0 == Fault::<OracleError>::Error(OracleError::FeedNotRegistered)
            ==> !o.feeds@.dom().contains(feed),
        r->Err_0 == Fault::<OracleError>::Error(OracleError::InvalidNav) ==> nav <= 0,
        r->Err_0 == Fault::<OracleError>::Error(OracleError::NavOutOfBand) ==> nav
            < o.feeds@[feed].min_nav || nav > o.feeds@[feed].max_nav,
        r->Err_0 == Fault::<OracleError>::Error(OracleError::TimestampInFuture) ==> timestamp
            > inv.timestamp,
        r->Err_0 == Fault::<OracleError>::Error(OracleError::AlreadyVoted) ==> voted(
            o.ballots@,
            feed,
            timestamp,
            reporter,
        ),
        r->Err_0 == Fault::<OracleError>::Error(OracleError::NonMonotonicTimestamp)
            ==> o.points@.dom().contains(feed) && timestamp <= o.points@[feed].timestamp,
        r->Err_0 == Fault::<OracleError>::Error(OracleError::TooSoon) ==> o.points@.dom().contains(
            feed,
        ) && inv.timestamp < o.points@[feed].recorded_at + o.feeds@[feed].min_interval_secs,
        r->Err_0 == Fault::<OracleError>::Trap(Trap::Overflow) ==> o.points@.dom().contains(feed)
            && !fits(distance(nav as int, o.points@[feed].nav as int) * 10_000),
{
}

/// A vote short of the quorum is kept as an open ballot and moves no value.
pub proof fn a_vote_short_of_the_quorum_waits(
    o: OracleAdapter,
    after: OracleAdapter,
    inv: Invocation,
    reporter: Address,
    feed: Symbol,
    nav: i128,
    timestamp: u64,
    r: Result<Receipt<()>, Fault<OracleError>>,
)
    requires
        o.push_nav_step(after, inv, reporter, feed, nav, timestamp, r),
        r is Ok,
        tally(o.ballots@, feed, timestamp, nav) + 1 < o.threshold(feed),
    ensures
        after.points == o.points,
        after.ballots@ == o.ballots@.push(
            Ballot { feed_id: feed, timestamp, reporter, nav, open: true },
        ),
        after == (OracleAdapter { ballots: after.ballots, ..o }),
        r->Ok_0.effects.events@.len() == 0,
{
}

/// Submitting a value does what pushing it does, except that one beyond the
/// bound is answered with a rejection on record, and the vote for it stands.
pub proof fn a_submission_is_a_push_that_records_its_rejection(
    o: OracleAdapter,
    pushed: OracleAdapter,
    submitted: OracleAdapter,
    inv: Invocation,
    reporter: Address,
    feed: Symbol,
    nav: i128,
    timestamp: u64,
    p: Result<Receipt<()>, Fault<OracleError>>,
    s: Result<Receipt<PushOutcome>, Fault<OracleError>>,
)
    requires
        o.push_nav_step(pushed, inv, reporter, feed, nav, timestamp, p),
        o.submit_nav_step(submitted, inv, reporter, feed, nav, timestamp, s),
    ensures
        submitted.points@ == pushed.points@,
        p is Ok ==> {
            &&& s is Ok
            &&& submitted.ballots@ == pushed.ballots@
            &&& s->Ok_0.effects.events@ == p->Ok_0.effects.events@
            &&& s->Ok_0.value is Pending <==> tally(o.ballots@, feed, timestamp, nav) + 1
                < o.threshold(feed)
            &&& s->Ok_0.value is Accepted <==> tally(o.ballots@, feed, timestamp, nav) + 1
                >= o.threshold(feed)
        },
        p == Err::<Receipt<()>, Fault<OracleError>>(Fault::Error(OracleError::DeviationOutOfBounds))
            <==> s is Ok && s->Ok_0.value is RejectedDeviation,
        s is Err ==> p is Err && p->Err_0 == s->Err_0 && submitted == o,
        submitted.reporters == o.reporters && submitted.feeds == o.feeds && submitted.thresholds
            == o.thresholds && submitted.role == o.role,
{
}

/// A rejection says what the last value was, what was reported, how far off it
/// is in basis points and how far off it may be, and leaves the vote standing.
pub proof fn a_rejection_tells_the_deviation(
    o: OracleAdapter,
    after: OracleAdapter,
    inv: Invocation,
    reporter: Address,
    feed: Symbol,
    nav: i128,
    timestamp: u64,
    s: Result<Receipt<PushOutcome>, Fault<OracleError>>,
)
    requires
        o.sound(),
        o.submit_nav_step(after, inv, reporter, feed, nav, timestamp, s),
        s is Ok,
        s->Ok_0.value is RejectedDeviation,
    ensures
        after.points == o.points,
        o.threshold(feed) > 1 ==> after.ballots@ == o.ballots@.push(
            Ballot { feed_id: feed, timestamp, reporter, nav, open: true },
        ),
        o.threshold(feed) <= 1 ==> after.ballots@ == o.ballots@,
        s->Ok_0.effects.events@.len() == 1,
        s->Ok_0.effects.events@[0] matches Event::NavRejected(e) && e.feed_id == feed && e.reporter
            == reporter && e.previous_nav == o.points@[feed].nav && e.rejected_nav == nav
            && e.bound_bps == o.feeds@[feed].deviation_bps && e.deviation_bps > e.bound_bps
            && e.deviation_bps * e.previous_nav <= distance(nav as int, e.previous_nav as int)
            * 10_000 && (e.deviation_bps < u32::MAX ==> distance(nav as int, e.previous_nav as int)
            * 10_000 < (e.deviation_bps + 1) * e.previous_nav),
{
    let last = o.points@[feed].nav as int;
    a_deviation_is_a_share_of_the_last_value(nav as int, last);
    let q = deviation(nav as int, last);
    let top = u32::MAX as int;
    if q > top {
        assert(top * last <= q * last) by (nonlinear_arith)
            requires
                last > 0,
                q > top,
        ;
    }
}

/// A read gives the feed's value while it is no older than the feed allows,
/// and says it is stale from the next second on.
pub proof fn a_read_is_fresh_or_refused(o: OracleAdapter, inv: Invocation, feed: Symbol)
    ensures
        o.get_nav_answer(inv, feed) is Ok <==> o.feeds@.dom().contains(feed)
            && o.points@.dom().contains(feed) && inv.timestamp <= o.points@[feed].timestamp
            + o.feeds@[feed].staleness_secs,
        o.get_nav_answer(inv, feed) is Ok ==> o.get_nav_answer(inv, feed)->Ok_0
            == o.points@[feed].nav,
        o.get_nav_answer(inv, feed) == Err::<i128, OracleError>(OracleError::FeedNotRegistered)
            <==> !o.feeds@.dom().contains(feed),
        o.get_nav_answer(inv, feed) == Err::<i128, OracleError>(OracleError::NoNavReported)
            <==> o.feeds@.dom().contains(feed) && !o.points@.dom().contains(feed),
        o.get_nav_answer(inv, feed) == Err::<i128, OracleError>(OracleError::OracleStale)
            <==> o.feeds@.dom().contains(feed) && o.points@.dom().contains(feed) && inv.timestamp
            > o.points@[feed].timestamp + o.feeds@[feed].staleness_secs,
        o.last_update_answer(feed) is Ok <==> o.points@.dom().contains(feed),
        o.last_update_answer(feed) is Ok ==> o.last_update_answer(feed)->Ok_0 == o.points@[feed],
{
}

/// A value that was accepted is what the next read gives, while it is fresh.
pub proof fn what_was_accepted_is_read(
    o: OracleAdapter,
    after: OracleAdapter,
    inv: Invocation,
    later: Invocation,
    reporter: Address,
    feed: Symbol,
    nav: i128,
    timestamp: u64,
    s: Result<Receipt<PushOutcome>, Fault<OracleError>>,
)
    requires
        o.submit_nav_step(after, inv, reporter, feed, nav, timestamp, s),
        s is Ok,
        s->Ok_0.value is Accepted,
        later.timestamp <= timestamp + o.feeds@[feed].staleness_secs,
    ensures
        after.get_nav_answer(later, feed) == Ok::<i128, OracleError>(nav),
{
}

/// A feed is registered once, by the admin, with a band of positive values, a
/// bound of no more than the whole and some time before it is stale.
pub proof fn a_feed_is_registered_on_its_terms(
    o: OracleAdapter,
    after: OracleAdapter,
    inv: Invocation,
    admin: Address,
    feed: Symbol,
    terms: Feed,
    r: Result<Receipt<()>, Fault<OracleError>>,
    other: Symbol,
)
    requires
        o.register_feed_step(
            after,
            inv,
            admin,
            feed,
            terms.staleness_secs,
            terms.deviation_bps,
            terms.min_nav,
            terms.max_nav,
            terms.min_interval_secs,
            r,
        ),
        other != feed,
    ensures
        r is Ok <==> {
            &&& o.role.admin == Some(admin) && inv.signers@.contains(admin)
            &&& !o.feeds@.dom().contains(feed)
            &&& terms.staleness_secs > 0
            &&& terms.deviation_bps <= 10_000
            &&& 0 < terms.min_nav
            &&& terms.min_nav <= terms.max_nav
        },
        r is Ok ==> after.feeds@.dom().contains(feed) && after.feeds@[feed] == terms,
        after.feeds@.dom().contains(other) == o.feeds@.dom().contains(other),
        o.feeds@.dom().contains(other) ==> after.feeds@[other] == o.feeds@[other],
        after == (OracleAdapter { feeds: after.feeds, ..o }),
        r is Err ==> after == o,
{
}

/// A threshold of at least one is set by the admin on a registered feed, and on
/// no other; whoever is added reports, and whoever is removed does not.
pub proof fn quorum_and_reporters_are_the_admins(
    o: OracleAdapter,
    after: OracleAdapter,
    inv: Invocation,
    admin: Address,
    feed: Symbol,
    threshold: u32,
    reporter: Address,
    r: Result<Receipt<()>, Fault<OracleError>>,
    other: Symbol,
    someone: Address,
)
    requires
        other != feed,
        someone != reporter,
    ensures
        o.set_quorum_threshold_step(after, inv, admin, feed, threshold, r) ==> {
            &&& r is Ok <==> o.role.admin == Some(admin) && inv.signers@.contains(admin)
                && o.feeds@.dom().contains(feed) && threshold >= 1
            &&& r is Ok ==> after.threshold(feed) == threshold
            &&& after.threshold(other) == o.threshold(other)
            &&& after == (OracleAdapter { thresholds: after.thresholds, ..o })
            &&& r is Err ==> after == o
        },
        o.add_reporter_step(after, inv, admin, reporter, r) ==> {
            &&& r is Ok <==> o.role.admin == Some(admin) && inv.signers@.contains(admin)
            &&& r is Ok ==> after.reports(reporter)
            &&& after.reports(someone) == o.reports(someone)
            &&& after == (OracleAdapter { reporters: after.reporters, ..o })
            &&& r is Err ==> after == o
        },
        o.remove_reporter_step(after, inv, admin, reporter, r) ==> {
            &&& r is Ok <==> o.role.admin == Some(admin) && inv.signers@.contains(admin)
            &&& r is Ok ==> !after.reports(reporter) && after.ballots@ == o.ballots@.filter(
                |b: Ballot| !(b.open && b.reporter == reporter),
            )
            &&& after.reports(someone) == o.reports(someone)
            &&& after == (OracleAdapter {
                reporters: after.reporters,
                ballots: after.ballots,
                ..o
            })
            &&& r is Err ==> after == o
        },
{
    a_removal_takes_the_open_ballots(o.ballots@, reporter);
}

/// The role changes hands by an offer the admin signed and an acceptance the
/// one it was offered to signed, and is first given to whoever signed for it.
pub proof fn the_role_changes_hands(
    o: OracleAdapter,
    after: OracleAdapter,
    inv: Invocation,
    admin: Address,
    next: Address,
    r: Result<Receipt<()>, Fault<OracleError>>,
)
    ensures
        o.__constructor_step(after, inv, admin, r) ==> {
            &&& r is Ok <==> inv.signers@.contains(admin)
            &&& r is Ok ==> after.role.admin == Some(admin)
            &&& r is Ok ==> forall|f: Symbol| !after.feeds@.dom().contains(f)
            &&& r is Ok ==> forall|a: Address| !after.reports(a)
            &&& r is Err ==> after == o && r->Err_0 == Fault::<OracleError>::Trap(Trap::Unauthorized)
        },
        o.propose_admin_step(after, inv, admin, next, r) ==> {
            &&& r is Ok <==> o.role.admin == Some(admin) && inv.signers@.contains(admin)
            &&& r is Ok ==> after.role.admin == o.role.admin && after.role.pending == Some(next)
            &&& after == (OracleAdapter { role: after.role, ..o })
            &&& r is Err ==> after == o
        },
        o.accept_admin_step(after, inv, next, r) ==> {
            &&& r is Ok <==> o.role.pending == Some(next) && inv.signers@.contains(next)
            &&& r is Ok ==> after.role.admin == Some(next) && after.role.pending is None
            &&& after == (OracleAdapter { role: after.role, ..o })
            &&& r is Err ==> after == o
        },
{
}

/// Every setting that is changed is announced as it now is, asks nothing of
/// any other contract, and keeps the oracle alive; and a value that is taken is
/// kept alive too.
pub proof fn a_setting_is_announced(
    o: OracleAdapter,
    after: OracleAdapter,
    inv: Invocation,
    admin: Address,
    next: Address,
    feed: Symbol,
    terms: Feed,
    threshold: u32,
    nav: i128,
    timestamp: u64,
    d: Receipt<()>,
)
    ensures
        ({
            let r = Ok::<Receipt<()>, Fault<OracleError>>(d);
            let quiet = d.effects.calls@.len() == 0 && d.effects.rent@ == seq![Rent::Instance];
            let events = d.effects.events@;
            &&& o.__constructor_step(after, inv, admin, r) ==> quiet && events.len() == 0
            &&& o.add_reporter_step(after, inv, admin, next, r) ==> quiet && events.len() == 1 && (
            events[0] matches Event::ReporterAdded(e) && e.reporter == next)
            &&& o.remove_reporter_step(after, inv, admin, next, r) ==> quiet && events.len() == 1
                && (events[0] matches Event::ReporterRemoved(e) && e.reporter == next)
            &&& o.set_quorum_threshold_step(after, inv, admin, feed, threshold, r) ==> quiet
                && events.len() == 1 && (events[0] matches Event::QuorumThresholdSet(e)
                && e.feed_id == feed && e.threshold == threshold)
            &&& o.register_feed_step(
                after,
                inv,
                admin,
                feed,
                terms.staleness_secs,
                terms.deviation_bps,
                terms.min_nav,
                terms.max_nav,
                terms.min_interval_secs,
                r,
            ) ==> quiet && events.len() == 1 && (events[0] matches Event::FeedRegistered(e)
                && e.feed_id == feed && e.staleness_secs == terms.staleness_secs && e.deviation_bps
                == terms.deviation_bps && e.min_nav == terms.min_nav && e.max_nav == terms.max_nav
                && e.min_interval_secs == terms.min_interval_secs)
            &&& o.propose_admin_step(after, inv, admin, next, r) ==> quiet && events.len() == 1 && (
            events[0] matches Event::OracleAdminProposed(e) && e.new_admin == next)
            &&& o.accept_admin_step(after, inv, next, r) ==> quiet && events.len() == 1 && (
            events[0] matches Event::OracleAdminChanged(e) && e.admin == next)
            &&& o.push_nav_step(after, inv, next, feed, nav, timestamp, r) ==> {
                &&& d.effects.calls@.len() == 0
                &&& d.effects.rent@.last() == Rent::Instance
                &&& after.points@ != o.points@ ==> d.effects.rent@[0] == (Rent::Nav { feed })
            }
        }),
{
}

/// A quorum of more than one is announced, with the value agreed on, before
/// the value is.
pub proof fn a_quorum_is_announced(
    o: OracleAdapter,
    after: OracleAdapter,
    inv: Invocation,
    reporter: Address,
    feed: Symbol,
    nav: i128,
    timestamp: u64,
    s: Receipt<PushOutcome>,
)
    requires
        o.submit_nav_step(after, inv, reporter, feed, nav, timestamp, Ok(s)),
        s.value is Accepted,
        o.threshold(feed) > 1,
    ensures
        s.effects.events@.len() == 2,
        s.effects.events@[0] matches Event::NavQuorumReached(e) && e.feed_id == feed && e.nav == nav
            && e.timestamp == timestamp && e.threshold == o.threshold(feed),
        s.effects.events@[1] matches Event::NavUpdated(e) && e.feed_id == feed && e.reporter
            == reporter && e.nav == nav && e.timestamp == timestamp,
{
}

/// Each refusal of a setting names what stands against it.
pub proof fn a_setting_is_refused_for_the_reason_named(
    o: OracleAdapter,
    inv: Invocation,
    admin: Address,
    feed: Symbol,
    terms: Feed,
    threshold: u32,
)
    ensures
        o.register_feed_fault(inv, admin, feed, terms) matches Some(f) ==> match f {
            Fault::Error(OracleError::NotInitialized) => o.role.admin is None,
            Fault::Error(OracleError::NotAdmin) => o.role.admin is Some
                && o.role.admin != Some(admin),
            Fault::Trap(Trap::Unauthorized) => o.role.admin == Some(admin)
                && !inv.signers@.contains(admin),
            Fault::Error(OracleError::InvalidFeedConfig) => terms.staleness_secs == 0
                || terms.deviation_bps > 10_000 || terms.min_nav <= 0
                || terms.min_nav > terms.max_nav,
            Fault::Error(OracleError::FeedAlreadyRegistered) => o.feeds@.dom().contains(feed),
            _ => false,
        },
        o.set_quorum_threshold_fault(inv, admin, feed, threshold) matches Some(f) ==> match f {
            Fault::Error(OracleError::NotInitialized) => o.role.admin is None,
            Fault::Error(OracleError::NotAdmin) => o.role.admin is Some
                && o.role.admin != Some(admin),
            Fault::Trap(Trap::Unauthorized) => o.role.admin == Some(admin)
                && !inv.signers@.contains(admin),
            Fault::Error(OracleError::FeedNotRegistered) => !o.feeds@.dom().contains(feed),
            Fault::Error(OracleError::InvalidQuorumThreshold) => threshold == 0,
            _ => false,
        },
{
}

/// A handover is refused for the reason named.
pub proof fn a_handover_is_refused_for_the_reason_named(
    o: OracleAdapter,
    after: OracleAdapter,
    inv: Invocation,
    admin: Address,
    next: Address,
    f: Fault<OracleError>,
)
    ensures
        o.propose_admin_step(after, inv, admin, next, Err(f)) ==> match f {
            Fault::Error(OracleError::NotInitialized) => o.role.admin is None,
            Fault::Error(OracleError::NotAdmin) => o.role.admin is Some
                && o.role.admin != Some(admin),
            Fault::Trap(Trap::Unauthorized) => o.role.admin == Some(admin)
                && !inv.signers@.contains(admin),
            _ => false,
        },
        o.accept_admin_step(after, inv, next, Err(f)) ==> match f {
            Fault::Error(OracleError::NoPendingAdmin) => o.role.pending is None,
            Fault::Error(OracleError::NotPendingAdmin) => o.role.pending is Some
                && o.role.pending != Some(next),
            Fault::Trap(Trap::Unauthorized) => o.role.pending == Some(next)
                && !inv.signers@.contains(next),
            _ => false,
        },
{
}

/// A value that is compared with the last one is compared in range: where the
/// distance cannot be scaled, there is no verdict.
pub proof fn a_verdict_is_reached_in_range(
    o: OracleAdapter,
    after: OracleAdapter,
    inv: Invocation,
    reporter: Address,
    feed: Symbol,
    nav: i128,
    timestamp: u64,
    s: Result<Receipt<PushOutcome>, Fault<OracleError>>,
)
    requires
        o.submit_nav_step(after, inv, reporter, feed, nav, timestamp, s),
        s is Ok,
        !(s->Ok_0.value is Pending),
        o.points@.dom().contains(feed),
        o.feeds@[feed].deviation_bps > 0,
        o.points@[feed].nav > 0,
    ensures
        fits(distance(nav as int, o.points@[feed].nav as int) * 10_000),
{
}

} // verus!
