//! The oracle adapter, the single source of the values the protocol prices
//! with.
//!
//! Each feed carries its own guards: an absolute band, a bound on how far a
//! value moves from the last, a least interval between values, and how old a
//! value may be when it is read. A feed can ask that several reporters agree:
//! a round is one feed and one reported timestamp, each reporter votes in it
//! once, and only a value that as many distinct reporters named is put to the
//! guards.

use crate::address::{Address, Key, Symbol};
use crate::host::{Effects, Event, Fault, Invocation, Receipt, Rent, Trap};
use crate::math::{fits, larger, lemma_quotient_shrinks, over, smaller, times, BPS};
use crate::role::{Role, RoleRefusal};
use crate::table::{lists, Table};
use vstd::prelude::*;

verus! {

/// How far ahead a feed's value is kept alive: ninety days of ledgers.
pub const NAV_BUMP: u32 = 1_555_200;

/// A value with at least this long to live is left alone.
pub const NAV_LIFETIME: u32 = 1_537_920;

/// The packed text of the dollar peg's feed, for [`Symbol::short`].
pub const FEED_USDC_USD: u128 = 0x55534443_5f555344_00000000_00000000;

/// The packed text of the private credit feed.
pub const FEED_PC_NAV: u128 = 0x50435f4e_41560000_00000000_00000000;

/// The packed text of the bond price feed.
pub const FEED_EF_BOND: u128 = 0x45465f42_4f4e4400_00000000_00000000;

/// A value of one, at seven decimals.
pub const ONE: i128 = 10_000_000;

/// The peg goes stale after an hour.
pub const REFLECTOR_STALENESS: u64 = 3_600;

/// The peg moves by at most two percent at a time.
pub const REFLECTOR_DEVIATION_BPS: u32 = 200;

/// The peg's band starts at nine tenths of a dollar.
pub const REFLECTOR_MIN_NAV: i128 = 9_000_000;

/// The peg's band ends at eleven tenths of a dollar.
pub const REFLECTOR_MAX_NAV: i128 = 11_000_000;

/// Five minutes between peg values.
pub const REFLECTOR_MIN_INTERVAL: u64 = 300;

/// The private credit value goes stale after seven days.
pub const PRIVATE_CREDIT_STALENESS: u64 = 604_800;

/// The private credit value moves by at most five percent at a time.
pub const PRIVATE_CREDIT_DEVIATION_BPS: u32 = 500;

/// A book that has halved has not been revalued, it has defaulted.
pub const NAV_BAND_MIN: i128 = 5_000_000;

/// A book that has doubled has not been revalued either.
pub const NAV_BAND_MAX: i128 = 20_000_000;

/// An hour between book values.
pub const NAV_MIN_INTERVAL: u64 = 3_600;

/// The bond price goes stale after two days.
pub const ETHERFUSE_STALENESS: u64 = 172_800;

/// The bond price is deterministic, so no bound applies.
pub const ETHERFUSE_DEVIATION_BPS: u32 = 0;

/// What the oracle refuses.
#[derive(Clone, Copy, Debug, PartialEq, Eq, Structural)]
pub enum OracleError {
    /// Kept so that its code never means anything new.
    AlreadyInitialized,
    NotInitialized,
    NotAdmin,
    /// The caller is not in the reporter set.
    UnauthorizedReporter,
    FeedNotRegistered,
    FeedAlreadyRegistered,
    InvalidFeedConfig,
    InvalidNav,
    /// The timestamp is not strictly after the feed's last one.
    NonMonotonicTimestamp,
    /// The timestamp is ahead of ledger time.
    TimestampInFuture,
    /// The move from the last value exceeds the feed's bound.
    DeviationOutOfBounds,
    /// The stored value is older than the feed allows.
    OracleStale,
    NoNavReported,
    /// The value is outside the feed's absolute band.
    NavOutOfBand,
    /// The feed's interval has not elapsed since the last accepted value.
    TooSoon,
    /// `accept_admin` with no handover in flight.
    NoPendingAdmin,
    /// `accept_admin` by an address that was not the one proposed.
    NotPendingAdmin,
    /// A threshold of zero, which no report could satisfy.
    InvalidQuorumThreshold,
    /// The reporter has already voted in this round.
    AlreadyVoted,
}

impl OracleError {
    /// The code the ledger reports.
    pub open spec fn number(self) -> u32 {
        match self {
            OracleError::AlreadyInitialized => 500,
            OracleError::NotInitialized => 501,
            OracleError::NotAdmin => 502,
            OracleError::UnauthorizedReporter => 503,
            OracleError::FeedNotRegistered => 504,
            OracleError::FeedAlreadyRegistered => 505,
            OracleError::InvalidFeedConfig => 506,
            OracleError::InvalidNav => 507,
            OracleError::NonMonotonicTimestamp => 508,
            OracleError::TimestampInFuture => 509,
            OracleError::DeviationOutOfBounds => 510,
            OracleError::OracleStale => 511,
            OracleError::NoNavReported => 512,
            OracleError::NavOutOfBand => 513,
            OracleError::TooSoon => 514,
            OracleError::NoPendingAdmin => 515,
            OracleError::NotPendingAdmin => 516,
            OracleError::InvalidQuorumThreshold => 517,
            OracleError::AlreadyVoted => 518,
        }
    }

    /// The code the ledger reports.
    pub fn code(self) -> (n: u32)
        ensures
            n == self.number(),
    {
        match self {
            OracleError::AlreadyInitialized => 500,
            OracleError::NotInitialized => 501,
            OracleError::NotAdmin => 502,
            OracleError::UnauthorizedReporter => 503,
            OracleError::FeedNotRegistered => 504,
            OracleError::FeedAlreadyRegistered => 505,
            OracleError::InvalidFeedConfig => 506,
            OracleError::InvalidNav => 507,
            OracleError::NonMonotonicTimestamp => 508,
            OracleError::TimestampInFuture => 509,
            OracleError::DeviationOutOfBounds => 510,
            OracleError::OracleStale => 511,
            OracleError::NoNavReported => 512,
            OracleError::NavOutOfBand => 513,
            OracleError::TooSoon => 514,
            OracleError::NoPendingAdmin => 515,
            OracleError::NotPendingAdmin => 516,
            OracleError::InvalidQuorumThreshold => 517,
            OracleError::AlreadyVoted => 518,
        }
    }
}

/// Per feed guards, fixed at registration.
#[derive(Clone, Copy, Debug, PartialEq, Eq, Structural)]
pub struct Feed {
    /// A read older than this many seconds is stale.
    pub staleness_secs: u64,
    /// The largest move from the previous value, in bps. Zero means no bound.
    pub deviation_bps: u32,
    /// The absolute band, which binds the first value too.
    pub min_nav: i128,
    pub max_nav: i128,
    /// The least ledger time between two accepted values.
    pub min_interval_secs: u64,
}

/// What became of a report.
#[derive(Clone, Copy, Debug, PartialEq, Eq, Structural)]
pub enum PushOutcome {
    /// Stored.
    Accepted,
    /// Agreed on, and beyond the deviation bound. The previous value stands.
    RejectedDeviation,
    /// Counted as a vote; not enough reporters agree yet.
    Pending,
}

/// The latest value of a feed.
#[derive(Clone, Copy, Debug, PartialEq, Eq, Structural)]
pub struct NavPoint {
    pub nav: i128,
    /// When the reporter says the value is from.
    pub timestamp: u64,
    /// When the ledger accepted it.
    pub recorded_at: u64,
}

/// A vote: in a round, which is one feed and one reported timestamp, a
/// reporter named a value.
#[derive(Clone, Copy, Debug, PartialEq, Eq, Structural)]
pub struct Ballot {
    pub feed_id: Symbol,
    pub timestamp: u64,
    pub reporter: Address,
    pub nav: i128,
    /// Whether the round is undecided. A ballot left over in a round that
    /// committed another value no longer binds its reporter.
    pub open: bool,
}

/// What the guards make of a report.
#[derive(Clone, Copy, Debug, PartialEq, Eq, Structural)]
pub enum Verdict {
    /// A vote, and not yet enough of them.
    Pending,
    /// To be stored.
    Accepted,
    /// Agreed on, and beyond the deviation bound.
    Rejected(NavRejected),
}

/// An address joined the reporter set.
#[derive(Clone, Copy, Debug, PartialEq, Eq, Structural)]
pub struct ReporterAdded {
    pub reporter: Address,
}

/// An address left the reporter set.
#[derive(Clone, Copy, Debug, PartialEq, Eq, Structural)]
pub struct ReporterRemoved {
    pub reporter: Address,
}

/// A feed was registered.
#[derive(Clone, Copy, Debug, PartialEq, Eq, Structural)]
pub struct FeedRegistered {
    pub feed_id: Symbol,
    pub staleness_secs: u64,
    pub deviation_bps: u32,
    pub min_nav: i128,
    pub max_nav: i128,
    pub min_interval_secs: u64,
}

/// A feed's quorum threshold was set.
#[derive(Clone, Copy, Debug, PartialEq, Eq, Structural)]
pub struct QuorumThresholdSet {
    pub feed_id: Symbol,
    pub threshold: u32,
}

/// As many reporters as the feed asks for agreed on a value.
#[derive(Clone, Copy, Debug, PartialEq, Eq, Structural)]
pub struct NavQuorumReached {
    pub feed_id: Symbol,
    pub nav: i128,
    pub timestamp: u64,
    pub threshold: u32,
}

/// A value was stored.
#[derive(Clone, Copy, Debug, PartialEq, Eq, Structural)]
pub struct NavUpdated {
    pub feed_id: Symbol,
    pub reporter: Address,
    pub nav: i128,
    pub timestamp: u64,
}

/// A value was refused for moving too far.
#[derive(Clone, Copy, Debug, PartialEq, Eq, Structural)]
pub struct NavRejected {
    pub feed_id: Symbol,
    pub reporter: Address,
    pub previous_nav: i128,
    pub rejected_nav: i128,
    pub deviation_bps: u32,
    pub bound_bps: u32,
}

/// A handover of the admin role was proposed.
#[derive(Clone, Copy, Debug, PartialEq, Eq, Structural)]
pub struct AdminProposed {
    pub new_admin: Address,
}

/// A proposed admin accepted the role.
#[derive(Clone, Copy, Debug, PartialEq, Eq, Structural)]
pub struct AdminChanged {
    pub admin: Address,
}

/// The storage of the oracle.
#[derive(Clone)]
pub struct OracleAdapter {
    pub role: Role,
    pub reporters: Table<Address, bool>,
    pub feeds: Table<Symbol, Feed>,
    /// How many reporters have to agree, where more than one.
    pub thresholds: Table<Symbol, u32>,
    pub ballots: Vec<Ballot>,
    pub points: Table<Symbol, NavPoint>,
}

/// How far a value moved from the last one, in bps.
pub open spec fn deviation(nav: int, last: int) -> int {
    (if nav >= last {
        nav - last
    } else {
        last - nav
    }) * BPS / last
}

/// Whether a ballot belongs to a round.
pub open spec fn in_round(b: Ballot, feed_id: Symbol, timestamp: u64) -> bool {
    b.feed_id == feed_id && b.timestamp == timestamp
}

/// Whether a reporter has a binding vote in a round.
pub open spec fn voted(ballots: Seq<Ballot>, feed_id: Symbol, timestamp: u64, reporter: Address)
    -> bool {
    exists|i: int|
        0 <= i < ballots.len() && in_round(#[trigger] ballots[i], feed_id, timestamp)
            && ballots[i].reporter == reporter && ballots[i].open
}

/// How many ballots name a value in a round.
pub open spec fn tally(ballots: Seq<Ballot>, feed_id: Symbol, timestamp: u64, nav: i128) -> nat
    decreases ballots.len(),
{
    if ballots.len() == 0 {
        0
    } else {
        tally(ballots.drop_last(), feed_id, timestamp, nav) + (if in_round(
            ballots.last(),
            feed_id,
            timestamp,
        ) && ballots.last().nav == nav {
            1nat
        } else {
            0
        })
    }
}

/// The ballots once a round has committed a value: those for it are spent, and
/// the others in the round no longer bind.
pub open spec fn resolved(ballots: Seq<Ballot>, feed_id: Symbol, timestamp: u64, nav: i128) -> Seq<
    Ballot,
>
    decreases ballots.len(),
{
    if ballots.len() == 0 {
        seq![]
    } else {
        let b = ballots.last();
        let rest = resolved(ballots.drop_last(), feed_id, timestamp, nav);
        if !in_round(b, feed_id, timestamp) {
            rest.push(b)
        } else if b.nav == nav {
            rest
        } else {
            rest.push(Ballot { open: false, ..b })
        }
    }
}

/// The ballots once a reporter has left: its binding votes go with it.
pub open spec fn withdrawn(ballots: Seq<Ballot>, reporter: Address) -> Seq<Ballot>
    decreases ballots.len(),
{
    if ballots.len() == 0 {
        seq![]
    } else {
        let b = ballots.last();
        let rest = withdrawn(ballots.drop_last(), reporter);
        if b.open && b.reporter == reporter {
            rest
        } else {
            rest.push(b)
        }
    }
}

/// The reporters whose ballots name a value in a round.
pub open spec fn supporters(ballots: Seq<Ballot>, feed_id: Symbol, timestamp: u64, nav: i128) -> Set<
    Address,
> {
    Set::new(
        |a: Address|
            exists|i: int|
                0 <= i < ballots.len() && in_round(#[trigger] ballots[i], feed_id, timestamp)
                    && ballots[i].nav == nav && ballots[i].reporter == a,
    )
}

/// Whether no reporter has two binding votes in one round.
pub open spec fn one_vote_each(ballots: Seq<Ballot>) -> bool {
    forall|i: int, j: int|
        0 <= i < j < ballots.len() && (#[trigger] ballots[i]).open && (
        #[trigger] ballots[j]).open && ballots[i].feed_id == ballots[j].feed_id
            && ballots[i].timestamp == ballots[j].timestamp ==> ballots[i].reporter
            != ballots[j].reporter
}

/// Whether every ballot of a round still binds.
pub open spec fn undecided(ballots: Seq<Ballot>, feed_id: Symbol, timestamp: u64) -> bool {
    forall|i: int|
        0 <= i < ballots.len() && in_round(#[trigger] ballots[i], feed_id, timestamp)
            ==> ballots[i].open
}

/// Taking the last ballot away gives nobody a second vote.
proof fn lemma_one_vote_each_but_last(ballots: Seq<Ballot>)
    requires
        ballots.len() > 0,
        one_vote_each(ballots),
    ensures
        one_vote_each(ballots.drop_last()),
{
    let rest = ballots.drop_last();
    assert forall|i: int, j: int|
        0 <= i < j < rest.len() && (#[trigger] rest[i]).open && (#[trigger] rest[j]).open
            && rest[i].feed_id == rest[j].feed_id && rest[i].timestamp
            == rest[j].timestamp implies rest[i].reporter != rest[j].reporter by {
        assert(ballots[i] == rest[i] && ballots[j] == rest[j]);
    }
}

/// In an undecided round the ballots for a value are that many distinct
/// reporters.
proof fn lemma_tally_is_distinct(
    ballots: Seq<Ballot>,
    feed_id: Symbol,
    timestamp: u64,
    nav: i128,
)
    requires
        one_vote_each(ballots),
        undecided(ballots, feed_id, timestamp),
    ensures
        supporters(ballots, feed_id, timestamp, nav).finite(),
        supporters(ballots, feed_id, timestamp, nav).len() == tally(
            ballots,
            feed_id,
            timestamp,
            nav,
        ),
    decreases ballots.len(),
{
    let s = supporters(ballots, feed_id, timestamp, nav);
    if ballots.len() == 0 {
        assert(s =~= Set::empty());
    } else {
        let rest = ballots.drop_last();
        let b = ballots.last();
        lemma_one_vote_each_but_last(ballots);
        assert(undecided(rest, feed_id, timestamp)) by {
            assert forall|i: int|
                0 <= i < rest.len() && in_round(
                    #[trigger] rest[i],
                    feed_id,
                    timestamp,
                ) implies rest[i].open by {
                assert(ballots[i] == rest[i]);
            }
        }
        lemma_tally_is_distinct(rest, feed_id, timestamp, nav);
        let t = supporters(rest, feed_id, timestamp, nav);
        assert forall|a: Address| t.contains(a) implies s.contains(a) by {
            let i = choose|i: int|
                0 <= i < rest.len() && in_round(#[trigger] rest[i], feed_id, timestamp)
                    && rest[i].nav == nav && rest[i].reporter == a;
            assert(ballots[i] == rest[i]);
        }
        if in_round(b, feed_id, timestamp) && b.nav == nav {
            assert(ballots[ballots.len() - 1] == b);
            assert(s.contains(b.reporter));
            assert(!t.contains(b.reporter)) by {
                if t.contains(b.reporter) {
                    let i = choose|i: int|
                        0 <= i < rest.len() && in_round(#[trigger] rest[i], feed_id, timestamp)
                            && rest[i].nav == nav && rest[i].reporter == b.reporter;
                    assert(ballots[i] == rest[i]);
                    assert(ballots[i].open && ballots[ballots.len() - 1].open);
                }
            }
            assert(s =~= t.insert(b.reporter)) by {
                assert forall|a: Address| s.contains(a) implies t.contains(a) || a
                    == b.reporter by {
                    let i = choose|i: int|
                        0 <= i < ballots.len() && in_round(
                            #[trigger] ballots[i],
                            feed_id,
                            timestamp,
                        ) && ballots[i].nav == nav && ballots[i].reporter == a;
                    if i < rest.len() {
                        assert(rest[i] == ballots[i]);
                    }
                }
            }
        } else {
            assert(s =~= t) by {
                assert forall|a: Address| s.contains(a) implies t.contains(a) by {
                    let i = choose|i: int|
                        0 <= i < ballots.len() && in_round(
                            #[trigger] ballots[i],
                            feed_id,
                            timestamp,
                        ) && ballots[i].nav == nav && ballots[i].reporter == a;
                    assert(i < rest.len());
                    assert(rest[i] == ballots[i]);
                }
            }
        }
    }
}

/// Every ballot left by a commit was there before it, in the same round and
/// with the same reporter and value; it binds no more than before, and not at
/// all in the round that committed.
proof fn lemma_resolved(ballots: Seq<Ballot>, feed_id: Symbol, timestamp: u64, nav: i128)
    requires
        one_vote_each(ballots),
    ensures
        one_vote_each(resolved(ballots, feed_id, timestamp, nav)),
        forall|i: int|
            0 <= i < resolved(ballots, feed_id, timestamp, nav).len() ==> kept(
                ballots,
                #[trigger] resolved(ballots, feed_id, timestamp, nav)[i],
                feed_id,
                timestamp,
            ),
    decreases ballots.len(),
{
    let r = resolved(ballots, feed_id, timestamp, nav);
    if ballots.len() > 0 {
        let rest = ballots.drop_last();
        let b = ballots.last();
        lemma_one_vote_each_but_last(ballots);
        lemma_resolved(rest, feed_id, timestamp, nav);
        let q = resolved(rest, feed_id, timestamp, nav);
        assert forall|i: int| 0 <= i < r.len() implies kept(
            ballots,
            #[trigger] r[i],
            feed_id,
            timestamp,
        ) by {
            if i < q.len() {
                assert(r[i] == q[i]);
                assert(kept(rest, q[i], feed_id, timestamp));
                let k = choose|k: int|
                    0 <= k < rest.len() && same_vote(#[trigger] rest[k], q[i]) && (q[i].open
                        ==> rest[k].open);
                assert(ballots[k] == rest[k]);
            } else {
                assert(same_vote(ballots[ballots.len() - 1], r[i]));
            }
        }
        assert forall|i: int, j: int|
            0 <= i < j < r.len() && (#[trigger] r[i]).open && (#[trigger] r[j]).open && r[i].feed_id
                == r[j].feed_id && r[i].timestamp == r[j].timestamp implies r[i].reporter
            != r[j].reporter by {
            if j < q.len() {
                assert(r[i] == q[i] && r[j] == q[j]);
            } else {
                assert(r[i] == q[i]);
                assert(kept(rest, q[i], feed_id, timestamp));
                let k = choose|k: int|
                    0 <= k < rest.len() && same_vote(#[trigger] rest[k], q[i]) && (q[i].open
                        ==> rest[k].open);
                assert(ballots[k] == rest[k]);
                assert(ballots[ballots.len() - 1] == b);
                assert(ballots[k].open && ballots[ballots.len() - 1].open);
            }
        }
    }
}

/// Every ballot left when a reporter goes was there before, and none that
/// binds is that reporter's.
proof fn lemma_withdrawn(ballots: Seq<Ballot>, reporter: Address)
    requires
        one_vote_each(ballots),
    ensures
        one_vote_each(withdrawn(ballots, reporter)),
        forall|i: int|
            0 <= i < withdrawn(ballots, reporter).len() ==> ballots.contains(
                #[trigger] withdrawn(ballots, reporter)[i],
            ),
        forall|i: int|
            0 <= i < withdrawn(ballots, reporter).len() && (#[trigger] withdrawn(
                ballots,
                reporter,
            )[i]).open ==> withdrawn(ballots, reporter)[i].reporter != reporter,
    decreases ballots.len(),
{
    let r = withdrawn(ballots, reporter);
    if ballots.len() > 0 {
        let rest = ballots.drop_last();
        let b = ballots.last();
        lemma_one_vote_each_but_last(ballots);
        lemma_withdrawn(rest, reporter);
        let q = withdrawn(rest, reporter);
        assert(ballots[ballots.len() - 1] == b);
        assert forall|i: int| 0 <= i < r.len() implies ballots.contains(#[trigger] r[i]) by {
            if i < q.len() {
                assert(r[i] == q[i]);
                let k = choose|k: int| 0 <= k < rest.len() && rest[k] == q[i];
                assert(ballots[k] == r[i]);
            }
        }
        assert forall|i: int| 0 <= i < r.len() && (#[trigger] r[i]).open implies r[i].reporter
            != reporter by {
            if i < q.len() {
                assert(r[i] == q[i]);
            }
        }
        assert forall|i: int, j: int|
            0 <= i < j < r.len() && (#[trigger] r[i]).open && (#[trigger] r[j]).open && r[i].feed_id
                == r[j].feed_id && r[i].timestamp == r[j].timestamp implies r[i].reporter
            != r[j].reporter by {
            assert(r[i] == q[i]);
            if j < q.len() {
                assert(r[j] == q[j]);
            } else {
                let k = choose|k: int| 0 <= k < rest.len() && rest[k] == q[i];
                assert(ballots[k] == r[i]);
                assert(ballots[k].open && ballots[ballots.len() - 1].open);
            }
        }
    }
}

/// Whether two ballots say the same thing.
pub open spec fn same_vote(a: Ballot, b: Ballot) -> bool {
    a.feed_id == b.feed_id && a.timestamp == b.timestamp && a.reporter == b.reporter && a.nav
        == b.nav
}

/// Whether a ballot was there before a round was resolved, and binds no more
/// than it did.
pub open spec fn kept(ballots: Seq<Ballot>, b: Ballot, feed_id: Symbol, timestamp: u64) -> bool {
    &&& exists|k: int|
        0 <= k < ballots.len() && same_vote(#[trigger] ballots[k], b) && (b.open
            ==> ballots[k].open)
    &&& in_round(b, feed_id, timestamp) ==> !b.open
    &&& !in_round(b, feed_id, timestamp) ==> exists|k: int|
        0 <= k < ballots.len() && #[trigger] ballots[k] == b
}

/// A losing value's tally survives the commit of another, and the committed
/// value's is spent.
pub proof fn a_commit_spends_only_its_own_tally(
    ballots: Seq<Ballot>,
    feed_id: Symbol,
    timestamp: u64,
    nav: i128,
    other: i128,
)
    ensures
        tally(resolved(ballots, feed_id, timestamp, nav), feed_id, timestamp, nav) == 0,
        other != nav ==> tally(resolved(ballots, feed_id, timestamp, nav), feed_id, timestamp, other)
            == tally(ballots, feed_id, timestamp, other),
    decreases ballots.len(),
{
    if ballots.len() > 0 {
        let rest = ballots.drop_last();
        let b = ballots.last();
        a_commit_spends_only_its_own_tally(rest, feed_id, timestamp, nav, other);
        let q = resolved(rest, feed_id, timestamp, nav);
        assert(q.push(b).drop_last() =~= q);
        assert(q.push(Ballot { open: false, ..b }).drop_last() =~= q);
    }
}

impl OracleAdapter {
    /// The contract's refusal for a refusal on the role.
    pub open spec fn denial(e: RoleRefusal) -> Fault<OracleError> {
        match e {
            RoleRefusal::Unset => Fault::Error(OracleError::NotInitialized),
            RoleRefusal::NotAdmin => Fault::Error(OracleError::NotAdmin),
            RoleRefusal::NoPending => Fault::Error(OracleError::NoPendingAdmin),
            RoleRefusal::NotPending => Fault::Error(OracleError::NotPendingAdmin),
            RoleRefusal::Unauthorized => Fault::Trap(Trap::Unauthorized),
        }
    }

    fn deny(e: RoleRefusal) -> (f: Fault<OracleError>)
        ensures
            f == OracleAdapter::denial(e),
    {
        match e {
            RoleRefusal::Unset => Fault::Error(OracleError::NotInitialized),
            RoleRefusal::NotAdmin => Fault::Error(OracleError::NotAdmin),
            RoleRefusal::NoPending => Fault::Error(OracleError::NoPendingAdmin),
            RoleRefusal::NotPending => Fault::Error(OracleError::NotPendingAdmin),
            RoleRefusal::Unauthorized => Fault::Trap(Trap::Unauthorized),
        }
    }

    /// Whether an address is in the reporter set.
    pub open spec fn reports(self, who: Address) -> bool {
        self.reporters@.dom().contains(who) && self.reporters@[who]
    }

    /// How many reporters have to agree on a feed.
    pub open spec fn threshold(self, feed_id: Symbol) -> u32 {
        if self.thresholds@.dom().contains(feed_id) {
            self.thresholds@[feed_id]
        } else {
            1
        }
    }

    /// Whether a feed's guards make sense.
    pub open spec fn valid_feed(feed: Feed) -> bool {
        feed.staleness_secs > 0 && feed.deviation_bps <= BPS && 0 < feed.min_nav <= feed.max_nav
    }

    /// What every call keeps: guards that make sense, values inside their
    /// feed's band and not from the future, one binding vote per reporter and
    /// round, none of them of anyone but a reporter, and no lapsed ballot in a
    /// round that could still commit.
    pub open spec fn sound(self) -> bool {
        &&& forall|f: Symbol| #[trigger]
            self.feeds@.dom().contains(f) ==> OracleAdapter::valid_feed(self.feeds@[f])
        &&& forall|f: Symbol| #[trigger]
            self.points@.dom().contains(f) ==> {
                &&& self.feeds@.dom().contains(f)
                &&& self.feeds@[f].min_nav <= self.points@[f].nav <= self.feeds@[f].max_nav
                &&& self.points@[f].timestamp <= self.points@[f].recorded_at
            }
        &&& forall|f: Symbol| #[trigger]
            self.thresholds@.dom().contains(f) ==> self.thresholds@[f] >= 1
        &&& one_vote_each(self.ballots@)
        &&& forall|i: int|
            0 <= i < self.ballots@.len() && (#[trigger] self.ballots@[i]).open ==> self.reports(
                self.ballots@[i].reporter,
            )
        &&& forall|i: int|
            0 <= i < self.ballots@.len() && !(#[trigger] self.ballots@[i]).open
                ==> self.points@.dom().contains(self.ballots@[i].feed_id)
                && self.ballots@[i].timestamp <= self.points@[self.ballots@[i].feed_id].timestamp
    }

    /// Why `admin` may not act as admin.
    pub open spec fn admin_fault(self, inv: Invocation, admin: Address) -> Option<
        Fault<OracleError>,
    > {
        match self.role.require_refusal(inv, admin) {
            Some(e) => Some(OracleAdapter::denial(e)),
            None => None,
        }
    }

    fn require_admin(&self, inv: &Invocation, admin: Address) -> (r: Result<(), Fault<OracleError>>)
        ensures
            match r {
                Ok(_) => self.admin_fault(*inv, admin) is None,
                Err(f) => self.admin_fault(*inv, admin) == Some(f),
            },
    {
        match self.role.require(inv, admin) {
            Ok(_) => Ok(()),
            Err(e) => Err(OracleAdapter::deny(e)),
        }
    }

    /// An oracle whose constructor has not run.
    pub fn empty() -> (o: OracleAdapter)
        ensures
            o.role == (Role { admin: None, pending: None }),
            o.reporters@ == Map::<Address, bool>::empty(),
            o.feeds@ == Map::<Symbol, Feed>::empty(),
            o.thresholds@ == Map::<Symbol, u32>::empty(),
            o.ballots@.len() == 0,
            o.points@ == Map::<Symbol, NavPoint>::empty(),
            o.sound(),
    {
        OracleAdapter {
            role: Role::vacant(),
            reporters: Table::new(),
            feeds: Table::new(),
            thresholds: Table::new(),
            ballots: Vec::new(),
            points: Table::new(),
        }
    }

    /// What `__constructor` answers, and what it leaves behind.
    pub open spec fn __constructor_step(
        self,
        after: OracleAdapter,
        inv: Invocation,
        admin: Address,
        r: Result<Receipt<()>, Fault<OracleError>>,
    ) -> bool {
        match r {
            Ok(d) => {
                &&& inv.signed(admin)
                &&& after.reporters@ == Map::<Address, bool>::empty()
                &&& after.feeds@ == Map::<Symbol, Feed>::empty()
                &&& after == (OracleAdapter {
                    role: Role { admin: Some(admin), ..self.role },
                    reporters: after.reporters,
                    feeds: after.feeds,
                    ..self
                })
                &&& d.gives((), seq![], seq![], seq![Rent::Instance])
            },
            Err(f) => {
                &&& !inv.signed(admin)
                &&& f == Fault::<OracleError>::Trap(Trap::Unauthorized)
                &&& after == self
            },
        }
    }

    /// Records the admin, with no reporters and no feeds, in the transaction
    /// that deploys the oracle.
    pub fn __constructor(&mut self, inv: &Invocation, admin: Address) -> (r: Result<
        Receipt<()>,
        Fault<OracleError>,
    >)
        ensures
            old(self).__constructor_step(*final(self), *inv, admin, r),
            old(self).sound() && old(self).points@ == Map::<Symbol, NavPoint>::empty() && old(
                self,
            ).ballots@.len() == 0 ==> final(self).sound(),
    {
        if !inv.authorized(admin) {
            return Err(Fault::Trap(Trap::Unauthorized));
        }
        self.role.admin = Some(admin);
        self.reporters = Table::new();
        self.feeds = Table::new();
        Ok(Receipt { value: (), effects: Effects::none().keep(Rent::Instance) })
    }

    /// What `add_reporter` answers, and what it leaves behind.
    pub open spec fn add_reporter_step(
        self,
        after: OracleAdapter,
        inv: Invocation,
        admin: Address,
        reporter: Address,
        r: Result<Receipt<()>, Fault<OracleError>>,
    ) -> bool {
        match r {
            Ok(d) => {
                &&& self.admin_fault(inv, admin) is None
                &&& after.reporters@ == self.reporters@.insert(reporter, true)
                &&& after == (OracleAdapter {
                    reporters: after.reporters,
                    ..self
                })
                &&& d.gives(
                    (),
                    seq![],
                    seq![Event::ReporterAdded(ReporterAdded { reporter })],
                    seq![Rent::Instance],
                )
            },
            Err(f) => {
                &&& self.admin_fault(inv, admin) == Some(f)
                &&& after == self
            },
        }
    }

    /// Adds an address to the reporter set.
    pub fn add_reporter(&mut self, inv: &Invocation, admin: Address, reporter: Address) -> (r:
        Result<Receipt<()>, Fault<OracleError>>)
        ensures
            old(self).add_reporter_step(*final(self), *inv, admin, reporter, r),
            old(self).sound() ==> final(self).sound(),
    {
        match self.require_admin(inv, admin) {
            Ok(_) => {},
            Err(f) => {
                return Err(f);
            },
        }
        self.reporters.set(reporter, true);
        Ok(
            Receipt {
                value: (),
                effects: Effects::none().keep(Rent::Instance).event(
                    Event::ReporterAdded(ReporterAdded { reporter }),
                ),
            },
        )
    }

    /// What `remove_reporter` answers, and what it leaves behind.
    pub open spec fn remove_reporter_step(
        self,
        after: OracleAdapter,
        inv: Invocation,
        admin: Address,
        reporter: Address,
        r: Result<Receipt<()>, Fault<OracleError>>,
    ) -> bool {
        match r {
            Ok(d) => {
                &&& self.admin_fault(inv, admin) is None
                &&& after.reporters@ == self.reporters@.remove(reporter)
                &&& after.ballots@ == withdrawn(self.ballots@, reporter)
                &&& after == (OracleAdapter {
                    reporters: after.reporters,
                    ballots: after.ballots,
                    ..self
                })
                &&& d.gives(
                    (),
                    seq![],
                    seq![Event::ReporterRemoved(ReporterRemoved { reporter })],
                    seq![Rent::Instance],
                )
            },
            Err(f) => {
                &&& self.admin_fault(inv, admin) == Some(f)
                &&& after == self
            },
        }
    }

    /// Takes an address out of the reporter set, and its binding votes out of
    /// their rounds.
    pub fn remove_reporter(&mut self, inv: &Invocation, admin: Address, reporter: Address) -> (r:
        Result<Receipt<()>, Fault<OracleError>>)
        ensures
            old(self).remove_reporter_step(*final(self), *inv, admin, reporter, r),
            old(self).sound() ==> final(self).sound(),
    {
        match self.require_admin(inv, admin) {
            Ok(_) => {},
            Err(f) => {
                return Err(f);
            },
        }
        let n: usize = self.ballots.len();
        let mut left: Vec<Ballot> = Vec::new();
        let mut i: usize = 0;
        while i < n
            invariant
                i <= n,
                n == self.ballots@.len(),
                left@ == withdrawn(self.ballots@.take(i as int), reporter),
            decreases n - i,
        {
            let b: Ballot = self.ballots[i];
            proof {
                assert(self.ballots@.take(i + 1).drop_last() =~= self.ballots@.take(i as int));
            }
            if !b.open || b.reporter != reporter {
                left.push(b);
            }
            i = i + 1;
        }
        proof {
            assert(self.ballots@.take(n as int) =~= self.ballots@);
        }
        self.reporters.remove(reporter);
        self.ballots = left;
        proof {
            if old(self).sound() {
                let s = old(self).ballots@;
                let t = self.ballots@;
                lemma_withdrawn(s, reporter);
                assert forall|k: int| 0 <= k < t.len() implies {
                    &&& (#[trigger] t[k]).open ==> self.reports(t[k].reporter)
                    &&& !t[k].open ==> self.points@.dom().contains(t[k].feed_id)
                        && t[k].timestamp <= self.points@[t[k].feed_id].timestamp
                } by {
                    assert(s.contains(t[k]));
                    let j = choose|j: int| 0 <= j < s.len() && s[j] == t[k];
                    assert(s[j].open ==> old(self).reports(s[j].reporter));
                }
            }
        }
        Ok(
            Receipt {
                value: (),
                effects: Effects::none().keep(Rent::Instance).event(
                    Event::ReporterRemoved(ReporterRemoved { reporter }),
                ),
            },
        )
    }

    /// Why `register_feed` is refused.
    pub open spec fn register_feed_fault(
        self,
        inv: Invocation,
        admin: Address,
        feed_id: Symbol,
        feed: Feed,
    ) -> Option<Fault<OracleError>> {
        if self.admin_fault(inv, admin) is Some {
            self.admin_fault(inv, admin)
        } else if !OracleAdapter::valid_feed(feed) {
            Some(Fault::Error(OracleError::InvalidFeedConfig))
        } else if self.feeds@.dom().contains(feed_id) {
            Some(Fault::Error(OracleError::FeedAlreadyRegistered))
        } else {
            None
        }
    }

    /// What `register_feed` answers, and what it leaves behind.
    pub open spec fn register_feed_step(
        self,
        after: OracleAdapter,
        inv: Invocation,
        admin: Address,
        feed_id: Symbol,
        staleness_secs: u64,
        deviation_bps: u32,
        min_nav: i128,
        max_nav: i128,
        min_interval_secs: u64,
        r: Result<Receipt<()>, Fault<OracleError>>,
    ) -> bool {
        let feed = Feed {
            staleness_secs,
            deviation_bps,
            min_nav,
            max_nav,
            min_interval_secs,
        };
        match r {
            Ok(d) => {
                &&& self.register_feed_fault(inv, admin, feed_id, feed) is None
                &&& after.feeds@ == self.feeds@.insert(feed_id, feed)
                &&& after == (OracleAdapter {
                    feeds: after.feeds,
                    ..self
                })
                &&& d.gives(
                    (),
                    seq![],
                    seq![
                        Event::FeedRegistered(
                            FeedRegistered {
                                feed_id,
                                staleness_secs,
                                deviation_bps,
                                min_nav,
                                max_nav,
                                min_interval_secs,
                            },
                        ),
                    ],
                    seq![Rent::Instance],
                )
            },
            Err(f) => {
                &&& self.register_feed_fault(inv, admin, feed_id, feed) == Some(f)
                &&& after == self
            },
        }
    }

    /// Registers a feed with the guards it will be held to. A registered
    /// feed's guards never change.
    pub fn register_feed(
        &mut self,
        inv: &Invocation,
        admin: Address,
        feed_id: Symbol,
        staleness_secs: u64,
        deviation_bps: u32,
        min_nav: i128,
        max_nav: i128,
        min_interval_secs: u64,
    ) -> (r: Result<Receipt<()>, Fault<OracleError>>)
        ensures
            old(self).register_feed_step(
                *final(self),
                *inv,
                admin,
                feed_id,
                staleness_secs,
                deviation_bps,
                min_nav,
                max_nav,
                min_interval_secs,
                r,
            ),
            old(self).sound() ==> final(self).sound(),
    {
        match self.require_admin(inv, admin) {
            Ok(_) => {},
            Err(f) => {
                return Err(f);
            },
        }
        if staleness_secs == 0 || deviation_bps > 10_000 || min_nav <= 0 || max_nav < min_nav {
            return Err(Fault::Error(OracleError::InvalidFeedConfig));
        }
        if self.feeds.contains_key(feed_id) {
            return Err(Fault::Error(OracleError::FeedAlreadyRegistered));
        }
        self.feeds.set(
            feed_id,
            Feed { staleness_secs, deviation_bps, min_nav, max_nav, min_interval_secs },
        );
        Ok(
            Receipt {
                value: (),
                effects: Effects::none().keep(Rent::Instance).event(
                    Event::FeedRegistered(
                        FeedRegistered {
                            feed_id,
                            staleness_secs,
                            deviation_bps,
                            min_nav,
                            max_nav,
                            min_interval_secs,
                        },
                    ),
                ),
            },
        )
    }

    /// Why `set_quorum_threshold` is refused.
    pub open spec fn set_quorum_threshold_fault(
        self,
        inv: Invocation,
        admin: Address,
        feed_id: Symbol,
        threshold: u32,
    ) -> Option<Fault<OracleError>> {
        if self.admin_fault(inv, admin) is Some {
            self.admin_fault(inv, admin)
        } else if !self.feeds@.dom().contains(feed_id) {
            Some(Fault::Error(OracleError::FeedNotRegistered))
        } else if threshold == 0 {
            Some(Fault::Error(OracleError::InvalidQuorumThreshold))
        } else {
            None
        }
    }

    /// What `set_quorum_threshold` answers, and what it leaves behind.
    pub open spec fn set_quorum_threshold_step(
        self,
        after: OracleAdapter,
        inv: Invocation,
        admin: Address,
        feed_id: Symbol,
        threshold: u32,
        r: Result<Receipt<()>, Fault<OracleError>>,
    ) -> bool {
        match r {
            Ok(d) => {
                &&& self.set_quorum_threshold_fault(inv, admin, feed_id, threshold)
                    is None
                &&& after.thresholds@ == self.thresholds@.insert(feed_id, threshold)
                &&& after == (OracleAdapter {
                    thresholds: after.thresholds,
                    ..self
                })
                &&& d.gives(
                    (),
                    seq![],
                    seq![Event::QuorumThresholdSet(QuorumThresholdSet { feed_id, threshold })],
                    seq![Rent::Instance],
                )
            },
            Err(f) => {
                &&& self.set_quorum_threshold_fault(inv, admin, feed_id, threshold)
                    == Some(f)
                &&& after == self
            },
        }
    }

    /// Sets how many reporters have to agree before a feed moves.
    pub fn set_quorum_threshold(
        &mut self,
        inv: &Invocation,
        admin: Address,
        feed_id: Symbol,
        threshold: u32,
    ) -> (r: Result<Receipt<()>, Fault<OracleError>>)
        ensures
            old(self).set_quorum_threshold_step(*final(self), *inv, admin, feed_id, threshold, r),
            old(self).sound() ==> final(self).sound(),
    {
        match self.require_admin(inv, admin) {
            Ok(_) => {},
            Err(f) => {
                return Err(f);
            },
        }
        if !self.feeds.contains_key(feed_id) {
            return Err(Fault::Error(OracleError::FeedNotRegistered));
        }
        if threshold == 0 {
            return Err(Fault::Error(OracleError::InvalidQuorumThreshold));
        }
        self.thresholds.set(feed_id, threshold);
        Ok(
            Receipt {
                value: (),
                effects: Effects::none().keep(Rent::Instance).event(
                    Event::QuorumThresholdSet(QuorumThresholdSet { feed_id, threshold }),
                ),
            },
        )
    }

    /// Why a report does not even count as a vote.
    pub open spec fn vote_fault(
        self,
        inv: Invocation,
        reporter: Address,
        feed_id: Symbol,
        nav: i128,
        timestamp: u64,
    ) -> Option<Fault<OracleError>> {
        if !inv.signed(reporter) {
            Some(Fault::Trap(Trap::Unauthorized))
        } else if !self.reports(reporter) {
            Some(Fault::Error(OracleError::UnauthorizedReporter))
        } else if !self.feeds@.dom().contains(feed_id) {
            Some(Fault::Error(OracleError::FeedNotRegistered))
        } else if nav <= 0 {
            Some(Fault::Error(OracleError::InvalidNav))
        } else if nav < self.feeds@[feed_id].min_nav || nav > self.feeds@[feed_id].max_nav {
            Some(Fault::Error(OracleError::NavOutOfBand))
        } else if timestamp > inv.timestamp {
            Some(Fault::Error(OracleError::TimestampInFuture))
        } else if voted(self.ballots@, feed_id, timestamp, reporter) {
            Some(Fault::Error(OracleError::AlreadyVoted))
        } else {
            None
        }
    }

    /// Whether a report completes a quorum.
    pub open spec fn completes(self, feed_id: Symbol, nav: i128, timestamp: u64) -> bool {
        tally(self.ballots@, feed_id, timestamp, nav) + 1 >= self.threshold(feed_id)
    }

    /// What the guards that need a previous value say of an agreed value.
    pub open spec fn guarded(
        self,
        inv: Invocation,
        reporter: Address,
        feed_id: Symbol,
        nav: i128,
        timestamp: u64,
    ) -> Result<Verdict, Fault<OracleError>> {
        let feed = self.feeds@[feed_id];
        let last = self.points@[feed_id];
        if !self.points@.dom().contains(feed_id) {
            Ok(Verdict::Accepted)
        } else if timestamp <= last.timestamp {
            Err(Fault::Error(OracleError::NonMonotonicTimestamp))
        } else if inv.timestamp < smaller(
            last.recorded_at + feed.min_interval_secs,
            u64::MAX as int,
        ) {
            Err(Fault::Error(OracleError::TooSoon))
        } else if feed.deviation_bps == 0 || last.nav <= 0 {
            Ok(Verdict::Accepted)
        } else if !fits(nav - last.nav) || !fits(last.nav - nav) || !fits(
            larger(nav - last.nav, last.nav - nav) * BPS,
        ) {
            Err(Fault::Trap(Trap::Overflow))
        } else if deviation(nav as int, last.nav as int) <= feed.deviation_bps {
            Ok(Verdict::Accepted)
        } else {
            Ok(
                Verdict::Rejected(
                    NavRejected {
                        feed_id,
                        reporter,
                        previous_nav: last.nav,
                        rejected_nav: nav,
                        deviation_bps: smaller(
                            deviation(nav as int, last.nav as int),
                            u32::MAX as int,
                        ) as u32,
                        bound_bps: feed.deviation_bps,
                    },
                ),
            )
        }
    }

    /// What becomes of a report: refused, one vote short, stored, or agreed on
    /// and thrown out by the deviation bound.
    pub open spec fn verdict(
        self,
        inv: Invocation,
        reporter: Address,
        feed_id: Symbol,
        nav: i128,
        timestamp: u64,
    ) -> Result<Verdict, Fault<OracleError>> {
        if self.vote_fault(inv, reporter, feed_id, nav, timestamp) is Some {
            Err(self.vote_fault(inv, reporter, feed_id, nav, timestamp)->0)
        } else if !self.completes(feed_id, nav, timestamp) {
            Ok(Verdict::Pending)
        } else {
            self.guarded(inv, reporter, feed_id, nav, timestamp)
        }
    }

    fn has_voted(&self, feed_id: Symbol, timestamp: u64, reporter: Address) -> (b: bool)
        ensures
            b == voted(self.ballots@, feed_id, timestamp, reporter),
    {
        let n: usize = self.ballots.len();
        let mut i: usize = 0;
        while i < n
            invariant
                i <= n,
                n == self.ballots@.len(),
                forall|j: int|
                    0 <= j < i ==> !(in_round(#[trigger] self.ballots@[j], feed_id, timestamp)
                        && self.ballots@[j].reporter == reporter && self.ballots@[j].open),
            decreases n - i,
        {
            let b: Ballot = self.ballots[i];
            if b.feed_id == feed_id && b.timestamp == timestamp && b.reporter == reporter
                && b.open {
                assert(in_round(self.ballots@[i as int], feed_id, timestamp));
                return true;
            }
            i = i + 1;
        }
        false
    }

    fn check_vote(
        &self,
        inv: &Invocation,
        reporter: Address,
        feed_id: Symbol,
        nav: i128,
        timestamp: u64,
    ) -> (r: Result<Feed, Fault<OracleError>>)
        ensures
            match r {
                Ok(feed) => {
                    &&& self.vote_fault(*inv, reporter, feed_id, nav, timestamp) is None
                    &&& feed == self.feeds@[feed_id]
                },
                Err(f) => self.vote_fault(*inv, reporter, feed_id, nav, timestamp) == Some(f),
            },
    {
        if !inv.authorized(reporter) {
            return Err(Fault::Trap(Trap::Unauthorized));
        }
        if !self.is_reporter(reporter) {
            return Err(Fault::Error(OracleError::UnauthorizedReporter));
        }
        let feed: Feed = match self.get_feed(feed_id) {
            Ok(f) => f,
            Err(e) => {
                return Err(Fault::Error(e));
            },
        };
        if nav <= 0 {
            return Err(Fault::Error(OracleError::InvalidNav));
        }
        if nav < feed.min_nav || nav > feed.max_nav {
            return Err(Fault::Error(OracleError::NavOutOfBand));
        }
        if timestamp > inv.timestamp {
            return Err(Fault::Error(OracleError::TimestampInFuture));
        }
        if self.has_voted(feed_id, timestamp, reporter) {
            return Err(Fault::Error(OracleError::AlreadyVoted));
        }
        Ok(feed)
    }

    fn guard(
        &self,
        inv: &Invocation,
        reporter: Address,
        feed_id: Symbol,
        feed: Feed,
        nav: i128,
        timestamp: u64,
    ) -> (r: Result<Verdict, Fault<OracleError>>)
        requires
            self.feeds@.dom().contains(feed_id),
            feed == self.feeds@[feed_id],
            nav > 0,
        ensures
            r == self.guarded(*inv, reporter, feed_id, nav, timestamp),
    {
        let last: NavPoint = match self.points.get(feed_id) {
            Some(p) => p,
            None => {
                return Ok(Verdict::Accepted);
            },
        };
        if timestamp <= last.timestamp {
            return Err(Fault::Error(OracleError::NonMonotonicTimestamp));
        }
        if inv.timestamp < last.recorded_at.saturating_add(feed.min_interval_secs) {
            return Err(Fault::Error(OracleError::TooSoon));
        }
        if feed.deviation_bps == 0 || last.nav <= 0 {
            return Ok(Verdict::Accepted);
        }
        let gap: i128 = if nav >= last.nav {
            nav - last.nav
        } else {
            last.nav - nav
        };
        let scaled: i128 = match times(gap, BPS) {
            Ok(z) => z,
            Err(t) => {
                return Err(Fault::Trap(t));
            },
        };
        proof {
            lemma_quotient_shrinks(scaled as int, last.nav as int);
        }
        let moved: i128 = match over(scaled, last.nav) {
            Ok(z) => z,
            Err(t) => {
                return Err(Fault::Trap(t));
            },
        };
        if moved <= feed.deviation_bps as i128 {
            return Ok(Verdict::Accepted);
        }
        let deviation_bps: u32 = if moved > u32::MAX as i128 {
            u32::MAX
        } else {
            moved as u32
        };
        Ok(
            Verdict::Rejected(
                NavRejected {
                    feed_id,
                    reporter,
                    previous_nav: last.nav,
                    rejected_nav: nav,
                    deviation_bps,
                    bound_bps: feed.deviation_bps,
                },
            ),
        )
    }

    /// Judges a report, changing nothing.
    pub fn validate(
        &self,
        inv: &Invocation,
        reporter: Address,
        feed_id: Symbol,
        nav: i128,
        timestamp: u64,
    ) -> (r: Result<Verdict, Fault<OracleError>>)
        ensures
            r == self.verdict(*inv, reporter, feed_id, nav, timestamp),
    {
        let feed: Feed = match self.check_vote(inv, reporter, feed_id, nav, timestamp) {
            Ok(f) => f,
            Err(f) => {
                return Err(f);
            },
        };
        let so_far: u64 = self.quorum_votes(feed_id, timestamp, nav);
        let threshold: u32 = self.quorum_threshold(feed_id);
        if threshold > 1 && so_far < threshold as u64 - 1 {
            return Ok(Verdict::Pending);
        }
        self.guard(inv, reporter, feed_id, feed, nav, timestamp)
    }

    /// The ballots with one more vote, where the feed takes more than one.
    pub open spec fn ballots_with(
        self,
        reporter: Address,
        feed_id: Symbol,
        nav: i128,
        timestamp: u64,
    ) -> Seq<Ballot> {
        if self.threshold(feed_id) > 1 {
            self.ballots@.push(Ballot { feed_id, timestamp, reporter, nav, open: true })
        } else {
            self.ballots@
        }
    }

    fn cast(&mut self, reporter: Address, feed_id: Symbol, nav: i128, timestamp: u64)
        ensures
            final(self).ballots@ == old(self).ballots_with(reporter, feed_id, nav, timestamp),
            *final(self) == (OracleAdapter { ballots: final(self).ballots, ..*old(self) }),
            old(self).sound() && old(self).reports(reporter) && !voted(
                old(self).ballots@,
                feed_id,
                timestamp,
                reporter,
            ) ==> final(self).sound(),
    {
        if self.quorum_threshold(feed_id) > 1 {
            let b = Ballot { feed_id, timestamp, reporter, nav, open: true };
            self.ballots.push(b);
            proof {
                let s = old(self).ballots@;
                let t = self.ballots@;
                if old(self).sound() && old(self).reports(reporter) && !voted(
                    s,
                    feed_id,
                    timestamp,
                    reporter,
                ) {
                    assert forall|i: int, j: int|
                        0 <= i < j < t.len() && (#[trigger] t[i]).open && (
                        #[trigger] t[j]).open && t[i].feed_id == t[j].feed_id && t[i].timestamp
                            == t[j].timestamp implies t[i].reporter != t[j].reporter by {
                        assert(t[i] == s[i]);
                        if j < s.len() {
                            assert(t[j] == s[j]);
                        } else {
                            assert(in_round(s[i], t[j].feed_id, t[j].timestamp));
                        }
                    }
                }
            }
        }
    }

    /// The events of a commit.
    pub open spec fn commit_events(
        self,
        reporter: Address,
        feed_id: Symbol,
        nav: i128,
        timestamp: u64,
    ) -> Seq<Event> {
        let updated = Event::NavUpdated(NavUpdated { feed_id, reporter, nav, timestamp });
        if self.threshold(feed_id) > 1 {
            seq![
                Event::NavQuorumReached(
                    NavQuorumReached {
                        feed_id,
                        nav,
                        timestamp,
                        threshold: self.threshold(feed_id),
                    },
                ),
                updated,
            ]
        } else {
            seq![updated]
        }
    }

    /// The state after a commit: the value is the feed's latest, and its round
    /// is resolved.
    pub open spec fn committed(
        self,
        after: OracleAdapter,
        inv: Invocation,
        feed_id: Symbol,
        nav: i128,
        timestamp: u64,
    ) -> bool {
        &&& after.points@ == self.points@.insert(
            feed_id,
            NavPoint { nav, timestamp, recorded_at: inv.timestamp },
        )
        &&& after.ballots@ == resolved(self.ballots@, feed_id, timestamp, nav)
        &&& after == (OracleAdapter { points: after.points, ballots: after.ballots, ..self })
    }

    fn store(
        &mut self,
        inv: &Invocation,
        reporter: Address,
        feed_id: Symbol,
        nav: i128,
        timestamp: u64,
    ) -> (fx: Effects)
        requires
            old(self).verdict(*inv, reporter, feed_id, nav, timestamp) == Ok::<
                Verdict,
                Fault<OracleError>,
            >(Verdict::Accepted),
        ensures
            old(self).committed(*final(self), *inv, feed_id, nav, timestamp),
            fx.calls@.len() == 0,
            fx.events@ == old(self).commit_events(reporter, feed_id, nav, timestamp),
            fx.rent@ == seq![Rent::Nav { feed: feed_id }, Rent::Instance],
            old(self).sound() ==> final(self).sound(),
    {
        let threshold: u32 = self.quorum_threshold(feed_id);
        let n: usize = self.ballots.len();
        let mut left: Vec<Ballot> = Vec::new();
        let mut i: usize = 0;
        while i < n
            invariant
                i <= n,
                n == self.ballots@.len(),
                left@ == resolved(self.ballots@.take(i as int), feed_id, timestamp, nav),
            decreases n - i,
        {
            let b: Ballot = self.ballots[i];
            proof {
                assert(self.ballots@.take(i + 1).drop_last() =~= self.ballots@.take(i as int));
            }
            if b.feed_id != feed_id || b.timestamp != timestamp {
                left.push(b);
            } else if b.nav != nav {
                left.push(
                    Ballot {
                        feed_id: b.feed_id,
                        timestamp: b.timestamp,
                        reporter: b.reporter,
                        nav: b.nav,
                        open: false,
                    },
                );
            }
            i = i + 1;
        }
        proof {
            assert(self.ballots@.take(n as int) =~= self.ballots@);
        }
        self.ballots = left;
        self.points.set(feed_id, NavPoint { nav, timestamp, recorded_at: inv.timestamp });
        proof {
            if old(self).sound() {
                let s = old(self).ballots@;
                let t = self.ballots@;
                lemma_resolved(s, feed_id, timestamp, nav);
                assert forall|k: int| 0 <= k < t.len() && !(#[trigger] t[k]).open implies self.points@.dom().contains(
                t[k].feed_id) && t[k].timestamp <= self.points@[t[k].feed_id].timestamp by {
                    assert(kept(s, t[k], feed_id, timestamp));
                    if !in_round(t[k], feed_id, timestamp) {
                        let j = choose|j: int| 0 <= j < s.len() && #[trigger] s[j] == t[k];
                        assert(!s[j].open);
                    }
                }
                assert forall|f: Symbol| #[trigger] self.points@.dom().contains(f) implies {
                    &&& self.feeds@.dom().contains(f)
                    &&& self.feeds@[f].min_nav <= self.points@[f].nav <= self.feeds@[f].max_nav
                    &&& self.points@[f].timestamp <= self.points@[f].recorded_at
                } by {
                    if f != feed_id {
                        assert(old(self).points@.dom().contains(f));
                    }
                }
            }
        }
        let mut fx = Effects::none().keep(Rent::Nav { feed: feed_id }).keep(Rent::Instance);
        if threshold > 1 {
            fx =
            fx.event(
                Event::NavQuorumReached(NavQuorumReached { feed_id, nav, timestamp, threshold }),
            );
        }
        fx.event(Event::NavUpdated(NavUpdated { feed_id, reporter, nav, timestamp }))
    }

    /// What `push_nav` answers, and what it leaves behind.
    pub open spec fn push_nav_step(
        self,
        after: OracleAdapter,
        inv: Invocation,
        reporter: Address,
        feed_id: Symbol,
        nav: i128,
        timestamp: u64,
        r: Result<Receipt<()>, Fault<OracleError>>,
    ) -> bool {
        let verdict = self.verdict(inv, reporter, feed_id, nav, timestamp);
        match r {
            Ok(d) => {
                ||| {
                    &&& verdict == Ok::<Verdict, Fault<OracleError>>(Verdict::Accepted)
                    &&& self.committed(after, inv, feed_id, nav, timestamp)
                    &&& d.gives(
                        (),
                        seq![],
                        self.commit_events(reporter, feed_id, nav, timestamp),
                        seq![Rent::Nav { feed: feed_id }, Rent::Instance],
                    )
                }
                ||| {
                    &&& verdict == Ok::<Verdict, Fault<OracleError>>(Verdict::Pending)
                    &&& after.ballots@ == self.ballots_with(
                        reporter,
                        feed_id,
                        nav,
                        timestamp,
                    )
                    &&& after == (OracleAdapter {
                        ballots: after.ballots,
                        ..self
                    })
                    &&& d.gives((), seq![], seq![], seq![Rent::Instance])
                }
            },
            Err(f) => {
                &&& match verdict {
                    Err(fault) => f == fault,
                    Ok(v) => v is Rejected && f == Fault::<OracleError>::Error(
                        OracleError::DeviationOutOfBounds,
                    ),
                }
                &&& after == self
            },
        }
    }

    /// Reports a value, failing the call if anything is wrong. A vote that
    /// leaves the round one short is no failure.
    pub fn push_nav(
        &mut self,
        inv: &Invocation,
        reporter: Address,
        feed_id: Symbol,
        nav: i128,
        timestamp: u64,
    ) -> (r: Result<Receipt<()>, Fault<OracleError>>)
        ensures
            old(self).push_nav_step(
                *final(self),
                *inv,
                reporter,
                feed_id,
                nav,
                timestamp,
                r,
            ),
            old(self).sound() ==> final(self).sound(),
    {
        match self.validate(inv, reporter, feed_id, nav, timestamp) {
            Err(f) => Err(f),
            Ok(Verdict::Rejected(_)) => Err(Fault::Error(OracleError::DeviationOutOfBounds)),
            Ok(Verdict::Pending) => {
                self.cast(reporter, feed_id, nav, timestamp);
                Ok(Receipt { value: (), effects: Effects::none().keep(Rent::Instance) })
            },
            Ok(Verdict::Accepted) => {
                let effects = self.store(inv, reporter, feed_id, nav, timestamp);
                Ok(Receipt { value: (), effects })
            },
        }
    }

    /// What `submit_nav` answers, and what it leaves behind.
    pub open spec fn submit_nav_step(
        self,
        after: OracleAdapter,
        inv: Invocation,
        reporter: Address,
        feed_id: Symbol,
        nav: i128,
        timestamp: u64,
        r: Result<Receipt<PushOutcome>, Fault<OracleError>>,
    ) -> bool {
        let verdict = self.verdict(inv, reporter, feed_id, nav, timestamp);
        match r {
            Ok(d) => verdict is Ok && match verdict->Ok_0 {
                Verdict::Accepted => {
                    &&& self.committed(after, inv, feed_id, nav, timestamp)
                    &&& d.gives(
                        PushOutcome::Accepted,
                        seq![],
                        self.commit_events(reporter, feed_id, nav, timestamp),
                        seq![Rent::Nav { feed: feed_id }, Rent::Instance],
                    )
                },
                Verdict::Pending => {
                    &&& after.ballots@ == self.ballots_with(
                        reporter,
                        feed_id,
                        nav,
                        timestamp,
                    )
                    &&& after == (OracleAdapter {
                        ballots: after.ballots,
                        ..self
                    })
                    &&& d.gives(
                        PushOutcome::Pending,
                        seq![],
                        seq![],
                        seq![Rent::Instance],
                    )
                },
                Verdict::Rejected(rejection) => {
                    &&& after.ballots@ == self.ballots_with(
                        reporter,
                        feed_id,
                        nav,
                        timestamp,
                    )
                    &&& after == (OracleAdapter {
                        ballots: after.ballots,
                        ..self
                    })
                    &&& d.gives(
                        PushOutcome::RejectedDeviation,
                        seq![],
                        seq![Event::NavRejected(rejection)],
                        seq![],
                    )
                },
            },
            Err(f) => {
                &&& verdict == Err::<Verdict, Fault<OracleError>>(f)
                &&& after == self
            },
        }
    }

    /// Reports a value, recording a breach of the deviation bound as an event
    /// and an outcome rather than as a failure. A round refused that way keeps
    /// its votes, so nobody carries it by voting again.
    pub fn submit_nav(
        &mut self,
        inv: &Invocation,
        reporter: Address,
        feed_id: Symbol,
        nav: i128,
        timestamp: u64,
    ) -> (r: Result<Receipt<PushOutcome>, Fault<OracleError>>)
        ensures
            old(self).submit_nav_step(
                *final(self),
                *inv,
                reporter,
                feed_id,
                nav,
                timestamp,
                r,
            ),
            old(self).sound() ==> final(self).sound(),
    {
        match self.validate(inv, reporter, feed_id, nav, timestamp) {
            Err(f) => Err(f),
            Ok(Verdict::Rejected(rejection)) => {
                self.cast(reporter, feed_id, nav, timestamp);
                Ok(
                    Receipt {
                        value: PushOutcome::RejectedDeviation,
                        effects: Effects::none().event(Event::NavRejected(rejection)),
                    },
                )
            },
            Ok(Verdict::Pending) => {
                self.cast(reporter, feed_id, nav, timestamp);
                Ok(
                    Receipt {
                        value: PushOutcome::Pending,
                        effects: Effects::none().keep(Rent::Instance),
                    },
                )
            },
            Ok(Verdict::Accepted) => {
                let effects = self.store(inv, reporter, feed_id, nav, timestamp);
                Ok(Receipt { value: PushOutcome::Accepted, effects })
            },
        }
    }

    /// What `propose_admin` answers, and what it leaves behind.
    pub open spec fn propose_admin_step(
        self,
        after: OracleAdapter,
        inv: Invocation,
        admin: Address,
        new_admin: Address,
        r: Result<Receipt<()>, Fault<OracleError>>,
    ) -> bool {
        match r {
            Ok(d) => {
                &&& self.role.require_refusal(inv, admin) is None
                &&& after == (OracleAdapter {
                    role: self.role.proposed(new_admin),
                    ..self
                })
                &&& d.gives(
                    (),
                    seq![],
                    seq![Event::OracleAdminProposed(AdminProposed { new_admin })],
                    seq![Rent::Instance],
                )
            },
            Err(f) => {
                &&& self.role.require_refusal(inv, admin) is Some
                &&& f == OracleAdapter::denial(self.role.require_refusal(inv, admin)->0)
                &&& after == self
            },
        }
    }

    /// Offers the admin role to another address. Replaces any earlier offer.
    pub fn propose_admin(&mut self, inv: &Invocation, admin: Address, new_admin: Address) -> (r:
        Result<Receipt<()>, Fault<OracleError>>)
        ensures
            old(self).propose_admin_step(*final(self), *inv, admin, new_admin, r),
            old(self).sound() ==> final(self).sound(),
    {
        match self.role.require(inv, admin) {
            Ok(_) => {},
            Err(e) => {
                return Err(OracleAdapter::deny(e));
            },
        }
        self.role.pending = Some(new_admin);
        Ok(
            Receipt {
                value: (),
                effects: Effects::none().keep(Rent::Instance).event(
                    Event::OracleAdminProposed(AdminProposed { new_admin }),
                ),
            },
        )
    }

    /// What `accept_admin` answers, and what it leaves behind.
    pub open spec fn accept_admin_step(
        self,
        after: OracleAdapter,
        inv: Invocation,
        new_admin: Address,
        r: Result<Receipt<()>, Fault<OracleError>>,
    ) -> bool {
        match r {
            Ok(d) => {
                &&& self.role.accept_refusal(inv, new_admin) is None
                &&& after == (OracleAdapter {
                    role: self.role.accepted(new_admin),
                    ..self
                })
                &&& d.gives(
                    (),
                    seq![],
                    seq![Event::OracleAdminChanged(AdminChanged { admin: new_admin })],
                    seq![Rent::Instance],
                )
            },
            Err(f) => {
                &&& self.role.accept_refusal(inv, new_admin) is Some
                &&& f == OracleAdapter::denial(self.role.accept_refusal(inv, new_admin)->0)
                &&& after == self
            },
        }
    }

    /// Takes the offered admin role over.
    pub fn accept_admin(&mut self, inv: &Invocation, new_admin: Address) -> (r: Result<
        Receipt<()>,
        Fault<OracleError>,
    >)
        ensures
            old(self).accept_admin_step(*final(self), *inv, new_admin, r),
            old(self).sound() ==> final(self).sound(),
    {
        match self.role.require_pending(inv, new_admin) {
            Ok(_) => {},
            Err(e) => {
                return Err(OracleAdapter::deny(e));
            },
        }
        self.role.admin = Some(new_admin);
        self.role.pending = None;
        Ok(
            Receipt {
                value: (),
                effects: Effects::none().keep(Rent::Instance).event(
                    Event::OracleAdminChanged(AdminChanged { admin: new_admin }),
                ),
            },
        )
    }

    /// The address that has been offered the role and has not accepted yet.
    pub fn pending_admin(&self) -> (a: Option<Address>)
        ensures
            a == self.role.pending,
    {
        self.role.pending
    }

    // ---- views ----

    /// What `get_nav` answers.
    pub open spec fn get_nav_answer(
        self,
        inv: Invocation,
        feed_id: Symbol,
    ) -> Result<i128, OracleError> {
        if !self.feeds@.dom().contains(feed_id) {
            Err::<i128, OracleError>(OracleError::FeedNotRegistered)
        } else if !self.points@.dom().contains(feed_id) {
            Err(OracleError::NoNavReported)
        } else if inv.timestamp - self.points@[feed_id].timestamp
            > self.feeds@[feed_id].staleness_secs {
            Err(OracleError::OracleStale)
        } else {
            Ok(self.points@[feed_id].nav)
        }
    }

    /// The latest value of a feed, or a refusal where it is stale.
    pub fn get_nav(&self, inv: &Invocation, feed_id: Symbol) -> (r: Result<i128, OracleError>)
        ensures
            r == self.get_nav_answer(*inv, feed_id),
    {
        let feed: Feed = match self.get_feed(feed_id) {
            Ok(f) => f,
            Err(e) => {
                return Err(e);
            },
        };
        let point: NavPoint = match self.last_update(feed_id) {
            Ok(p) => p,
            Err(e) => {
                return Err(e);
            },
        };
        if inv.timestamp.saturating_sub(point.timestamp) > feed.staleness_secs {
            return Err(OracleError::OracleStale);
        }
        Ok(point.nav)
    }

    /// What `last_update` answers.
    pub open spec fn last_update_answer(
        self,
        feed_id: Symbol,
    ) -> Result<NavPoint, OracleError> {
        if self.points@.dom().contains(feed_id) {
            Ok::<NavPoint, OracleError>(self.points@[feed_id])
        } else {
            Err(OracleError::NoNavReported)
        }
    }

    /// The stored point of a feed, however old.
    pub fn last_update(&self, feed_id: Symbol) -> (r: Result<NavPoint, OracleError>)
        ensures
            r == self.last_update_answer(feed_id),
    {
        match self.points.get(feed_id) {
            Some(p) => Ok(p),
            None => Err(OracleError::NoNavReported),
        }
    }

    /// How many reporters have to agree on a feed. One unless it was raised.
    pub fn quorum_threshold(&self, feed_id: Symbol) -> (n: u32)
        ensures
            n == self.threshold(feed_id),
    {
        match self.thresholds.get(feed_id) {
            Some(n) => n,
            None => 1,
        }
    }

    /// How many ballots name a value in a round.
    pub fn quorum_votes(&self, feed_id: Symbol, timestamp: u64, nav: i128) -> (n: u64)
        ensures
            n == tally(self.ballots@, feed_id, timestamp, nav),
    {
        let n: usize = self.ballots.len();
        let mut count: u64 = 0;
        let mut i: usize = 0;
        while i < n
            invariant
                i <= n,
                n == self.ballots@.len(),
                count <= i,
                count == tally(self.ballots@.take(i as int), feed_id, timestamp, nav),
            decreases n - i,
        {
            let b: Ballot = self.ballots[i];
            proof {
                assert(self.ballots@.take(i + 1).drop_last() =~= self.ballots@.take(i as int));
            }
            if b.feed_id == feed_id && b.timestamp == timestamp && b.nav == nav {
                count = count + 1;
            }
            i = i + 1;
        }
        proof {
            assert(self.ballots@.take(n as int) =~= self.ballots@);
        }
        count
    }

    /// Whether an address is in the reporter set.
    pub fn is_reporter(&self, addr: Address) -> (b: bool)
        ensures
            b == self.reports(addr),
    {
        match self.reporters.get(addr) {
            Some(b) => b,
            None => false,
        }
    }

    /// The reporter set, in the order of the addresses.
    pub fn reporters(&self) -> (ids: Vec<Address>)
        ensures
            forall|a: Address| ids@.contains(a) <==> #[trigger] self.reporters@.dom().contains(a),
            forall|i: int, j: int|
                0 <= i < j < ids@.len() ==> (#[trigger] ids@[i]).rank() < (
                #[trigger] ids@[j]).rank(),
    {
        let ids: Vec<Address> = self.reporters.keys();
        proof {
            let all = self.reporters.listing();
            assert forall|a: Address|
                ids@.contains(a) <==> #[trigger] self.reporters@.dom().contains(a) by {
                if ids@.contains(a) {
                    let i = choose|i: int| 0 <= i < ids@.len() && ids@[i] == a;
                    assert(all[i].0 == a);
                }
                if lists(all, a) {
                    let i = choose|i: int| 0 <= i < all.len() && (#[trigger] all[i]).0 == a;
                    assert(ids@[i] == a);
                }
            }
            assert forall|i: int, j: int| 0 <= i < j < ids@.len() implies (
            #[trigger] ids@[i]).rank() < (#[trigger] ids@[j]).rank() by {
                assert(all[i].0.rank() < all[j].0.rank());
            }
        }
        ids
    }

    /// A feed's guards.
    pub fn get_feed(&self, feed_id: Symbol) -> (r: Result<Feed, OracleError>)
        ensures
            r == (if self.feeds@.dom().contains(feed_id) {
                Ok::<Feed, OracleError>(self.feeds@[feed_id])
            } else {
                Err(OracleError::FeedNotRegistered)
            }),
    {
        match self.feeds.get(feed_id) {
            Some(f) => Ok(f),
            None => Err(OracleError::FeedNotRegistered),
        }
    }

    /// The admin.
    pub fn admin(&self) -> (r: Result<Address, OracleError>)
        ensures
            r == (match self.role.admin {
                Some(a) => Ok::<Address, OracleError>(a),
                None => Err(OracleError::NotInitialized),
            }),
    {
        match self.role.admin {
            Some(a) => Ok(a),
            None => Err(OracleError::NotInitialized),
        }
    }
}

/// A value that commits was named in its round by as many distinct addresses
/// as the feed's threshold asks for, the one completing the quorum among them,
/// and every one of them is in the reporter set as it commits.
pub proof fn a_commit_takes_a_quorum_of_distinct_reporters(
    o: OracleAdapter,
    inv: Invocation,
    reporter: Address,
    feed_id: Symbol,
    nav: i128,
    timestamp: u64,
)
    requires
        o.sound(),
        o.verdict(inv, reporter, feed_id, nav, timestamp) == Ok::<Verdict, Fault<OracleError>>(
            Verdict::Accepted,
        ),
    ensures
        supporters(o.ballots@, feed_id, timestamp, nav).insert(reporter).finite(),
        supporters(o.ballots@, feed_id, timestamp, nav).insert(reporter).len() >= o.threshold(
            feed_id,
        ),
        !supporters(o.ballots@, feed_id, timestamp, nav).contains(reporter),
        forall|a: Address| #[trigger]
            supporters(o.ballots@, feed_id, timestamp, nav).insert(reporter).contains(a)
                ==> o.reports(a),
{
    let s = o.ballots@;
    assert(undecided(s, feed_id, timestamp)) by {
        assert forall|i: int|
            0 <= i < s.len() && in_round(#[trigger] s[i], feed_id, timestamp) implies s[i].open by {
            if !s[i].open {
                assert(o.points@.dom().contains(s[i].feed_id));
                assert(s[i].timestamp <= o.points@[s[i].feed_id].timestamp);
            }
        }
    }
    lemma_tally_is_distinct(s, feed_id, timestamp, nav);
    let set = supporters(s, feed_id, timestamp, nav);
    assert(!set.contains(reporter)) by {
        if set.contains(reporter) {
            let i = choose|i: int|
                0 <= i < s.len() && in_round(#[trigger] s[i], feed_id, timestamp) && s[i].nav == nav
                    && s[i].reporter == reporter;
            assert(in_round(s[i], feed_id, timestamp) && s[i].open);
        }
    }
    assert forall|a: Address| #[trigger] set.insert(reporter).contains(a) implies o.reports(a) by {
        if a != reporter {
            let i = choose|i: int|
                0 <= i < s.len() && in_round(#[trigger] s[i], feed_id, timestamp) && s[i].nav == nav
                    && s[i].reporter == a;
            assert(s[i].open);
        }
    }
}

/// A value that commits is inside the feed's band, is not from the future, is
/// newer than the one it replaces, comes no sooner than the feed's interval
/// after it, and moves no further from it than the feed's bound.
pub proof fn a_committed_value_meets_every_guard(
    o: OracleAdapter,
    inv: Invocation,
    reporter: Address,
    feed_id: Symbol,
    nav: i128,
    timestamp: u64,
)
    requires
        o.verdict(inv, reporter, feed_id, nav, timestamp) == Ok::<Verdict, Fault<OracleError>>(
            Verdict::Accepted,
        ),
    ensures
        o.feeds@.dom().contains(feed_id),
        0 < nav,
        o.feeds@[feed_id].min_nav <= nav <= o.feeds@[feed_id].max_nav,
        timestamp <= inv.timestamp,
        o.points@.dom().contains(feed_id) ==> {
            let last = o.points@[feed_id];
            let feed = o.feeds@[feed_id];
            &&& last.timestamp < timestamp
            &&& inv.timestamp >= smaller(
                last.recorded_at + feed.min_interval_secs,
                u64::MAX as int,
            )
            &&& feed.deviation_bps > 0 && last.nav > 0 ==> deviation(nav as int, last.nav as int)
                <= feed.deviation_bps
        },
{
}

/// Whatever a report leads to, a feed that already has a value goes on having
/// one that is at least as new.
pub proof fn a_feed_never_goes_back_in_time(
    before: OracleAdapter,
    after: OracleAdapter,
    inv: Invocation,
    reporter: Address,
    feed_id: Symbol,
    nav: i128,
    timestamp: u64,
    other: Symbol,
)
    requires
        before.verdict(inv, reporter, feed_id, nav, timestamp) == Ok::<Verdict, Fault<OracleError>>(
            Verdict::Accepted,
        ),
        before.committed(after, inv, feed_id, nav, timestamp),
        before.points@.dom().contains(other),
    ensures
        after.points@.dom().contains(other),
        after.points@[other].timestamp >= before.points@[other].timestamp,
        other == feed_id ==> after.points@[other].timestamp > before.points@[other].timestamp,
        other != feed_id ==> after.points@[other] == before.points@[other],
{
}

/// Nobody outside the reporter set is heard, and no reporter unsigned: not
/// even as a vote.
pub proof fn only_a_reporter_that_signed_is_heard(
    o: OracleAdapter,
    inv: Invocation,
    reporter: Address,
    feed_id: Symbol,
    nav: i128,
    timestamp: u64,
)
    requires
        o.verdict(inv, reporter, feed_id, nav, timestamp) is Ok,
    ensures
        o.reports(reporter),
        inv.signed(reporter),
{
}

/// A feed's guards are write once: no second registration is taken, whoever
/// asks.
pub proof fn a_registered_feed_is_never_registered_again(
    o: OracleAdapter,
    inv: Invocation,
    admin: Address,
    feed_id: Symbol,
    feed: Feed,
)
    requires
        o.feeds@.dom().contains(feed_id),
    ensures
        o.register_feed_fault(inv, admin, feed_id, feed) is Some,
{
}

/// Lowering or raising the threshold lets nobody vote twice: who is bound by a
/// vote in a round does not depend on it.
pub proof fn a_threshold_frees_no_vote(
    before: OracleAdapter,
    after: OracleAdapter,
    inv: Invocation,
    reporter: Address,
    feed_id: Symbol,
    nav: i128,
    timestamp: u64,
)
    requires
        after == (OracleAdapter { thresholds: after.thresholds, ..before }),
    ensures
        after.vote_fault(inv, reporter, feed_id, nav, timestamp) == before.vote_fault(
            inv,
            reporter,
            feed_id,
            nav,
            timestamp,
        ),
{
}

} // verus!
