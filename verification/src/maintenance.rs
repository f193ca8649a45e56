//! Decision logic of the background maintenance loops.
//!
//! Three periodic tasks keep an overlay alive: self-announcement
//! re-publishes the node's address and its signed overlay record on a
//! fixed period, forever; the crawl loop walks the peers the distributed
//! hash table already knows and asks each for nodes near it, restarting
//! the sweep after a fixed delay, forever; the peer-refresh loop runs
//! discovery rounds until the neighbour set reaches its quota and is the
//! only loop that terminates. Each loop's decisions are functions here,
//! from the observed event to the next action; the runtime that sleeps
//! and performs network calls drives them from outside.

use vstd::prelude::*;
use crate::peers::{PeerId, NeighbourSet, distinct_peers};
use crate::discovery::{ns_absorb, lemma_ns_absorb_contains, lemma_ns_absorb_len_all_new};

verus! {

/// Seconds between two self-announcement attempts.
pub const STORE_PERIOD_SECS: u64 = 500;

/// Seconds the crawl loop sleeps after exhausting one enumeration sweep.
pub const CRAWL_RESTART_SECS: u64 = 60;

/// Seconds between two peer-refresh rounds.
pub const REFRESH_PERIOD_SECS: u64 = 5;

/// Outcome of one attempt to publish the node's address or its signed
/// overlay record.
#[derive(PartialEq, Eq, Structural, Clone, Copy, Debug)]
pub enum StoreOutcome {
    /// The record was stored.
    Stored,
    /// The attempt failed; a transient network error, never fatal.
    Failed,
}

/// What a self-announcement loop does after one attempt.
#[derive(PartialEq, Eq, Structural, Clone, Copy, Debug)]
pub struct AnnounceStep {
    /// Log the failure as a warning; failures are never retried at once
    /// and never propagated.
    pub warn: bool,
    /// Sleep this long before the next attempt.
    pub delay_secs: u64,
    /// Whether the loop exits. Announcement loops never exit.
    pub stop: bool,
}

/// The announcement decision for one outcome: warn exactly on failure,
/// sleep the fixed period, never stop.
pub open spec fn announce_directive(outcome: StoreOutcome) -> AnnounceStep {
    AnnounceStep { warn: outcome is Failed, delay_secs: STORE_PERIOD_SECS, stop: false }
}

/// Decides what a self-announcement loop does after one attempt: a
/// failure is only logged as a warning, every outcome is followed by the
/// same fixed sleep, and the loop never stops.
pub fn announce_step(outcome: StoreOutcome) -> (d: AnnounceStep)
    ensures
        d == announce_directive(outcome),
        !d.stop,
{
    AnnounceStep {
        warn: match outcome {
            StoreOutcome::Stored => false,
            StoreOutcome::Failed => true,
        },
        delay_secs: STORE_PERIOD_SECS,
        stop: false,
    }
}

/// Self-announcement never terminates: whatever outcomes a run of
/// attempts observes — sustained failure included — no step of the loop
/// ever decides to stop.
pub proof fn lemma_announce_never_stops(outcomes: Seq<StoreOutcome>)
    ensures
        forall|i: int| 0 <= i < outcomes.len() ==> !announce_directive(#[trigger] outcomes[i]).stop,
{
}

/// One action of the crawl loop.
#[derive(PartialEq, Eq, Structural, Clone, Copy, Debug)]
pub enum CrawlAction {
    /// Ask this already known peer for nodes near it; a failure of the
    /// query is logged as a warning and the sweep goes on.
    FindNodes(PeerId),
    /// The enumeration is exhausted: sleep `CRAWL_RESTART_SECS`, then
    /// restart the enumeration from the beginning. The loop never exits.
    RestartAfterDelay,
}

/// The crawl decision for one enumeration event: a reported peer is
/// queried, an exhausted enumeration is followed by the fixed delay and
/// a restart.
pub fn crawl_step(next: Option<PeerId>) -> (a: CrawlAction)
    ensures
        next matches Some(p) ==> a == CrawlAction::FindNodes(p),
        next is None ==> a == CrawlAction::RestartAfterDelay,
{
    match next {
        Some(p) => CrawlAction::FindNodes(p),
        None => CrawlAction::RestartAfterDelay,
    }
}

/// The whole of one crawl sweep over an enumeration snapshot: exactly
/// one find-nodes query per known peer, in enumeration order, and then —
/// only then — the sleep-and-restart action.
pub fn plan_crawl_sweep(known: &Vec<PeerId>) -> (acts: Vec<CrawlAction>)
    ensures
        acts@.len() == known@.len() + 1,
        forall|i: int| 0 <= i < known@.len() ==> acts@[i] == CrawlAction::FindNodes(
            #[trigger] known@[i],
        ),
        acts@.last() == CrawlAction::RestartAfterDelay,
{
    let n = known.len();
    let mut acts: Vec<CrawlAction> = Vec::new();
    let mut i: usize = 0;
    while i < n
        invariant
            n == known@.len(),
            0 <= i <= n,
            acts@.len() == i,
            forall|j: int| 0 <= j < i ==> acts@[j] == CrawlAction::FindNodes(#[trigger] known@[j]),
        decreases n - i,
    {
        acts.push(crawl_step(Some(known[i])));
        i += 1;
    }
    acts.push(crawl_step(None));
    acts
}

/// Whether the peer-refresh loop runs another discovery round: it does
/// exactly while the neighbour set is below its quota.
pub open spec fn refresh_runs_again(count: nat, quota: nat) -> bool {
    count < quota
}

/// Decides whether the peer-refresh loop runs another round after one
/// discovery round: it continues exactly while the bound neighbour set
/// is below its quota, and once the quota is reached it terminates for
/// good. Discovery failures do not reach this decision; they are logged
/// and the loop continues on its schedule.
pub fn refresh_directive(ns: &NeighbourSet) -> (again: bool)
    ensures
        again == refresh_runs_again(ns@.len(), ns.spec_quota() as nat),
{
    !ns.reached_quota()
}

/// The number of discovery rounds the refresh loop needs when every
/// round contributes `k` new peers towards quota `quota`: the rounding
/// up of `quota / k`.
pub open spec fn rounds_to_quota(quota: nat, k: nat) -> nat
    recommends
        k >= 1,
{
    ((quota + k - 1) as int / k as int) as nat
}

/// A neighbour set after a run of discovery rounds, the batches absorbed
/// in order.
pub open spec fn absorb_rounds(s: Seq<PeerId>, batches: Seq<Seq<PeerId>>) -> Seq<PeerId>
    decreases batches.len(),
{
    if batches.len() == 0 {
        s
    } else {
        absorb_rounds(ns_absorb(s, batches[0]), batches.drop_first())
    }
}

/// Every round's batch holds exactly `k` peers, no peer twice, none of
/// them tracked at the start, and no peer in two rounds: the shape of a
/// discovery source that yields `k` new peers per call.
pub open spec fn batches_yield_fresh(s: Seq<PeerId>, batches: Seq<Seq<PeerId>>, k: nat) -> bool {
    &&& forall|i: int|
        0 <= i < batches.len() ==> distinct_peers(#[trigger] batches[i]) && batches[i].len() == k
    &&& forall|i: int, x: PeerId|
        0 <= i < batches.len() && #[trigger] batches[i].contains(x) ==> !s.contains(x)
    &&& forall|i: int, j: int, x: PeerId|
        0 <= i < j < batches.len() && #[trigger] batches[i].contains(x) ==> !#[trigger] batches[j].contains(x)
}

/// Discovery rounds that each contribute `k` new peers grow the
/// neighbour set by exactly `k` per round: no duplicate is ever tracked.
pub proof fn lemma_refresh_growth(s: Seq<PeerId>, batches: Seq<Seq<PeerId>>, k: nat)
    requires
        batches_yield_fresh(s, batches, k),
    ensures
        absorb_rounds(s, batches).len() == s.len() + batches.len() * k,
    decreases batches.len(),
{
    if batches.len() == 0 {
        assert(batches.len() * k == 0) by (nonlinear_arith)
            requires
                batches.len() == 0,
        ;
    } else {
        let b0 = batches[0];
        let rest = batches.drop_first();
        let s1 = ns_absorb(s, b0);
        assert forall|i: int| 0 <= i < b0.len() implies !s.contains(#[trigger] b0[i]) by {
            assert(batches[0].contains(b0[i]));
        }
        lemma_ns_absorb_len_all_new(s, b0);
        assert forall|x: PeerId| s1.contains(x) implies (s.contains(x) || b0.contains(x)) by {
            lemma_ns_absorb_contains(s, b0, x);
        }
        assert(batches_yield_fresh(s1, rest, k)) by {
            assert(forall|i: int| 0 <= i < rest.len() ==> rest[i] == batches[i + 1]);
            assert forall|i: int, x: PeerId|
                0 <= i < rest.len() && #[trigger] rest[i].contains(x) implies !s1.contains(
                x,
            ) by {
                assert(batches[i + 1].contains(x));
                if s1.contains(x) {
                    lemma_ns_absorb_contains(s, b0, x);
                }
            }
        }
        lemma_refresh_growth(s1, rest, k);
        assert(s.len() + k + rest.len() * k == s.len() + batches.len() * k) by (nonlinear_arith)
            requires
                rest.len() == batches.len() - 1,
                batches.len() >= 1,
        ;
    }
}

/// Fed `k` fresh peers per round from an empty start, the refresh loop
/// holds `r * k` peers after `r` rounds; it therefore decides to run
/// again after every round before the `rounds_to_quota(quota, k)`-th,
/// stops at that round, and never runs again afterward.
pub proof fn lemma_refresh_round_count(quota: nat, k: nat, r: nat)
    requires
        k >= 1,
        quota >= 1,
    ensures
        r < rounds_to_quota(quota, k) ==> refresh_runs_again(r * k, quota),
        r >= rounds_to_quota(quota, k) ==> !refresh_runs_again(r * k, quota),
{
    let c = rounds_to_quota(quota, k) as int;
    let top = (quota + k - 1) as int;
    vstd::arithmetic::div_mod::lemma_fundamental_div_mod(top, k as int);
    let rem = top % (k as int);
    assert(top == (k as int) * c + rem);
    assert(0 <= rem < k) by {
        vstd::arithmetic::div_mod::lemma_mod_bound(top, k as int);
    }
    assert(c * k >= quota) by (nonlinear_arith)
        requires
            top == (k as int) * c + rem,
            top == quota + k - 1,
            0 <= rem < k,
    ;
    assert((c - 1) * k < quota) by (nonlinear_arith)
        requires
            top == (k as int) * c + rem,
            top == quota + k - 1,
            0 <= rem < k,
    ;
    if r < c {
        vstd::arithmetic::mul::lemma_mul_inequality(r as int, c - 1, k as int);
    } else {
        vstd::arithmetic::mul::lemma_mul_inequality(c, r as int, k as int);
    }
}

/// The peer-refresh law in one piece: against a discovery source that
/// yields `k` new peers per round and a quota `quota`, a loop that
/// started on an empty neighbour set decides to run again after every
/// run of fewer than `rounds_to_quota(quota, k)` rounds, and decides to
/// stop — and stays stopped — after every run of at least that many.
pub proof fn lemma_refresh_terminates_at_quota(batches: Seq<Seq<PeerId>>, quota: nat, k: nat)
    requires
        k >= 1,
        quota >= 1,
        batches_yield_fresh(Seq::<PeerId>::empty(), batches, k),
    ensures
        batches.len() < rounds_to_quota(quota, k) ==> refresh_runs_again(
            absorb_rounds(Seq::<PeerId>::empty(), batches).len(),
            quota,
        ),
        batches.len() >= rounds_to_quota(quota, k) ==> !refresh_runs_again(
            absorb_rounds(Seq::<PeerId>::empty(), batches).len(),
            quota,
        ),
{
    lemma_refresh_growth(Seq::<PeerId>::empty(), batches, k);
    lemma_refresh_round_count(quota, k, batches.len());
}

} // verus!
