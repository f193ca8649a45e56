use node_network::discovery::{DiscoveredNode, KnownPeers, update_overlay_peers, update_peers};
use node_network::maintenance::{
    announce_step, crawl_step, plan_crawl_sweep, refresh_directive, CrawlAction, StoreOutcome,
    CRAWL_RESTART_SECS, REFRESH_PERIOD_SECS, STORE_PERIOD_SECS,
};
use node_network::peers::{NeighbourSet, NodeAddress, PeerId};

#[test]
fn loop_periods() {
    assert_eq!(STORE_PERIOD_SECS, 500);
    assert_eq!(CRAWL_RESTART_SECS, 60);
    assert_eq!(REFRESH_PERIOD_SECS, 5);
}

#[test]
fn announcement_survives_sustained_failure() {
    // An always-failing store, observed over more than three periods:
    // every attempt only warns, and the loop never decides to stop.
    let mut attempts = 0u32;
    let mut failing_store = || {
        attempts += 1;
        StoreOutcome::Failed
    };
    for _ in 0..4 {
        let d = announce_step(failing_store());
        assert!(d.warn);
        assert!(!d.stop);
        assert_eq!(d.delay_secs, STORE_PERIOD_SECS);
    }
    // The mock is still being invoked after three failing periods.
    assert_eq!(attempts, 4);
    // A success changes nothing about the schedule.
    let d = announce_step(StoreOutcome::Stored);
    assert!(!d.warn);
    assert!(!d.stop);
}

#[test]
fn crawl_queries_each_known_peer_then_restarts() {
    // Enumeration reports three peers, then is exhausted.
    let known = vec![PeerId { value: 1 }, PeerId { value: 2 }, PeerId { value: 3 }];
    let acts = plan_crawl_sweep(&known);
    assert_eq!(
        acts,
        vec![
            CrawlAction::FindNodes(PeerId { value: 1 }),
            CrawlAction::FindNodes(PeerId { value: 2 }),
            CrawlAction::FindNodes(PeerId { value: 3 }),
            CrawlAction::RestartAfterDelay,
        ]
    );
    // Exactly 3 find-nodes queries happen before the sleep-and-restart.
    let queries = acts
        .iter()
        .filter(|a| matches!(a, CrawlAction::FindNodes(_)))
        .count();
    assert_eq!(queries, 3);
    assert_eq!(crawl_step(None), CrawlAction::RestartAfterDelay);
}

#[test]
fn refresh_runs_ceiling_of_quota_over_yield_rounds() {
    // A discovery mock yielding k = 2 new peers per call, quota Q = 5:
    // the loop runs exactly ceil(5 / 2) = 3 rounds, then never again.
    let quota = 5usize;
    let k = 2u64;
    let mut ns = NeighbourSet::new(quota);
    let mut known = KnownPeers::new();
    let mut next_identity = 0u64;
    let mut rounds = 0u32;
    while refresh_directive(&ns) {
        let mut found: Vec<DiscoveredNode> = Vec::new();
        for _ in 0..k {
            found.push(DiscoveredNode {
                address: NodeAddress { value: next_identity },
                identity: PeerId { value: next_identity },
            });
            next_identity += 1;
        }
        let fresh = update_overlay_peers(&mut known, &found);
        update_peers(&mut ns, &fresh);
        rounds += 1;
        assert!(rounds <= 3);
    }
    assert_eq!(rounds, 3);
    assert_eq!(ns.count(), 6);
    // Terminated for good: the directive never fires again.
    assert!(!refresh_directive(&ns));
    assert!(!refresh_directive(&ns));
}

#[test]
fn refresh_stops_at_exact_quota() {
    // k = 1, Q = 2: exactly 2 rounds.
    let mut ns = NeighbourSet::new(2);
    let mut rounds = 0u32;
    let mut next_identity = 0u64;
    while refresh_directive(&ns) {
        ns.add(PeerId { value: next_identity });
        next_identity += 1;
        rounds += 1;
        assert!(rounds <= 2);
    }
    assert_eq!(rounds, 2);
}
