use node_network::bootstrap::{
    bootstrap_publish, resolve_decision, resolve_step, BootstrapOutcome, ResolveDecision,
};
use node_network::ids::OverlayShortId;
use node_network::peers::PeerId;
use node_network::registry::Registry;
use node_network::single_flight::{SingleFlight, SubmitRole};

fn id_of(byte: u8) -> OverlayShortId {
    OverlayShortId::from_bytes(vec![byte; 32]).unwrap()
}

#[test]
fn resolve_decision_covers_every_observation() {
    assert_eq!(resolve_decision(Some(9), false), ResolveDecision::UseResident(9));
    assert_eq!(resolve_decision(Some(9), true), ResolveDecision::UseResident(9));
    assert_eq!(resolve_decision(None, true), ResolveDecision::AwaitInFlight);
    assert_eq!(resolve_decision(None, false), ResolveDecision::RunBootstrap);
}

#[test]
fn bootstrap_seeds_neighbours_and_publishes() {
    let mut reg = Registry::new();
    let id = id_of(1);
    let fresh = vec![PeerId { value: 1 }, PeerId { value: 2 }, PeerId { value: 1 }];
    match bootstrap_publish(&mut reg, &id, &fresh, 8, 500) {
        BootstrapOutcome::Published(h) => {
            assert_eq!(h.instance, 500);
            // Seeded with the discovered peers, each tracked once.
            assert_eq!(h.neighbours.count(), 2);
            assert!(h.neighbours.contains(PeerId { value: 1 }));
            assert!(h.neighbours.contains(PeerId { value: 2 }));
            assert_eq!(h.neighbours.quota(), 8);
        }
        BootstrapOutcome::Superseded(_) => panic!("slot was empty"),
    }
    assert_eq!(reg.lookup(&id), Some(500));
}

#[test]
fn losing_candidate_is_superseded() {
    let mut reg = Registry::new();
    let id = id_of(2);
    match bootstrap_publish(&mut reg, &id, &vec![], 8, 1) {
        BootstrapOutcome::Published(_) => {}
        BootstrapOutcome::Superseded(_) => panic!("slot was empty"),
    }
    match bootstrap_publish(&mut reg, &id, &vec![], 8, 2) {
        BootstrapOutcome::Published(_) => panic!("slot was taken"),
        BootstrapOutcome::Superseded(resident) => assert_eq!(resident, 1),
    }
    assert_eq!(reg.lookup(&id), Some(1));
}

#[test]
fn concurrent_resolutions_observe_one_identity() {
    let mut reg = Registry::new();
    let mut sf = SingleFlight::new();
    let id = id_of(3);

    // Several callers race for the same overlay: everyone misses the
    // cache, the first submission runs the bootstrap, the rest wait.
    assert_eq!(resolve_step(&reg, &sf, &id), ResolveDecision::RunBootstrap);
    assert_eq!(sf.submit(&id), SubmitRole::Runner);
    for _ in 0..4 {
        assert_eq!(resolve_step(&reg, &sf, &id), ResolveDecision::AwaitInFlight);
        assert_eq!(sf.submit(&id), SubmitRole::Waiter);
    }

    // The runner bootstraps and publishes, then clears the flight.
    match bootstrap_publish(&mut reg, &id, &vec![PeerId { value: 9 }], 8, 42) {
        BootstrapOutcome::Published(h) => assert_eq!(h.instance, 42),
        BootstrapOutcome::Superseded(_) => panic!("slot was empty"),
    }
    sf.complete(&id);

    // Every retrying waiter, and every later caller, observes the same
    // published identity with no further work.
    for _ in 0..5 {
        assert_eq!(resolve_step(&reg, &sf, &id), ResolveDecision::UseResident(42));
    }
}

#[test]
fn failed_bootstrap_of_one_overlay_does_not_block_another() {
    let mut reg = Registry::new();
    let mut sf = SingleFlight::new();
    let a = id_of(4);
    let b = id_of(5);

    // A's runner starts, then fails before publishing anything.
    assert_eq!(resolve_step(&reg, &sf, &a), ResolveDecision::RunBootstrap);
    assert_eq!(sf.submit(&a), SubmitRole::Runner);

    // B resolves independently while A is in flight.
    assert_eq!(resolve_step(&reg, &sf, &b), ResolveDecision::RunBootstrap);
    assert_eq!(sf.submit(&b), SubmitRole::Runner);
    match bootstrap_publish(&mut reg, &b, &vec![], 8, 7) {
        BootstrapOutcome::Published(h) => assert_eq!(h.instance, 7),
        BootstrapOutcome::Superseded(_) => panic!("slot was empty"),
    }
    sf.complete(&b);
    assert_eq!(resolve_step(&reg, &sf, &b), ResolveDecision::UseResident(7));

    // A's failure only clears its flight; a retry bootstraps A afresh.
    sf.complete(&a);
    assert_eq!(resolve_step(&reg, &sf, &a), ResolveDecision::RunBootstrap);
}
