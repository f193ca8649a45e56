use node_network::discovery::{DiscoveredNode, KnownPeers, update_overlay_peers, update_peers};
use node_network::peers::{NeighbourSet, NodeAddress, PeerId};

fn node(addr: u64, id: u64) -> DiscoveredNode {
    DiscoveredNode { address: NodeAddress { value: addr }, identity: PeerId { value: id } }
}

#[test]
fn registration_is_idempotent() {
    let mut known = KnownPeers::new();
    let addr = NodeAddress { value: 10 };
    let peer = PeerId { value: 1 };
    assert_eq!(known.register(addr, peer), Some(peer));
    // The same (address, identity) pair again is a no-op.
    assert_eq!(known.register(addr, peer), None);
    // So is the same identity under another address.
    assert_eq!(known.register(NodeAddress { value: 11 }, peer), None);
}

#[test]
fn discovery_reports_only_fresh_identities() {
    let mut known = KnownPeers::new();
    let found = vec![node(1, 100), node(2, 101), node(3, 100)];
    let fresh = update_overlay_peers(&mut known, &found);
    // The duplicate of identity 100 is reported once, in report order.
    assert_eq!(fresh, vec![PeerId { value: 100 }, PeerId { value: 101 }]);
}

#[test]
fn zero_results_are_not_an_error() {
    let mut known = KnownPeers::new();
    let fresh = update_overlay_peers(&mut known, &vec![]);
    assert!(fresh.is_empty());
}

#[test]
fn resubmitting_a_pair_adds_at_most_once() {
    let mut known = KnownPeers::new();
    let mut ns = NeighbourSet::new(16);
    let found = vec![node(1, 7), node(2, 8)];

    let fresh = update_overlay_peers(&mut known, &found);
    update_peers(&mut ns, &fresh);
    assert_eq!(ns.count(), 2);

    // A second round over the same pairs introduces nothing and leaves
    // the neighbour set exactly as large as before.
    let fresh_again = update_overlay_peers(&mut known, &found);
    assert!(fresh_again.is_empty());
    update_peers(&mut ns, &fresh_again);
    assert_eq!(ns.count(), 2);

    // Feeding the same batch into the set directly also adds nothing.
    update_peers(&mut ns, &fresh);
    assert_eq!(ns.count(), 2);
}

#[test]
fn neighbour_set_never_tracks_twice() {
    let mut ns = NeighbourSet::new(4);
    let p = PeerId { value: 5 };
    assert!(ns.add(p));
    assert!(!ns.add(p));
    assert_eq!(ns.count(), 1);
    assert!(ns.contains(p));
    assert_eq!(ns.quota(), 4);
}
