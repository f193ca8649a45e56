//! Peer identities and the per-overlay neighbour set.
//!
//! A neighbour set is the bounded collection of peer identities tracked
//! for one overlay. It has a target quota: once the set holds that many
//! peers, the peer-refresh loop stops looking for more. Discovery adds
//! peers; an identity is never tracked twice.

use vstd::prelude::*;

verus! {

/// Identity of a transport-layer peer: a compact stand-in for the
/// transport's public-key identity. The library reads nothing out of it
/// beyond equality.
#[derive(PartialEq, Eq, Structural, Clone, Copy, Debug)]
pub struct PeerId {
    pub value: u64,
}

/// Network address of a peer, carried alongside its identity when the
/// distributed hash table reports an overlay member.
#[derive(PartialEq, Eq, Structural, Clone, Copy, Debug)]
pub struct NodeAddress {
    pub value: u64,
}

/// No identity occurs twice in the sequence.
pub open spec fn distinct_peers(s: Seq<PeerId>) -> bool {
    forall|i: int, j: int| 0 <= i < j < s.len() ==> s[i] != s[j]
}

/// The bounded set of peers currently tracked for one overlay.
pub struct NeighbourSet {
    peers: Vec<PeerId>,
    quota: usize,
}

impl View for NeighbourSet {
    type V = Seq<PeerId>;

    closed spec fn view(&self) -> Seq<PeerId> {
        self.peers@
    }
}

impl NeighbourSet {
    /// A neighbour set never tracks the same identity twice.
    pub closed spec fn wf(&self) -> bool {
        distinct_peers(self.peers@)
    }

    /// The target quota the refresh loop drives the set towards.
    pub closed spec fn spec_quota(&self) -> usize {
        self.quota
    }

    /// An empty neighbour set with the given target quota.
    pub fn new(quota: usize) -> (r: NeighbourSet)
        ensures
            r@ == Seq::<PeerId>::empty(),
            r.spec_quota() == quota,
            r.wf(),
    {
        NeighbourSet { peers: Vec::new(), quota }
    }

    /// The target quota.
    pub fn quota(&self) -> (r: usize)
        ensures
            r == self.spec_quota(),
    {
        self.quota
    }

    /// How many peers are currently tracked.
    pub fn count(&self) -> (r: usize)
        ensures
            r == self@.len(),
    {
        self.peers.len()
    }

    /// Whether the set already tracks this identity.
    pub fn contains(&self, p: PeerId) -> (r: bool)
        ensures
            r == self@.contains(p),
    {
        let n = self.peers.len();
        let mut i: usize = 0;
        while i < n
            invariant
                n == self.peers@.len(),
                0 <= i <= n,
                self@ == self.peers@,
                forall|j: int| 0 <= j < i ==> self.peers@[j] != p,
            decreases n - i,
        {
            if self.peers[i].value == p.value {
                assert(self@[i as int] == p);
                return true;
            }
            i += 1;
        }
        assert(forall|j: int| 0 <= j < self@.len() ==> self@[j] != p);
        false
    }

    /// Adds an identity unless it is already tracked; reports whether the
    /// set grew. Adding never changes the quota, and an identity present
    /// before the call is never duplicated.
    pub fn add(&mut self, p: PeerId) -> (added: bool)
        requires
            old(self).wf(),
        ensures
            added == !old(self)@.contains(p),
            added ==> final(self)@ == old(self)@.push(p),
            !added ==> final(self)@ == old(self)@,
            final(self)@.contains(p),
            final(self).spec_quota() == old(self).spec_quota(),
            final(self).wf(),
    {
        if self.contains(p) {
            false
        } else {
            self.peers.push(p);
            assert(self@.last() == p);
            assert(self@.contains(p));
            assert(distinct_peers(self@)) by {
                let s = old(self)@;
                assert(forall|j: int| 0 <= j < s.len() ==> s[j] != p);
            }
            true
        }
    }

    /// Whether the tracked count has reached the target quota.
    pub fn reached_quota(&self) -> (r: bool)
        ensures
            r == (self@.len() >= self.spec_quota()),
    {
        self.peers.len() >= self.quota
    }
}

} // verus!
