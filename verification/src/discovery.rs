//! Peer discovery against the distributed hash table.
//!
//! One discovery round takes the (address, identity) pairs the table
//! reports for an overlay, registers each identity with the transport
//! layer — an idempotent step that is a no-op for identities already
//! known — and returns the identities that were newly introduced, in the
//! order they were reported. The newly introduced identities are then
//! fed into the overlay's neighbour set.

use vstd::prelude::*;
use crate::peers::{PeerId, NodeAddress, NeighbourSet, distinct_peers};

verus! {

/// One overlay member as reported by the distributed hash table: where
/// it can be reached and who it is.
#[derive(PartialEq, Eq, Structural, Clone, Copy, Debug)]
pub struct DiscoveredNode {
    pub address: NodeAddress,
    pub identity: PeerId,
}

/// Some reported pair carries this identity.
pub open spec fn found_has(found: Seq<DiscoveredNode>, x: PeerId) -> bool {
    exists|i: int| 0 <= i < found.len() && (#[trigger] found[i]).identity == x
}

/// The identities a discovery round newly introduces, in report order:
/// those not yet known when their pair is processed, each at most once.
pub open spec fn fresh_of(known: Seq<PeerId>, found: Seq<DiscoveredNode>) -> Seq<PeerId>
    decreases found.len(),
{
    if found.len() == 0 {
        Seq::empty()
    } else if known.contains(found[0].identity) {
        fresh_of(known, found.drop_first())
    } else {
        seq![found[0].identity] + fresh_of(known.push(found[0].identity), found.drop_first())
    }
}

/// The transport's registration table after a discovery round: the known
/// identities extended, in report order, by each newly seen identity.
pub open spec fn absorb_all(known: Seq<PeerId>, found: Seq<DiscoveredNode>) -> Seq<PeerId>
    decreases found.len(),
{
    if found.len() == 0 {
        known
    } else if known.contains(found[0].identity) {
        absorb_all(known, found.drop_first())
    } else {
        absorb_all(known.push(found[0].identity), found.drop_first())
    }
}

/// A neighbour set after absorbing a batch of identities: each identity
/// not yet tracked is appended, in batch order, at most once.
pub open spec fn ns_absorb(s: Seq<PeerId>, batch: Seq<PeerId>) -> Seq<PeerId>
    decreases batch.len(),
{
    if batch.len() == 0 {
        s
    } else if s.contains(batch[0]) {
        ns_absorb(s, batch.drop_first())
    } else {
        ns_absorb(s.push(batch[0]), batch.drop_first())
    }
}

/// The transport layer's table of peers it can already reach. Peer
/// registration goes through this table, which makes registration
/// idempotent: an identity is recorded once, however often the same
/// (address, identity) pair is submitted.
pub struct KnownPeers {
    peers: Vec<PeerId>,
}

impl View for KnownPeers {
    type V = Seq<PeerId>;

    closed spec fn view(&self) -> Seq<PeerId> {
        self.peers@
    }
}

impl KnownPeers {
    /// The table never records the same identity twice.
    pub closed spec fn wf(&self) -> bool {
        distinct_peers(self.peers@)
    }

    /// An empty registration table.
    pub fn new() -> (r: KnownPeers)
        ensures
            r@ == Seq::<PeerId>::empty(),
            r.wf(),
    {
        KnownPeers { peers: Vec::new() }
    }

    /// Registers a reachable peer. Returns the identity exactly when it
    /// was newly introduced; a pair whose identity is already known is a
    /// no-op. The address says where the peer is reached; the table is
    /// keyed by identity alone.
    pub fn register(&mut self, _address: NodeAddress, identity: PeerId) -> (r: Option<PeerId>)
        requires
            old(self).wf(),
        ensures
            r is Some <==> !old(self)@.contains(identity),
            r matches Some(p) ==> p == identity && final(self)@ == old(self)@.push(identity),
            r is None ==> final(self)@ == old(self)@,
            final(self)@.contains(identity),
            final(self).wf(),
    {
        let n = self.peers.len();
        let mut i: usize = 0;
        while i < n
            invariant
                n == self.peers@.len(),
                0 <= i <= n,
                *self == *old(self),
                self.wf(),
                forall|j: int| 0 <= j < i ==> self.peers@[j] != identity,
            decreases n - i,
        {
            if self.peers[i].value == identity.value {
                assert(self@[i as int] == identity);
                return None;
            }
            i += 1;
        }
        assert(!self@.contains(identity));
        self.peers.push(identity);
        assert(self@.last() == identity);
        assert(self@.contains(identity));
        assert(distinct_peers(self@)) by {
            let s = old(self)@;
            assert(forall|j: int| 0 <= j < s.len() ==> s[j] != identity);
        }
        Some(identity)
    }
}

/// One round of peer discovery: registers every reported pair with the
/// transport layer and returns the newly introduced identities, in
/// report order. A round that reports nothing returns nothing; lack of
/// progress is not an error.
pub fn update_overlay_peers(known: &mut KnownPeers, found: &Vec<DiscoveredNode>) -> (fresh: Vec<PeerId>)
    requires
        old(known).wf(),
    ensures
        fresh@ == fresh_of(old(known)@, found@),
        final(known)@ == absorb_all(old(known)@, found@),
        final(known).wf(),
{
    let ghost k0 = known@;
    let mut fresh: Vec<PeerId> = Vec::new();
    let n = found.len();
    let mut i: usize = 0;
    proof {
        assert(found@.skip(0) =~= found@);
        assert(fresh@ + fresh_of(k0, found@) =~= fresh_of(k0, found@));
    }
    while i < n
        invariant
            known.wf(),
            n == found@.len(),
            0 <= i <= n,
            fresh_of(k0, found@) == fresh@ + fresh_of(known@, found@.skip(i as int)),
            absorb_all(k0, found@) == absorb_all(known@, found@.skip(i as int)),
        decreases n - i,
    {
        let d = found[i];
        proof {
            assert(found@.skip(i as int).len() == n - i);
            assert(found@.skip(i as int)[0] == found@[i as int]);
            assert(found@.skip(i as int).drop_first() =~= found@.skip(i + 1));
        }
        let ghost pre = known@;
        let ghost fresh_pre = fresh@;
        match known.register(d.address, d.identity) {
            Some(p) => {
                fresh.push(p);
                proof {
                    assert(fresh_of(pre, found@.skip(i as int)) ==
                        seq![d.identity] + fresh_of(pre.push(d.identity), found@.skip(i + 1)));
                    assert(fresh_pre + (seq![d.identity] + fresh_of(known@, found@.skip(i + 1)))
                        =~= fresh@ + fresh_of(known@, found@.skip(i + 1)));
                }
            },
            None => {
                proof {
                    assert(fresh_of(pre, found@.skip(i as int)) ==
                        fresh_of(pre, found@.skip(i + 1)));
                }
            },
        }
        i += 1;
    }
    proof {
        assert(found@.skip(n as int) =~= Seq::<DiscoveredNode>::empty());
        assert(fresh@ + fresh_of(known@, Seq::<DiscoveredNode>::empty()) =~= fresh@);
    }
    fresh
}

/// Feeds a batch of newly introduced identities into an overlay's
/// neighbour set. Each identity ends up tracked at most once; the quota
/// never changes.
pub fn update_peers(ns: &mut NeighbourSet, batch: &Vec<PeerId>)
    requires
        old(ns).wf(),
    ensures
        final(ns)@ == ns_absorb(old(ns)@, batch@),
        final(ns).wf(),
        final(ns).spec_quota() == old(ns).spec_quota(),
{
    let ghost s0 = ns@;
    let n = batch.len();
    let mut i: usize = 0;
    proof {
        assert(batch@.skip(0) =~= batch@);
    }
    while i < n
        invariant
            ns.wf(),
            ns.spec_quota() == old(ns).spec_quota(),
            n == batch@.len(),
            0 <= i <= n,
            ns_absorb(s0, batch@) == ns_absorb(ns@, batch@.skip(i as int)),
        decreases n - i,
    {
        proof {
            assert(batch@.skip(i as int).len() == n - i);
            assert(batch@.skip(i as int)[0] == batch@[i as int]);
            assert(batch@.skip(i as int).drop_first() =~= batch@.skip(i + 1));
        }
        ns.add(batch[i]);
        i += 1;
    }
    proof {
        assert(batch@.skip(n as int) =~= Seq::<PeerId>::empty());
    }
}

/// Membership in a batch splits into its head and the rest.
proof fn lemma_found_has_split(found: Seq<DiscoveredNode>, x: PeerId)
    requires
        found.len() > 0,
    ensures
        found_has(found, x) <==> (found[0].identity == x || found_has(found.drop_first(), x)),
{
    let rest = found.drop_first();
    if found_has(found, x) {
        let i = choose|i: int| 0 <= i < found.len() && (#[trigger] found[i]).identity == x;
        if i > 0 {
            assert(rest[i - 1] == found[i]);
            assert(found_has(rest, x));
        }
    }
    if found_has(rest, x) {
        let i = choose|i: int| 0 <= i < rest.len() && (#[trigger] rest[i]).identity == x;
        assert(found[i + 1] == rest[i]);
        assert(found_has(found, x));
    }
    if found[0].identity == x {
        assert((#[trigger] found[0]).identity == x);
        assert(found_has(found, x));
    }
}

/// The registration table after a discovery round knows an identity
/// exactly when it knew it before or the round reported it.
pub proof fn lemma_absorb_all_contains(known: Seq<PeerId>, found: Seq<DiscoveredNode>, x: PeerId)
    ensures
        absorb_all(known, found).contains(x) <==> (known.contains(x) || found_has(found, x)),
    decreases found.len(),
{
    broadcast use vstd::seq_lib::lemma_seq_contains_after_push;

    if found.len() == 0 {
        assert(!found_has(found, x));
    } else {
        let id = found[0].identity;
        let rest = found.drop_first();
        lemma_found_has_split(found, x);
        if known.contains(id) {
            lemma_absorb_all_contains(known, rest, x);
        } else {
            lemma_absorb_all_contains(known.push(id), rest, x);
        }
    }
}

/// A round whose every reported identity is already known introduces
/// nothing.
pub proof fn lemma_fresh_of_all_known(known: Seq<PeerId>, found: Seq<DiscoveredNode>)
    requires
        forall|x: PeerId| #[trigger] found_has(found, x) ==> known.contains(x),
    ensures
        fresh_of(known, found) == Seq::<PeerId>::empty(),
    decreases found.len(),
{
    if found.len() > 0 {
        let id = found[0].identity;
        let rest = found.drop_first();
        lemma_found_has_split(found, id);
        assert(found_has(found, id));
        assert(known.contains(id));
        assert forall|x: PeerId| #[trigger] found_has(rest, x) implies known.contains(x) by {
            lemma_found_has_split(found, x);
        }
        lemma_fresh_of_all_known(known, rest);
    }
}

/// Peer discovery is idempotent: running a round a second time over the
/// same reported (address, identity) pairs introduces no identity at
/// all.
pub proof fn lemma_discovery_idempotent(known: Seq<PeerId>, found: Seq<DiscoveredNode>)
    ensures
        fresh_of(absorb_all(known, found), found) == Seq::<PeerId>::empty(),
{
    let after = absorb_all(known, found);
    assert forall|x: PeerId| #[trigger] found_has(found, x) implies after.contains(x) by {
        lemma_absorb_all_contains(known, found, x);
    }
    lemma_fresh_of_all_known(after, found);
}

/// What a discovery round returns is a faithful batch of news: no
/// identity twice, none that was already known, and every one backed by
/// a reported pair.
pub proof fn lemma_fresh_of_faithful(known: Seq<PeerId>, found: Seq<DiscoveredNode>)
    ensures
        distinct_peers(fresh_of(known, found)),
        forall|i: int| 0 <= i < fresh_of(known, found).len() ==> !known.contains(
            #[trigger] fresh_of(known, found)[i],
        ) && found_has(found, fresh_of(known, found)[i]),
    decreases found.len(),
{
    broadcast use vstd::seq_lib::lemma_seq_contains_after_push;

    if found.len() == 0 {
    } else {
        let id = found[0].identity;
        let rest = found.drop_first();
        if known.contains(id) {
            lemma_fresh_of_faithful(known, rest);
            assert forall|i: int| 0 <= i < fresh_of(known, found).len() implies !known.contains(
                #[trigger] fresh_of(known, found)[i],
            ) && found_has(found, fresh_of(known, found)[i]) by {
                lemma_found_has_split(found, fresh_of(known, found)[i]);
            }
        } else {
            lemma_fresh_of_faithful(known.push(id), rest);
            let tail = fresh_of(known.push(id), rest);
            let whole = fresh_of(known, found);
            assert(whole == seq![id] + tail);
            assert(whole[0] == id);
            assert(forall|j: int| 0 <= j < tail.len() ==> whole[j + 1] == tail[j]);
            assert forall|i: int| 0 <= i < whole.len() implies !known.contains(
                #[trigger] whole[i],
            ) && found_has(found, whole[i]) by {
                if i == 0 {
                    lemma_found_has_split(found, id);
                } else {
                    assert(whole[i] == tail[i - 1]);
                    assert(!known.push(id).contains(tail[i - 1]));
                    lemma_found_has_split(found, whole[i]);
                }
            }
            assert forall|a: int, b: int| 0 <= a < b < whole.len() implies whole[a] != whole[b] by {
                if a == 0 {
                    assert(whole[b] == tail[b - 1]);
                    assert(!known.push(id).contains(tail[b - 1]));
                } else {
                    assert(whole[a] == tail[a - 1]);
                    assert(whole[b] == tail[b - 1]);
                }
            }
        }
    }
}

/// A neighbour set that absorbed a batch tracks an identity exactly when
/// it tracked it before or the batch carries it.
pub proof fn lemma_ns_absorb_contains(s: Seq<PeerId>, batch: Seq<PeerId>, x: PeerId)
    ensures
        ns_absorb(s, batch).contains(x) <==> (s.contains(x) || batch.contains(x)),
    decreases batch.len(),
{
    broadcast use vstd::seq_lib::lemma_seq_contains_after_push;

    if batch.len() == 0 {
    } else {
        let b0 = batch[0];
        let rest = batch.drop_first();
        assert(batch.contains(x) <==> (b0 == x || rest.contains(x))) by {
            if batch.contains(x) {
                let i = choose|i: int| 0 <= i < batch.len() && batch[i] == x;
                if i > 0 {
                    assert(rest[i - 1] == batch[i]);
                }
            }
            if rest.contains(x) {
                let i = choose|i: int| 0 <= i < rest.len() && rest[i] == x;
                assert(batch[i + 1] == rest[i]);
            }
        }
        if s.contains(b0) {
            lemma_ns_absorb_contains(s, rest, x);
        } else {
            lemma_ns_absorb_contains(s.push(b0), rest, x);
        }
    }
}

/// Absorbing a batch of identities that are all already tracked leaves
/// the neighbour set exactly as it was.
pub proof fn lemma_ns_absorb_noop(s: Seq<PeerId>, batch: Seq<PeerId>)
    requires
        forall|x: PeerId| batch.contains(x) ==> s.contains(x),
    ensures
        ns_absorb(s, batch) == s,
    decreases batch.len(),
{
    if batch.len() > 0 {
        let b0 = batch[0];
        let rest = batch.drop_first();
        assert(batch.contains(b0));
        assert forall|x: PeerId| rest.contains(x) implies s.contains(x) by {
            let i = choose|i: int| 0 <= i < rest.len() && rest[i] == x;
            assert(batch[i + 1] == rest[i]);
            assert(batch.contains(x));
        }
        lemma_ns_absorb_noop(s, rest);
    }
}

/// Feeding the same batch of identities into a neighbour set a second
/// time changes nothing: each (address, identity) pair adds its peer at
/// most once however often it is submitted.
pub proof fn lemma_ns_absorb_idempotent(s: Seq<PeerId>, batch: Seq<PeerId>)
    ensures
        ns_absorb(ns_absorb(s, batch), batch) == ns_absorb(s, batch),
{
    let once = ns_absorb(s, batch);
    assert forall|x: PeerId| batch.contains(x) implies once.contains(x) by {
        lemma_ns_absorb_contains(s, batch, x);
    }
    lemma_ns_absorb_noop(once, batch);
}

/// Absorbing a batch of distinct identities, none of them tracked yet,
/// grows the neighbour set by exactly the batch's length.
pub proof fn lemma_ns_absorb_len_all_new(s: Seq<PeerId>, batch: Seq<PeerId>)
    requires
        distinct_peers(batch),
        forall|i: int| 0 <= i < batch.len() ==> !s.contains(#[trigger] batch[i]),
    ensures
        ns_absorb(s, batch).len() == s.len() + batch.len(),
    decreases batch.len(),
{
    broadcast use vstd::seq_lib::lemma_seq_contains_after_push;

    if batch.len() > 0 {
        let b0 = batch[0];
        let rest = batch.drop_first();
        assert(!s.contains(b0));
        assert(distinct_peers(rest)) by {
            assert forall|i: int, j: int| 0 <= i < j < rest.len() implies rest[i] != rest[j] by {
                assert(rest[i] == batch[i + 1]);
                assert(rest[j] == batch[j + 1]);
            }
        }
        assert forall|i: int| 0 <= i < rest.len() implies !s.push(b0).contains(#[trigger] rest[i]) by {
            assert(rest[i] == batch[i + 1]);
            assert(batch[0] != batch[i + 1]);
        }
        lemma_ns_absorb_len_all_new(s.push(b0), rest);
    }
}

} // verus!
