//! The overlay registry: a race-safe cache from overlay short identifier
//! to the identity of the published session handle.
//!
//! Publication follows a create-or-discard protocol: an insert claims the
//! slot only if it is still empty; a candidate that arrives second is
//! discarded whole and the resident value is returned. An existing entry
//! is never updated — a handle, once published, stands for the life of
//! the process — so any report of an update would be an internal
//! consistency violation.

use vstd::prelude::*;
use crate::ids::OverlayShortId;

verus! {

/// What publication did with the candidate: claimed the empty slot, or
/// discarded the candidate in favour of the already resident instance.
#[derive(PartialEq, Eq, Structural, Clone, Copy, Debug)]
pub enum PublishOutcome {
    /// The slot was empty; the candidate is now resident.
    Created,
    /// Another instance was already resident; it is returned and the
    /// candidate is fully discarded.
    Discarded(u64),
}

/// The cache after one publication: the candidate claims the slot only
/// if the key is still absent.
pub open spec fn publish_effect(m: Map<Seq<u8>, u64>, key: Seq<u8>, candidate: u64) -> Map<
    Seq<u8>,
    u64,
> {
    if m.contains_key(key) {
        m
    } else {
        m.insert(key, candidate)
    }
}

/// The outcome a publication reports for the given cache state.
pub open spec fn publish_outcome_spec(m: Map<Seq<u8>, u64>, key: Seq<u8>, candidate: u64) -> PublishOutcome {
    if m.contains_key(key) {
        PublishOutcome::Discarded(m[key])
    } else {
        PublishOutcome::Created
    }
}

struct RegistryEntry {
    key: OverlayShortId,
    instance: u64,
}

/// The registry cache. Its view is the map from overlay key to the
/// resident session-handle instance.
pub struct Registry {
    entries: Vec<RegistryEntry>,
}

spec fn entries_map(s: Seq<RegistryEntry>) -> Map<Seq<u8>, u64>
    decreases s.len(),
{
    if s.len() == 0 {
        Map::empty()
    } else {
        entries_map(s.drop_last()).insert(s.last().key@, s.last().instance)
    }
}

spec fn keys_distinct(s: Seq<RegistryEntry>) -> bool {
    forall|i: int, j: int| 0 <= i < j < s.len() ==> (#[trigger] s[i]).key@ != (#[trigger] s[j]).key@
}

proof fn lemma_entries_map_domain(s: Seq<RegistryEntry>, k: Seq<u8>)
    ensures
        entries_map(s).contains_key(k) <==> exists|i: int|
            0 <= i < s.len() && (#[trigger] s[i]).key@ == k,
    decreases s.len(),
{
    if s.len() > 0 {
        lemma_entries_map_domain(s.drop_last(), k);
        let last = s.len() - 1;
        if s[last].key@ == k {
            assert((#[trigger] s[last]).key@ == k);
        }
        if exists|i: int| 0 <= i < s.len() && (#[trigger] s[i]).key@ == k {
            let i = choose|i: int| 0 <= i < s.len() && (#[trigger] s[i]).key@ == k;
            if i < last {
                assert(s.drop_last()[i] == s[i]);
            }
        }
        if exists|i: int| 0 <= i < s.drop_last().len() && (#[trigger] s.drop_last()[i]).key@ == k {
            let i = choose|i: int|
                0 <= i < s.drop_last().len() && (#[trigger] s.drop_last()[i]).key@ == k;
            assert(s[i] == s.drop_last()[i]);
        }
    }
}

proof fn lemma_entries_map_index(s: Seq<RegistryEntry>, i: int)
    requires
        keys_distinct(s),
        0 <= i < s.len(),
    ensures
        entries_map(s).contains_key(s[i].key@),
        entries_map(s)[s[i].key@] == s[i].instance,
    decreases s.len(),
{
    let last = s.len() - 1;
    if i == last {
    } else {
        assert(s.drop_last()[i] == s[i]);
        assert(keys_distinct(s.drop_last())) by {
            assert(forall|a: int, b: int|
                0 <= a < b < s.drop_last().len() ==> s.drop_last()[a] == s[a] && s.drop_last()[b]
                    == s[b]);
        }
        lemma_entries_map_index(s.drop_last(), i);
        assert(s[i].key@ != s[last].key@);
    }
}

impl View for Registry {
    type V = Map<Seq<u8>, u64>;

    closed spec fn view(&self) -> Map<Seq<u8>, u64> {
        entries_map(self.entries@)
    }
}

impl Registry {
    /// Every overlay key holds at most one entry.
    pub closed spec fn wf(&self) -> bool {
        keys_distinct(self.entries@)
    }

    /// An empty registry.
    pub fn new() -> (r: Registry)
        ensures
            r@ == Map::<Seq<u8>, u64>::empty(),
            r.wf(),
    {
        Registry { entries: Vec::new() }
    }

    /// The resident instance for an overlay key, if one was published.
    /// A hit costs no work beyond the lookup itself.
    pub fn lookup(&self, key: &OverlayShortId) -> (r: Option<u64>)
        requires
            self.wf(),
        ensures
            self@.contains_key(key@) ==> r == Some(self@[key@]),
            !self@.contains_key(key@) ==> r is None,
    {
        let n = self.entries.len();
        let mut i: usize = 0;
        while i < n
            invariant
                n == self.entries@.len(),
                0 <= i <= n,
                self.wf(),
                forall|j: int| 0 <= j < i ==> (#[trigger] self.entries@[j]).key@ != key@,
            decreases n - i,
        {
            if self.entries[i].key.matches(key) {
                proof {
                    lemma_entries_map_index(self.entries@, i as int);
                }
                return Some(self.entries[i].instance);
            }
            i += 1;
        }
        proof {
            lemma_entries_map_domain(self.entries@, key@);
        }
        None
    }

    /// Atomic create-or-discard publication. If the slot for the key is
    /// empty, the candidate instance becomes resident and `Created` is
    /// reported; otherwise the cache is left exactly as it was, the
    /// candidate is discarded, and the resident instance is reported.
    /// No other key's entry changes, and no entry is ever updated.
    pub fn publish(&mut self, key: &OverlayShortId, candidate: u64) -> (o: PublishOutcome)
        requires
            old(self).wf(),
        ensures
            o == publish_outcome_spec(old(self)@, key@, candidate),
            final(self)@ == publish_effect(old(self)@, key@, candidate),
            final(self).wf(),
    {
        match self.lookup(key) {
            Some(resident) => PublishOutcome::Discarded(resident),
            None => {
                proof {
                    lemma_entries_map_domain(self.entries@, key@);
                }
                let entry = RegistryEntry { key: key.duplicate(), instance: candidate };
                self.entries.push(entry);
                proof {
                    let pre = old(self).entries@;
                    let post = self.entries@;
                    assert(post.drop_last() =~= pre);
                    assert(post.last().key@ == key@);
                    assert(keys_distinct(post)) by {
                        assert(forall|j: int| 0 <= j < pre.len() ==> post[j] == pre[j]);
                        assert(forall|j: int|
                            0 <= j < pre.len() ==> (#[trigger] pre[j]).key@ != key@);
                    }
                }
                PublishOutcome::Created
            },
        }
    }
}

/// One step of the insert-if-absent callback a concurrent cache recalls
/// under contention.
#[derive(PartialEq, Eq, Structural, Clone, Copy, Debug)]
pub enum CacheStep {
    /// Our own insert already landed: keep it.
    Keep,
    /// Another attempt inserted a value meanwhile: discard this one.
    Discard,
    /// The slot is empty: try to insert; under a race the callback is
    /// asked again.
    TryInsert,
}

/// The create-or-discard protocol as the concurrent cache's insertion
/// callback sees it: a pair updated by another attempt means this
/// candidate is discarded; a previous generation of our own value means
/// our insert landed and is kept; an empty slot is claimed. An update of
/// a resident entry is never produced.
pub fn publish_decision(prev_value_present: bool, updated_pair_present: bool) -> (s: CacheStep)
    ensures
        updated_pair_present ==> s == CacheStep::Discard,
        !updated_pair_present && prev_value_present ==> s == CacheStep::Keep,
        !updated_pair_present && !prev_value_present ==> s == CacheStep::TryInsert,
{
    if updated_pair_present {
        CacheStep::Discard
    } else if prev_value_present {
        CacheStep::Keep
    } else {
        CacheStep::TryInsert
    }
}

/// Publication is race-commutative: of two candidates built concurrently
/// for the same overlay, whichever publishes first is the one ever
/// observable; the second publication discards its candidate, reports
/// the resident, and leaves every slot untouched. A candidate resident
/// nowhere before losing the race is resident nowhere after it.
pub proof fn lemma_publish_race_commutative(
    m: Map<Seq<u8>, u64>,
    key: Seq<u8>,
    a: u64,
    b: u64,
)
    requires
        !m.contains_key(key),
    ensures
        publish_effect(publish_effect(m, key, a), key, b) == publish_effect(m, key, a),
        publish_outcome_spec(publish_effect(m, key, a), key, b) == PublishOutcome::Discarded(a),
        (a != b && forall|k: Seq<u8>| m.contains_key(k) ==> m[k] != b) ==> forall|k: Seq<u8>|
            #[trigger] publish_effect(publish_effect(m, key, a), key, b).contains_key(k)
                ==> publish_effect(publish_effect(m, key, a), key, b)[k] != b,
{
}

/// A resident entry is permanent: no later publication, for this overlay
/// or any other, changes which instance a key resolves to. Every caller
/// that ever resolves the key therefore observes the same handle.
pub proof fn lemma_resident_permanent(
    m: Map<Seq<u8>, u64>,
    k: Seq<u8>,
    key: Seq<u8>,
    candidate: u64,
)
    requires
        m.contains_key(k),
    ensures
        publish_effect(m, key, candidate).contains_key(k),
        publish_effect(m, key, candidate)[k] == m[k],
{
}

/// Registry slots are independent: publishing under one overlay key
/// neither creates nor changes the entry of another.
pub proof fn lemma_registry_independence(
    m: Map<Seq<u8>, u64>,
    a: Seq<u8>,
    b: Seq<u8>,
    candidate: u64,
)
    requires
        a != b,
    ensures
        publish_effect(m, a, candidate).contains_key(b) == m.contains_key(b),
        m.contains_key(b) ==> publish_effect(m, a, candidate)[b] == m[b],
{
}

} // verus!
