//! The overlay bootstrap workflow and the resolve protocol around it.
//!
//! Resolving an overlay looks the key up in the registry; on a hit the
//! resident handle is shared with no work done. On a miss the caller
//! submits the key to the single-flight coordinator: one caller runs the
//! bootstrap workflow, everyone else awaits it. The workflow seeds a
//! neighbour set from one round of peer discovery, builds the candidate
//! session handle and publishes it create-or-discard; whichever instance
//! the registry then holds is what every caller — the runner, each
//! waiter, and every later resolution — observes. A caller whose own
//! candidate lost the publish race re-checks the cache and finds the
//! winner there, so every resolution makes progress.

use vstd::prelude::*;
use crate::ids::OverlayShortId;
use crate::peers::{PeerId, NeighbourSet};
use crate::discovery::ns_absorb;
use crate::registry::{Registry, PublishOutcome, publish_effect};
use crate::single_flight::{SingleFlight, SubmitRole, submit_role, after_submits};

verus! {

/// The session handle for one overlay: its identity, and the neighbour
/// set the maintenance loops keep alive. The transport-overlay and
/// reliable-datagram references the full handle bundles belong to the
/// runtime that drives this library. `instance` tells separately built
/// candidates apart: it stands for the allocation identity under which
/// the handle is shared.
pub struct SessionHandle {
    pub overlay_id: OverlayShortId,
    pub instance: u64,
    pub neighbours: NeighbourSet,
}

impl SessionHandle {
    /// The identifier is well formed and no neighbour is tracked twice.
    pub open spec fn wf(&self) -> bool {
        self.overlay_id.wf() && self.neighbours.wf()
    }
}

/// How the bootstrap workflow ended: this caller's candidate handle is
/// now the resident one, or a concurrently published instance superseded
/// it and the candidate was discarded whole.
pub enum BootstrapOutcome {
    Published(SessionHandle),
    Superseded(u64),
}

/// The closing steps of the bootstrap workflow: seed a neighbour set
/// with the peers one discovery round introduced — zero peers found is
/// not an error — build the candidate handle, and publish it through the
/// registry's create-or-discard protocol. If the slot was still empty
/// the candidate, seeded with exactly the discovered peers, is returned
/// as resident; otherwise the candidate is discarded and the resident
/// instance reported, so the caller converges on the published handle.
pub fn bootstrap_publish(
    reg: &mut Registry,
    id: &OverlayShortId,
    fresh: &Vec<PeerId>,
    quota: usize,
    instance: u64,
) -> (r: BootstrapOutcome)
    requires
        old(reg).wf(),
        id.wf(),
    ensures
        final(reg).wf(),
        final(reg)@ == publish_effect(old(reg)@, id@, instance),
        old(reg)@.contains_key(id@) ==> (r matches BootstrapOutcome::Superseded(u) && u == old(
            reg,
        )@[id@]),
        !old(reg)@.contains_key(id@) ==> (r matches BootstrapOutcome::Published(h) && h.instance
            == instance && h.overlay_id@ == id@ && h.neighbours@ == ns_absorb(
            Seq::<PeerId>::empty(),
            fresh@,
        ) && h.neighbours.spec_quota() == quota && h.wf()),
{
    let mut neighbours = NeighbourSet::new(quota);
    crate::discovery::update_peers(&mut neighbours, fresh);
    match reg.publish(id, instance) {
        PublishOutcome::Created => BootstrapOutcome::Published(
            SessionHandle { overlay_id: id.duplicate(), instance, neighbours },
        ),
        PublishOutcome::Discarded(resident) => BootstrapOutcome::Superseded(resident),
    }
}

/// What a resolution does next.
#[derive(PartialEq, Eq, Structural, Clone, Copy, Debug)]
pub enum ResolveDecision {
    /// Cache hit: share the resident instance, with no work performed.
    UseResident(u64),
    /// Cache miss and nothing in flight: run the bootstrap workflow.
    RunBootstrap,
    /// Cache miss with a bootstrap in flight: await its outcome, then
    /// re-check the cache.
    AwaitInFlight,
}

/// One decision of the resolve retry loop, from what a caller observes:
/// the cache's answer for the key and whether a bootstrap for it is in
/// flight. A hit is used as it is; a miss awaits the in-flight work or,
/// when there is none, runs the bootstrap itself.
pub fn resolve_decision(cache_hit: Option<u64>, in_flight: bool) -> (d: ResolveDecision)
    ensures
        cache_hit matches Some(resident) ==> d == ResolveDecision::UseResident(resident),
        cache_hit is None && in_flight ==> d == ResolveDecision::AwaitInFlight,
        cache_hit is None && !in_flight ==> d == ResolveDecision::RunBootstrap,
{
    match cache_hit {
        Some(resident) => ResolveDecision::UseResident(resident),
        None => {
            if in_flight {
                ResolveDecision::AwaitInFlight
            } else {
                ResolveDecision::RunBootstrap
            }
        },
    }
}

/// One decision of the resolve retry loop, from the registry and the
/// single-flight coordinator as this caller observes them.
pub fn resolve_step(reg: &Registry, sf: &SingleFlight, id: &OverlayShortId) -> (d: ResolveDecision)
    requires
        reg.wf(),
    ensures
        reg@.contains_key(id@) ==> d == ResolveDecision::UseResident(reg@[id@]),
        !reg@.contains_key(id@) && sf.spec_running().contains(id@) ==> d
            == ResolveDecision::AwaitInFlight,
        !reg@.contains_key(id@) && !sf.spec_running().contains(id@) ==> d
            == ResolveDecision::RunBootstrap,
{
    resolve_decision(reg.lookup(id), sf.is_running(id))
}

/// Concurrent resolutions of one overlay converge on one bootstrap and
/// one handle: while the key is in flight, however many callers submit
/// it, only the first is the runner; and once the runner has published
/// instance `instance` into the empty slot, that instance is what the
/// key resolves to — unchanged by any later publication, for this
/// overlay or any other.
pub proof fn lemma_resolve_converges(
    running: Set<Seq<u8>>,
    m: Map<Seq<u8>, u64>,
    key: Seq<u8>,
    instance: u64,
    n: nat,
    later_key: Seq<u8>,
    later_candidate: u64,
)
    requires
        !running.contains(key),
        n >= 1,
        !m.contains_key(key),
    ensures
        submit_role(running, key) == SubmitRole::Runner,
        submit_role(after_submits(running, key, n), key) == SubmitRole::Waiter,
        publish_effect(m, key, instance).contains_key(key),
        publish_effect(m, key, instance)[key] == instance,
        publish_effect(publish_effect(m, key, instance), later_key, later_candidate)[key]
            == instance,
{
    crate::single_flight::lemma_one_runner(running, key, n);
    crate::registry::lemma_resident_permanent(
        publish_effect(m, key, instance),
        key,
        later_key,
        later_candidate,
    );
}

} // verus!
