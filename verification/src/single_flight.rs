//! Single-flight coordination of bootstrap work.
//!
//! At most one bootstrap computation may be in flight per overlay key.
//! The first caller to submit a key becomes the runner and executes the
//! work; every caller that submits while the key is in flight becomes a
//! waiter and only awaits the outcome. Completion clears the key, and
//! the coordinator keeps every key independent of every other.
//!
//! Cancellation policy: a waiter that abandons its wait must not cancel
//! the running computation, since other waiters may still depend on it.
//! The runner's work is therefore cleared only by `complete`, never by a
//! waiter going away.

use vstd::prelude::*;
use crate::ids::OverlayShortId;

verus! {

/// What a submission made this caller: the one runner of the work, or
/// one of any number of waiters for the runner's outcome.
#[derive(PartialEq, Eq, Structural, Clone, Copy, Debug)]
pub enum SubmitRole {
    Runner,
    Waiter,
}

/// The role a submission gets when these keys are in flight.
pub open spec fn submit_role(running: Set<Seq<u8>>, key: Seq<u8>) -> SubmitRole {
    if running.contains(key) {
        SubmitRole::Waiter
    } else {
        SubmitRole::Runner
    }
}

/// The in-flight keys after one submission.
pub open spec fn after_submit(running: Set<Seq<u8>>, key: Seq<u8>) -> Set<Seq<u8>> {
    running.insert(key)
}

/// The in-flight keys after the work for one key completes.
pub open spec fn after_complete(running: Set<Seq<u8>>, key: Seq<u8>) -> Set<Seq<u8>> {
    running.remove(key)
}

/// The in-flight keys after `n` submissions of the same key.
pub open spec fn after_submits(running: Set<Seq<u8>>, key: Seq<u8>, n: nat) -> Set<Seq<u8>>
    decreases n,
{
    if n == 0 {
        running
    } else {
        after_submit(after_submits(running, key, (n - 1) as nat), key)
    }
}

/// The single-flight coordinator: which overlay keys currently have a
/// bootstrap computation in flight.
pub struct SingleFlight {
    running: Vec<OverlayShortId>,
}

impl SingleFlight {
    /// No key is recorded as in flight twice.
    pub closed spec fn wf(&self) -> bool {
        forall|i: int, j: int|
            0 <= i < j < self.running@.len() ==> self.running@[i]@ != self.running@[j]@
    }

    /// The set of keys whose bootstrap is currently in flight.
    pub closed spec fn spec_running(&self) -> Set<Seq<u8>> {
        Set::new(
            |k: Seq<u8>|
                exists|i: int| 0 <= i < self.running@.len() && (#[trigger] self.running@[i])@ == k,
        )
    }

    /// A coordinator with no work in flight.
    pub fn new() -> (r: SingleFlight)
        ensures
            r.spec_running() == Set::<Seq<u8>>::empty(),
            r.wf(),
    {
        let r = SingleFlight { running: Vec::new() };
        proof {
            assert(r.spec_running() =~= Set::<Seq<u8>>::empty());
        }
        r
    }

    /// Whether a bootstrap for this key is in flight.
    pub fn is_running(&self, key: &OverlayShortId) -> (r: bool)
        ensures
            r == self.spec_running().contains(key@),
    {
        let n = self.running.len();
        let mut i: usize = 0;
        while i < n
            invariant
                n == self.running@.len(),
                0 <= i <= n,
                forall|j: int| 0 <= j < i ==> (#[trigger] self.running@[j])@ != key@,
            decreases n - i,
        {
            if self.running[i].matches(key) {
                assert(self.spec_running().contains(key@));
                return true;
            }
            i += 1;
        }
        assert(!self.spec_running().contains(key@));
        false
    }

    /// Submits a key. The caller becomes the runner exactly when no work
    /// for the key was in flight; afterwards the key is in flight either
    /// way. No other key's status changes.
    pub fn submit(&mut self, key: &OverlayShortId) -> (role: SubmitRole)
        requires
            old(self).wf(),
        ensures
            role == submit_role(old(self).spec_running(), key@),
            final(self).spec_running() == after_submit(old(self).spec_running(), key@),
            final(self).wf(),
    {
        if self.is_running(key) {
            proof {
                assert(final(self).spec_running() =~= after_submit(old(self).spec_running(), key@));
            }
            SubmitRole::Waiter
        } else {
            self.running.push(key.duplicate());
            proof {
                let pre = old(self).running@;
                let post = self.running@;
                assert(post.len() == pre.len() + 1);
                assert(forall|j: int| 0 <= j < pre.len() ==> post[j] == pre[j]);
                assert(post[pre.len() as int]@ == key@);
                assert(self.spec_running() =~= after_submit(old(self).spec_running(), key@));
            }
            SubmitRole::Runner
        }
    }

    /// Records that the bootstrap for this key finished, successfully or
    /// not: the key is no longer in flight and a later submission will
    /// run again. No other key's status changes.
    pub fn complete(&mut self, key: &OverlayShortId)
        requires
            old(self).wf(),
        ensures
            final(self).spec_running() == after_complete(old(self).spec_running(), key@),
            final(self).wf(),
    {
        let n = self.running.len();
        let mut i: usize = 0;
        while i < n
            invariant
                n == self.running@.len(),
                0 <= i <= n,
                *self == *old(self),
                self.wf(),
                forall|j: int| 0 <= j < i ==> (#[trigger] self.running@[j])@ != key@,
            decreases n - i,
        {
            if self.running[i].matches(key) {
                self.running.remove(i);
                proof {
                    let pre = old(self).running@;
                    let post = self.running@;
                    assert(post =~= pre.subrange(0, i as int) + pre.subrange(
                        i + 1,
                        pre.len() as int,
                    ));
                    assert forall|a: int, b: int|
                        0 <= a < b < post.len() implies post[a]@ != post[b]@ by {
                        let pa: int = if a < i { a } else { a + 1 };
                        let pb: int = if b < i { b } else { b + 1 };
                        assert(post[a] == pre[pa]);
                        assert(post[b] == pre[pb]);
                    }
                    assert forall|k: Seq<u8>|
                        self.spec_running().contains(k) implies (old(self).spec_running().contains(
                        k,
                    ) && k != key@) by {
                        let j = choose|j: int|
                            0 <= j < post.len() && (#[trigger] post[j])@ == k;
                        let pj: int = if j < i { j } else { j + 1 };
                        assert(post[j] == pre[pj]);
                        assert(pre[pj]@ == k);
                        if pj != i {
                            assert(pre[pj]@ != pre[i as int]@);
                        }
                    }
                    assert forall|k: Seq<u8>|
                        old(self).spec_running().contains(k) && k != key@ implies self
                        .spec_running()
                        .contains(k) by {
                        let pj = choose|pj: int|
                            0 <= pj < pre.len() && (#[trigger] pre[pj])@ == k;
                        assert(pj != i);
                        let j: int = if pj < i { pj } else { pj - 1 };
                        assert(post[j] == pre[pj]);
                    }
                    assert(self.spec_running() =~= after_complete(
                        old(self).spec_running(),
                        key@,
                    ));
                }
                return ;
            }
            i += 1;
        }
        proof {
            assert(!old(self).spec_running().contains(key@));
            assert(self.spec_running() =~= after_complete(old(self).spec_running(), key@));
        }
    }
}

/// Of `n` submissions of one key with no completion in between, only the
/// first is the runner: the key is in flight from then on, every later
/// submission becomes a waiter, and the set of in-flight keys is the
/// same as after the first submission alone.
pub proof fn lemma_one_runner(running: Set<Seq<u8>>, key: Seq<u8>, n: nat)
    requires
        !running.contains(key),
        n >= 1,
    ensures
        submit_role(running, key) == SubmitRole::Runner,
        after_submits(running, key, n) == running.insert(key),
        submit_role(after_submits(running, key, n), key) == SubmitRole::Waiter,
    decreases n,
{
    if n == 1 {
    } else {
        lemma_one_runner(running, key, (n - 1) as nat);
        assert(running.insert(key).insert(key) =~= running.insert(key));
    }
}

/// Overlays are coordinated independently: submissions and completions
/// for one key neither change another key's in-flight status nor the
/// role another key's submission gets.
pub proof fn lemma_overlay_independence(running: Set<Seq<u8>>, a: Seq<u8>, b: Seq<u8>)
    requires
        a != b,
    ensures
        after_submit(running, a).contains(b) == running.contains(b),
        after_complete(running, a).contains(b) == running.contains(b),
        submit_role(after_submit(running, a), b) == submit_role(running, b),
        submit_role(after_complete(running, a), b) == submit_role(running, b),
{
}

} // verus!
