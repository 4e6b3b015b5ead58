//! Daemon supervision: per-component exponential back-off, the health
//! registry, and the decision step a supervised restart loop takes after a
//! component run ends.

use vstd::prelude::*;

verus! {

/// Restart back-off state for one supervised component.
///
/// Both bounds are clamped to at least one second, and the cap to at least
/// the initial value. The sleep before restart `k` (counting failures from
/// zero) is `min(initial * 2^k, max)`.
pub struct Backoff {
    pub initial_secs: u64,
    pub max_secs: u64,
    pub current_secs: u64,
}

/// The back-off a continuously failing component sleeps before its
/// `k`-th restart: the initial value doubled `k` times, capped.
pub open spec fn backoff_at(initial: u64, max: u64, k: nat) -> int {
    vstd::math::min(initial * vstd::arithmetic::power2::pow2(k), max as int)
}

impl Backoff {
    /// Well-formed: bounds clamped and the current sleep between them.
    pub open spec fn wf(&self) -> bool {
        &&& 1 <= self.initial_secs <= self.max_secs
        &&& self.initial_secs <= self.current_secs <= self.max_secs
    }

    /// Build the back-off state from configured bounds: each is clamped to
    /// at least one second, and the cap up to the initial value.
    pub fn new(initial_raw: u64, max_raw: u64) -> (b: Backoff)
        ensures
            b.wf(),
            b.initial_secs == vstd::math::max(initial_raw as int, 1),
            b.max_secs == vstd::math::max(max_raw as int, b.initial_secs as int),
            b.current_secs == b.initial_secs,
    {
        let initial_secs = if initial_raw < 1 {
            1
        } else {
            initial_raw
        };
        let max_secs = if max_raw < initial_secs {
            initial_secs
        } else {
            max_raw
        };
        Backoff { initial_secs, max_secs, current_secs: initial_secs }
    }

    /// The sleep to take now, after a failure: the current back-off.
    /// Doubles the stored value for the next failure, saturating at the cap.
    pub fn next_sleep(&mut self) -> (sleep: u64)
        requires
            old(self).wf(),
        ensures
            final(self).wf(),
            sleep == old(self).current_secs,
            final(self).current_secs == vstd::math::min(
                2 * old(self).current_secs as int,
                old(self).max_secs as int,
            ),
            final(self).initial_secs == old(self).initial_secs,
            final(self).max_secs == old(self).max_secs,
    {
        let sleep = self.current_secs;
        if self.current_secs > self.max_secs / 2 {
            self.current_secs = self.max_secs;
        } else {
            self.current_secs = 2 * self.current_secs;
        }
        sleep
    }

    /// Reset after a clean (unexpected) exit: the next sleep is the
    /// initial back-off again.
    pub fn reset(&mut self)
        requires
            old(self).wf(),
        ensures
            final(self).wf(),
            final(self).current_secs == old(self).initial_secs,
            final(self).initial_secs == old(self).initial_secs,
            final(self).max_secs == old(self).max_secs,
    {
        self.current_secs = self.initial_secs;
    }
}

/// Back-off monotonicity: for a continuously failing component the
/// successive sleeps are `b, min(2b, M), min(4b, M), ...` — starting from a
/// state that has doubled `k` times, the sleep taken is `min(b * 2^k, M)`,
/// and the doubled successor state is the one for `k + 1`.
pub proof fn lemma_backoff_sequence(b: Backoff, k: nat)
    requires
        b.wf(),
        b.current_secs == backoff_at(b.initial_secs, b.max_secs, k),
    ensures
        vstd::math::min(2 * b.current_secs as int, b.max_secs as int) == backoff_at(
            b.initial_secs,
            b.max_secs,
            k + 1,
        ),
        backoff_at(b.initial_secs, b.max_secs, k) <= backoff_at(b.initial_secs, b.max_secs, k + 1),
        backoff_at(b.initial_secs, b.max_secs, k + 1) <= b.max_secs,
{
    vstd::arithmetic::power2::lemma_pow2_unfold(k + 1);
    let p = vstd::arithmetic::power2::pow2(k);
    vstd::arithmetic::power2::lemma_pow2_pos(k);
    assert(b.initial_secs * vstd::arithmetic::power2::pow2(k + 1) == 2 * (b.initial_secs * p))
        by (nonlinear_arith)
        requires
            vstd::arithmetic::power2::pow2(k + 1) == 2 * p,
    ;
    assert(b.initial_secs * p >= b.initial_secs) by (nonlinear_arith)
        requires
            p >= 1,
            b.initial_secs >= 1,
    ;
}

/// Health status of one component.
#[derive(Clone, Copy, Debug, PartialEq, Eq, Structural)]
pub enum HealthStatus {
    Healthy,
    Failing,
}

/// One component's record in the health registry.
#[derive(Clone, Debug)]
pub struct HealthEntry {
    pub name: String,
    pub status: HealthStatus,
    pub last_ok: u64,
    pub last_error: Option<String>,
    pub restart_count: u64,
}

/// Ghost model of a health entry.
pub struct HealthModel {
    pub status: HealthStatus,
    pub last_ok: u64,
    pub last_error: Option<Seq<char>>,
    pub restart_count: u64,
}

impl View for HealthEntry {
    type V = HealthModel;

    open spec fn view(&self) -> HealthModel {
        HealthModel {
            status: self.status,
            last_ok: self.last_ok,
            last_error: match &self.last_error {
                Some(e) => Some(e@),
                None => None,
            },
            restart_count: self.restart_count,
        }
    }
}

/// The process-wide health registry: one entry per component name.
pub struct HealthRegistry {
    pub entries: Vec<HealthEntry>,
}

impl HealthRegistry {
    /// The registry as a map from component name to entry model.
    pub open spec fn model(&self) -> Map<Seq<char>, HealthModel> {
        Map::new(
            |n: Seq<char>| exists|i: int| 0 <= i < self.entries@.len() && self.entries@[i].name@ == n,
            |n: Seq<char>|
                {
                    let i = choose|i: int|
                        0 <= i < self.entries@.len() && self.entries@[i].name@ == n;
                    self.entries@[i]@
                },
        )
    }

    /// Names are unique, so each component has one record.
    pub open spec fn wf(&self) -> bool {
        forall|i: int, j: int|
            0 <= i < j < self.entries@.len() ==> self.entries@[i].name@ != self.entries@[j].name@
    }

    /// An empty registry.
    pub fn new() -> (r: HealthRegistry)
        ensures
            r.wf(),
            r.model() =~= Map::<Seq<char>, HealthModel>::empty(),
    {
        let r = HealthRegistry { entries: Vec::new() };
        proof {
            assert(forall|n: Seq<char>| !r.model().dom().contains(n));
        }
        r
    }

    /// The position of the entry for `name`, if one exists.
    fn find(&self, name: &str) -> (r: Option<usize>)
        ensures
            match r {
                Some(i) => i < self.entries@.len() && self.entries@[i as int].name@ == name@,
                None => forall|i: int|
                    0 <= i < self.entries@.len() ==> (#[trigger] self.entries@[i]).name@ != name@,
            },
    {
        let n = self.entries.len();
        let mut i: usize = 0;
        while i < n
            invariant
                n == self.entries@.len(),
                i <= n,
                forall|j: int| 0 <= j < i ==> (#[trigger] self.entries@[j]).name@ != name@,
            decreases n - i,
        {
            if crate::strings::str_eq(self.entries[i].name.as_str(), name) {
                return Some(i);
            }
            i = i + 1;
        }
        None
    }

    /// Mark `name` healthy at time `now`: its status becomes `Ok` and its
    /// last-ok time `now`; error text and restart count are kept. A new
    /// component starts with zero restarts.
    pub fn mark_ok(&mut self, name: &str, now: u64)
        requires
            old(self).wf(),
        ensures
            final(self).wf(),
            final(self).model().dom() =~= old(self).model().dom().insert(name@),
            final(self).model()[name@].status == HealthStatus::Healthy,
            final(self).model()[name@].last_ok == now,
            final(self).model()[name@].restart_count == if old(self).model().dom().contains(name@) {
                old(self).model()[name@].restart_count
            } else {
                0
            },
            final(self).model()[name@].last_error == if old(self).model().dom().contains(name@) {
                old(self).model()[name@].last_error
            } else {
                None
            },
            forall|n: Seq<char>|
                old(self).model().dom().contains(n) && n != name@ ==> final(self).model()[n] == old(
                    self,
                ).model()[n],
    {
        let found = self.find(name);
        match found {
            Some(i) => {
                proof {
                    lemma_registry_entry(old(self), i as int);
                }
                let entry = HealthEntry {
                    name: self.entries[i].name.clone(),
                    status: HealthStatus::Healthy,
                    last_ok: now,
                    last_error: match &self.entries[i].last_error {
                        Some(e) => Some(e.clone()),
                        None => None,
                    },
                    restart_count: self.entries[i].restart_count,
                };
                let ghost prev = self.entries@;
                self.entries[i] = entry;
                proof {
                    lemma_registry_update(old(self), self, prev, i as int);
                }
            },
            None => {
                let entry = HealthEntry {
                    name: name.to_owned(),
                    status: HealthStatus::Healthy,
                    last_ok: now,
                    last_error: None,
                    restart_count: 0,
                };
                let ghost prev = self.entries@;
                self.entries.push(entry);
                proof {
                    lemma_registry_insert(old(self), self, prev);
                }
            },
        }
    }

    /// Mark `name` failed with `reason`: status becomes `Error` and the
    /// reason is recorded; last-ok time and restart count are kept.
    pub fn mark_error(&mut self, name: &str, reason: &str)
        requires
            old(self).wf(),
        ensures
            final(self).wf(),
            final(self).model().dom() =~= old(self).model().dom().insert(name@),
            final(self).model()[name@].status == HealthStatus::Failing,
            final(self).model()[name@].last_error == Some(reason@),
            final(self).model()[name@].restart_count == if old(self).model().dom().contains(name@) {
                old(self).model()[name@].restart_count
            } else {
                0
            },
            final(self).model()[name@].last_ok == if old(self).model().dom().contains(name@) {
                old(self).model()[name@].last_ok
            } else {
                0
            },
            forall|n: Seq<char>|
                old(self).model().dom().contains(n) && n != name@ ==> final(self).model()[n] == old(
                    self,
                ).model()[n],
    {
        let found = self.find(name);
        match found {
            Some(i) => {
                proof {
                    lemma_registry_entry(old(self), i as int);
                }
                let entry = HealthEntry {
                    name: self.entries[i].name.clone(),
                    status: HealthStatus::Failing,
                    last_ok: self.entries[i].last_ok,
                    last_error: Some(reason.to_owned()),
                    restart_count: self.entries[i].restart_count,
                };
                let ghost prev = self.entries@;
                self.entries[i] = entry;
                proof {
                    lemma_registry_update(old(self), self, prev, i as int);
                }
            },
            None => {
                let entry = HealthEntry {
                    name: name.to_owned(),
                    status: HealthStatus::Failing,
                    last_ok: 0,
                    last_error: Some(reason.to_owned()),
                    restart_count: 0,
                };
                let ghost prev = self.entries@;
                self.entries.push(entry);
                proof {
                    lemma_registry_insert(old(self), self, prev);
                }
            },
        }
    }

    /// Count one restart of `name`; saturates rather than wraps.
    pub fn bump_restart(&mut self, name: &str)
        requires
            old(self).wf(),
        ensures
            final(self).wf(),
            final(self).model().dom() =~= old(self).model().dom().insert(name@),
            old(self).model().dom().contains(name@) && old(self).model()[name@].restart_count
                < u64::MAX ==> final(self).model()[name@].restart_count == old(
                self,
            ).model()[name@].restart_count + 1,
            old(self).model().dom().contains(name@) ==> {
                &&& final(self).model()[name@].status == old(self).model()[name@].status
                &&& final(self).model()[name@].last_ok == old(self).model()[name@].last_ok
                &&& final(self).model()[name@].last_error == old(self).model()[name@].last_error
            },
            !old(self).model().dom().contains(name@) ==> final(self).model()[name@] == (HealthModel {
                status: HealthStatus::Failing,
                last_ok: 0,
                last_error: None,
                restart_count: 1,
            }),
            forall|n: Seq<char>|
                old(self).model().dom().contains(n) && n != name@ ==> final(self).model()[n] == old(
                    self,
                ).model()[n],
    {
        let found = self.find(name);
        match found {
            Some(i) => {
                proof {
                    lemma_registry_entry(old(self), i as int);
                }
                let prev_count = self.entries[i].restart_count;
                let entry = HealthEntry {
                    name: self.entries[i].name.clone(),
                    status: self.entries[i].status,
                    last_ok: self.entries[i].last_ok,
                    last_error: match &self.entries[i].last_error {
                        Some(e) => Some(e.clone()),
                        None => None,
                    },
                    restart_count: if prev_count < u64::MAX {
                        prev_count + 1
                    } else {
                        prev_count
                    },
                };
                let ghost prev = self.entries@;
                self.entries[i] = entry;
                proof {
                    lemma_registry_update(old(self), self, prev, i as int);
                }
            },
            None => {
                let entry = HealthEntry {
                    name: name.to_owned(),
                    status: HealthStatus::Failing,
                    last_ok: 0,
                    last_error: None,
                    restart_count: 1,
                };
                let ghost prev = self.entries@;
                self.entries.push(entry);
                proof {
                    lemma_registry_insert(old(self), self, prev);
                }
            },
        }
    }

    /// Read the entries, for a snapshot.
    pub fn entries_ref(&self) -> (r: &Vec<HealthEntry>)
        ensures
            r@ == self.entries@,
    {
        &self.entries
    }
}

/// In a well-formed registry, the model at an entry's name is that entry.
proof fn lemma_registry_entry(r: &HealthRegistry, i: int)
    requires
        r.wf(),
        0 <= i < r.entries@.len(),
    ensures
        r.model().dom().contains(r.entries@[i].name@),
        r.model()[r.entries@[i].name@] == r.entries@[i]@,
{
    let n = r.entries@[i].name@;
    assert(r.model().dom().contains(n));
    let j = choose|j: int| 0 <= j < r.entries@.len() && r.entries@[j].name@ == n;
    assert(j == i);
}

/// Updating one entry in place updates the model at exactly its name.
proof fn lemma_registry_update(
    before: &HealthRegistry,
    after: &HealthRegistry,
    prev: Seq<HealthEntry>,
    i: int,
)
    requires
        before.wf(),
        before.entries@ == prev,
        0 <= i < prev.len(),
        after.entries@.len() == prev.len(),
        after.entries@[i].name@ == prev[i].name@,
        forall|j: int| 0 <= j < prev.len() && j != i ==> after.entries@[j] == prev[j],
    ensures
        after.wf(),
        after.model().dom() =~= before.model().dom().insert(prev[i].name@),
        after.model()[prev[i].name@] == after.entries@[i]@,
        forall|n: Seq<char>|
            before.model().dom().contains(n) && n != prev[i].name@ ==> after.model()[n]
                == before.model()[n],
    decreases 0int,
{
    assert forall|j: int, k: int| 0 <= j < k < after.entries@.len() implies after.entries@[j].name@
        != after.entries@[k].name@ by {
        assert(prev[j].name@ != prev[k].name@);
        if j != i {
            assert(after.entries@[j] == prev[j]);
        }
        if k != i {
            assert(after.entries@[k] == prev[k]);
        }
    }
    lemma_registry_entry(after, i);
    assert(before.model().dom().contains(prev[i].name@)) by {
        lemma_registry_entry(before, i);
    }
    assert forall|n: Seq<char>|
        before.model().dom().contains(n) && n != prev[i].name@ implies after.model()[n]
        == before.model()[n] by {
        let j = choose|j: int| 0 <= j < prev.len() && prev[j].name@ == n;
        assert(after.entries@[j].name@ == n);
        lemma_registry_entry(before, j);
        lemma_registry_entry(after, j);
    }
    assert forall|n: Seq<char>| after.model().dom().contains(n) implies before.model().dom().insert(
        prev[i].name@,
    ).contains(n) by {
        let j = choose|j: int| 0 <= j < after.entries@.len() && after.entries@[j].name@ == n;
        if j != i {
            assert(prev[j].name@ == n);
        }
    }
}

/// Appending a fresh entry adds exactly its name to the model.
proof fn lemma_registry_insert(before: &HealthRegistry, after: &HealthRegistry, prev: Seq<
    HealthEntry,
>)
    requires
        before.wf(),
        before.entries@ == prev,
        after.entries@.len() == prev.len() + 1,
        forall|j: int| 0 <= j < prev.len() ==> after.entries@[j] == prev[j],
        forall|j: int|
            0 <= j < prev.len() ==> (#[trigger] prev[j]).name@ != after.entries@[prev.len() as int].name@,
    ensures
        after.wf(),
        after.model().dom() =~= before.model().dom().insert(
            after.entries@[prev.len() as int].name@,
        ),
        after.model()[after.entries@[prev.len() as int].name@]
            == after.entries@[prev.len() as int]@,
        forall|n: Seq<char>|
            before.model().dom().contains(n) && n != after.entries@[prev.len() as int].name@
                ==> after.model()[n] == before.model()[n],
{
    let newname = after.entries@[prev.len() as int].name@;
    assert forall|j: int, k: int| 0 <= j < k < after.entries@.len() implies after.entries@[j].name@
        != after.entries@[k].name@ by {
        if k < prev.len() {
            assert(after.entries@[j] == prev[j]);
            assert(after.entries@[k] == prev[k]);
            assert(prev[j].name@ != prev[k].name@);
        } else {
            assert(after.entries@[j] == prev[j]);
            assert(prev[j].name@ != newname);
        }
    }
    lemma_registry_entry(after, prev.len() as int);
    assert forall|n: Seq<char>|
        before.model().dom().contains(n) && n != newname implies after.model()[n]
        == before.model()[n] by {
        let j = choose|j: int| 0 <= j < prev.len() && prev[j].name@ == n;
        assert(after.entries@[j].name@ == n);
        lemma_registry_entry(before, j);
        lemma_registry_entry(after, j);
    }
    assert forall|n: Seq<char>| after.model().dom().contains(n) implies before.model().dom().insert(
        newname,
    ).contains(n) by {
        let j = choose|j: int| 0 <= j < after.entries@.len() && after.entries@[j].name@ == n;
        if j != prev.len() {
            assert(prev[j].name@ == n);
        }
    }
}

/// How one supervised run of a component ended.
pub enum RunOutcome {
    /// The component returned cleanly — components are not supposed to
    /// exit, so this too is recorded as an error.
    CleanExit,
    /// The component failed with a reason.
    Failed(String),
}

/// The decision step after one run of a supervised component: mark the
/// health registry, count the restart, and say how long to sleep before
/// the next run.
///
/// A clean exit resets the back-off to its initial value (the component
/// did run successfully); a failure lets it keep doubling, capped.
pub fn supervise_step(
    registry: &mut HealthRegistry,
    backoff: &mut Backoff,
    name: &str,
    outcome: RunOutcome,
) -> (sleep_secs: u64)
    requires
        old(registry).wf(),
        old(backoff).wf(),
    ensures
        final(registry).wf(),
        final(backoff).wf(),
        final(registry).model().dom() =~= old(registry).model().dom().insert(name@),
        final(registry).model()[name@].status == HealthStatus::Failing,
        outcome matches RunOutcome::Failed(reason) ==> final(registry).model()[name@].last_error
            == Some(reason@),
        outcome is CleanExit ==> final(registry).model()[name@].last_error == Some(
            "component exited unexpectedly"@,
        ),
        old(registry).model().dom().contains(name@) && old(
            registry,
        ).model()[name@].restart_count < u64::MAX ==> final(registry).model()[name@].restart_count
            == old(registry).model()[name@].restart_count + 1,
        forall|n: Seq<char>|
            old(registry).model().dom().contains(n) && n != name@ ==> final(registry).model()[n]
                == old(registry).model()[n],
        outcome is CleanExit ==> {
            &&& sleep_secs == old(backoff).initial_secs
            &&& final(backoff).current_secs == vstd::math::min(
                2 * old(backoff).initial_secs as int,
                old(backoff).max_secs as int,
            )
        },
        outcome matches RunOutcome::Failed(_) ==> {
            &&& sleep_secs == old(backoff).current_secs
            &&& final(backoff).current_secs == vstd::math::min(
                2 * old(backoff).current_secs as int,
                old(backoff).max_secs as int,
            )
        },
        final(backoff).initial_secs == old(backoff).initial_secs,
        final(backoff).max_secs == old(backoff).max_secs,
{
    match &outcome {
        RunOutcome::CleanExit => {
            registry.mark_error(name, "component exited unexpectedly");
            backoff.reset();
        },
        RunOutcome::Failed(reason) => {
            registry.mark_error(name, reason.as_str());
        },
    }
    registry.bump_restart(name);
    backoff.next_sleep()
}

} // verus!
