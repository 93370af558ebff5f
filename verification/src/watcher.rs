//! Per-instrument artifact tracking: idempotent admission of candidate
//! paths, the finalization tick over each tracked artifact, and the terminal
//! marks the orchestrator places after processing. The surrounding process
//! watches directories and stats files; every decision is made here.

use vstd::prelude::*;

use crate::config::{InstrumentConfig, WatcherConfig};
use crate::finalize::{
    advance, spec_is_valid_raw_file, spec_wf_obs, spec_wf_tracked, is_valid_raw_file, TickOutcome,
    VendorObservation,
};
use crate::types::{FinalizationState, TrackedFile};

verus! {

/// Some entry of the map has the given path.
pub open spec fn spec_has_path(entries: Seq<TrackedFile>, path: Seq<char>) -> bool {
    exists|i: int| 0 <= i < entries.len() && entries[i].path@ == path
}

/// Observer of one instrument's watch directory.
pub struct Watcher {
    /// The instrument observed.
    pub instrument: InstrumentConfig,
    /// Watcher timing configuration.
    pub config: WatcherConfig,
    /// The tracked artifacts, one entry per path.
    pub entries: Vec<TrackedFile>,
    /// Whether the watch path is a network share; change events are not
    /// trusted there and only polling is used.
    pub is_network_path: bool,
    /// Whether the watcher is running.
    pub running: bool,
}

/// A UNC path: it begins with two backslashes.
pub open spec fn spec_is_unc(path: Seq<char>) -> bool {
    path.len() >= 2 && path[0] == '\\' && path[1] == '\\'
}

/// Whether a watch path is a network share. Only the UNC prefix is decided
/// here; a mapped drive's type is a platform question answered outside the
/// library.
pub fn detect_network_path(path: &str) -> (r: bool)
    ensures
        r == spec_is_unc(path@),
{
    let len = path.unicode_len();
    len >= 2 && path.get_char(0) == '\\' && path.get_char(1) == '\\'
}

impl Watcher {
    /// The tracking map is well-formed: entries are well-formed and no two
    /// entries share a path.
    pub open spec fn wf(self) -> bool {
        &&& forall|i: int|
            0 <= i < self.entries@.len() ==> spec_wf_tracked(#[trigger] self.entries@[i])
        &&& forall|i: int, j: int|
            0 <= i < j < self.entries@.len() ==> (#[trigger] self.entries@[i]).path@ != (
            #[trigger] self.entries@[j]).path@
    }

    /// Build a watcher for an instrument. Nothing is tracked yet; the
    /// network-share decision is taken from the watch path's UNC prefix.
    pub fn new(instrument: InstrumentConfig, config: WatcherConfig) -> (r: Watcher)
        ensures
            r.wf(),
            r.entries@.len() == 0,
            r.instrument == instrument,
            r.config == config,
            r.is_network_path == spec_is_unc(instrument.watch_path@),
            !r.running,
    {
        let is_network_path = detect_network_path(instrument.watch_path.as_str());
        Watcher { instrument, config, entries: Vec::new(), is_network_path, running: false }
    }

    /// Begin observing.
    pub fn start(&mut self)
        ensures
            *final(self) == (Watcher { running: true, ..*old(self) }),
    {
        self.running = true;
    }

    /// Stop observing.
    pub fn stop(&mut self)
        ensures
            *final(self) == (Watcher { running: false, ..*old(self) }),
    {
        self.running = false;
    }

    /// The index of the entry tracking the given path.
    fn find(&self, path: &str) -> (r: Option<usize>)
        ensures
            match r {
                Some(i) => i < self.entries@.len() && self.entries@[i as int].path@ == path@,
                None => !spec_has_path(self.entries@, path@),
            },
    {
        let n = self.entries.len();
        let mut i: usize = 0;
        while i < n
            invariant
                i <= n,
                n == self.entries@.len(),
                forall|j: int| 0 <= j < i ==> (#[trigger] self.entries@[j]).path@ != path@,
            decreases n - i,
        {
            if crate::text::str_eq(self.entries[i].path.as_str(), path) {
                return Some(i);
            }
            i = i + 1;
        }
        None
    }

    /// Admit a candidate path. Admission is idempotent: a path already
    /// tracked leaves the map unchanged, however often it is offered. A new
    /// path enters tracking, in the `Detected` state with the observed
    /// snapshot, exactly when its extension and kind match the vendor's
    /// shape. Returns whether an entry was added.
    pub fn admit_path(
        &mut self,
        path: &str,
        is_file: bool,
        is_dir: bool,
        size: u64,
        modified: i64,
        now: i64,
    ) -> (r: bool)
        requires
            old(self).wf(),
            modified >= 0,
            now >= 0,
        ensures
            final(self).wf(),
            final(self).instrument == old(self).instrument,
            final(self).config == old(self).config,
            final(self).is_network_path == old(self).is_network_path,
            final(self).running == old(self).running,
            spec_has_path(old(self).entries@, path@) ==> *final(self) == *old(self) && !r,
            !spec_has_path(old(self).entries@, path@) && !spec_is_valid_raw_file(
                path@,
                is_file,
                is_dir,
                old(self).instrument.vendor,
            ) ==> *final(self) == *old(self) && !r,
            !spec_has_path(old(self).entries@, path@) && spec_is_valid_raw_file(
                path@,
                is_file,
                is_dir,
                old(self).instrument.vendor,
            ) ==> {
                &&& r
                &&& final(self).entries@.len() == old(self).entries@.len() + 1
                &&& final(self).entries@.subrange(0, old(self).entries@.len() as int) == old(self).entries@
                &&& final(self).entries@.last().path@ == path@
                &&& final(self).entries@.last().state is Detected
                &&& final(self).entries@.last().first_seen == now
                &&& final(self).entries@.last().last_size == size
                &&& final(self).entries@.last().last_modified == modified
                &&& final(self).entries@.last().stable_since is None
                &&& final(self).entries@.last().vendor == old(self).instrument.vendor
            },
    {
        match self.find(path) {
            Some(_) => false,
            None => {
                if !is_valid_raw_file(path, is_file, is_dir, self.instrument.vendor) {
                    return false;
                }
                let entry = TrackedFile {
                    path: path.to_owned(),
                    state: FinalizationState::Detected,
                    first_seen: now,
                    last_size: size,
                    last_modified: modified,
                    stable_since: None,
                    vendor: self.instrument.vendor,
                };
                self.entries.push(entry);
                proof {
                    assert(self.entries@.subrange(0, old(self).entries@.len() as int)
                        =~= old(self).entries@);
                    assert forall|i: int, j: int|
                        0 <= i < j < self.entries@.len() implies (#[trigger] self.entries@[i]).path@
                        != (#[trigger] self.entries@[j]).path@ by {
                        if j == self.entries@.len() - 1 {
                            assert(self.entries@[i] == old(self).entries@[i]);
                            assert(!(exists|k: int|
                                0 <= k < old(self).entries@.len() && old(self).entries@[k].path@
                                    == path@));
                        }
                    }
                }
                true
            },
        }
    }

    /// Mark an artifact done after successful processing. Only an artifact
    /// currently in `Processing` is affected; any other call is a no-op.
    pub fn mark_done(&mut self, path: &str)
        requires
            old(self).wf(),
        ensures
            final(self).wf(),
            spec_mark_outcome(old(self).entries@, final(self).entries@, path@,
                FinalizationState::Done),
            final(self).instrument == old(self).instrument,
            final(self).config == old(self).config,
            final(self).is_network_path == old(self).is_network_path,
            final(self).running == old(self).running,
    {
        self.mark(path, true)
    }

    /// Mark an artifact failed after a processing error. Only an artifact
    /// currently in `Processing` is affected; any other call is a no-op.
    pub fn mark_failed(&mut self, path: &str)
        requires
            old(self).wf(),
        ensures
            final(self).wf(),
            spec_mark_outcome(old(self).entries@, final(self).entries@, path@,
                FinalizationState::Failed),
            final(self).instrument == old(self).instrument,
            final(self).config == old(self).config,
            final(self).is_network_path == old(self).is_network_path,
            final(self).running == old(self).running,
    {
        self.mark(path, false)
    }

    fn mark(&mut self, path: &str, done: bool)
        requires
            old(self).wf(),
        ensures
            final(self).wf(),
            spec_mark_outcome(old(self).entries@, final(self).entries@, path@,
                if done {
                    FinalizationState::Done
                } else {
                    FinalizationState::Failed
                }),
            final(self).instrument == old(self).instrument,
            final(self).config == old(self).config,
            final(self).is_network_path == old(self).is_network_path,
            final(self).running == old(self).running,
    {
        let found = self.find(path);
        match found {
            Some(i) => {
                if matches!(self.entries[i].state, FinalizationState::Processing) {
                    let old_entry = &self.entries[i];
                    let entry = TrackedFile {
                        path: old_entry.path.clone(),
                        state: if done {
                            FinalizationState::Done
                        } else {
                            FinalizationState::Failed
                        },
                        first_seen: old_entry.first_seen,
                        last_size: old_entry.last_size,
                        last_modified: old_entry.last_modified,
                        stable_since: old_entry.stable_since,
                        vendor: old_entry.vendor,
                    };
                    self.entries.set(i, entry);
                    proof {
                        lemma_no_other_entry(old(self).entries@, path@, i as int);
                        let ch = choose|k: int|
                            0 <= k < old(self).entries@.len() && old(self).entries@[k].path@
                                == path@ && old(self).entries@[k].state is Processing;
                        assert(ch == i as int);
                        assert forall|a: int, b: int|
                            0 <= a < b < self.entries@.len() implies (
                        #[trigger] self.entries@[a]).path@ != (#[trigger] self.entries@[b]).path@
                            by {
                            assert(self.entries@[a].path@ == old(self).entries@[a].path@);
                            assert(self.entries@[b].path@ == old(self).entries@[b].path@);
                        }
                    }
                } else {
                    proof {
                        lemma_no_other_entry(self.entries@, path@, i as int);
                    }
                }
            },
            None => {},
        }
    }

    /// One finalization tick for the tracked artifact at index `i`, with the
    /// disk observation and the exclusive-open probe result. An already
    /// terminal entry is dropped from tracking and `Remove` returned; any
    /// other entry becomes exactly what the finalization state machine
    /// yields for it, and the outcome is exactly what that tick reports.
    pub fn step_file(
        &mut self,
        i: usize,
        now: i64,
        obs: &VendorObservation,
        can_open_exclusively: bool,
    ) -> (r: TickOutcome)
        requires
            old(self).wf(),
            i < old(self).entries@.len(),
            spec_wf_obs(*obs),
            now >= 0,
        ensures
            final(self).wf(),
            final(self).instrument == old(self).instrument,
            final(self).config == old(self).config,
            final(self).is_network_path == old(self).is_network_path,
            final(self).running == old(self).running,
            crate::finalize::spec_tick_outcome_is(
                old(self).entries@[i as int],
                now,
                *obs,
                can_open_exclusively,
                old(self).config,
                r,
            ),
            r is Remove <==> (old(self).entries@[i as int].state is Done || old(self).entries@[i as int].state is Failed),
            r is Remove ==> final(self).entries@ == old(self).entries@.remove(i as int),
            !(r is Remove) ==> final(self).entries@ == old(self).entries@.update(
                i as int,
                crate::finalize::spec_advance(
                    old(self).entries@[i as int],
                    now,
                    *obs,
                    can_open_exclusively,
                    old(self).config,
                ),
            ),
    {
        let terminal = matches!(
            self.entries[i].state,
            FinalizationState::Done | FinalizationState::Failed,
        );
        if terminal {
            let _ = self.entries.remove(i);
            proof {
                assert forall|a: int, b: int|
                    0 <= a < b < self.entries@.len() implies (#[trigger] self.entries@[a]).path@
                    != (#[trigger] self.entries@[b]).path@ by {
                    let oa: int = if a < i as int { a } else { a + 1 };
                    let ob: int = if b < i as int { b } else { b + 1 };
                    assert(self.entries@[a] == old(self).entries@[oa]);
                    assert(self.entries@[b] == old(self).entries@[ob]);
                }
                assert forall|a: int|
                    0 <= a < self.entries@.len() implies spec_wf_tracked(
                    #[trigger] self.entries@[a],
                ) by {
                    let oa: int = if a < i as int { a } else { a + 1 };
                    assert(self.entries@[a] == old(self).entries@[oa]);
                }
            }
            return TickOutcome::Remove;
        }
        let mut entry = self.entries[i].clone_entry();
        let outcome = advance(&mut entry, now, obs, can_open_exclusively, &self.config);
        self.entries.set(i, entry);
        proof {
            assert(final(self).entries@ =~= old(self).entries@.update(
                i as int,
                final(self).entries@[i as int],
            ));
            assert forall|a: int, b: int|
                0 <= a < b < self.entries@.len() implies (#[trigger] self.entries@[a]).path@ != (
            #[trigger] self.entries@[b]).path@ by {
                assert(self.entries@[a].path@ == old(self).entries@[a].path@);
                assert(self.entries@[b].path@ == old(self).entries@[b].path@);
            }
        }
        outcome
    }

    /// The paths currently tracked, in tracking order.
    pub fn tracked_paths(&self) -> (r: Vec<String>)
        ensures
            r@.len() == self.entries@.len(),
            forall|i: int| 0 <= i < r@.len() ==> (#[trigger] r@[i])@ == self.entries@[i].path@,
    {
        let n = self.entries.len();
        let mut out: Vec<String> = Vec::new();
        let mut i: usize = 0;
        while i < n
            invariant
                i <= n,
                n == self.entries@.len(),
                out@.len() == i,
                forall|j: int| 0 <= j < i ==> (#[trigger] out@[j])@ == self.entries@[j].path@,
            decreases n - i,
        {
            out.push(self.entries[i].path.clone());
            i = i + 1;
        }
        out
    }
}

/// What a terminal mark does to the tracking map: exactly the entry with the
/// given path, and only when it is in `Processing`, moves to the terminal
/// state; everything else stays as it was.
pub open spec fn spec_mark_outcome(
    before: Seq<TrackedFile>,
    after: Seq<TrackedFile>,
    path: Seq<char>,
    terminal: FinalizationState,
) -> bool {
    if exists|i: int|
        0 <= i < before.len() && before[i].path@ == path && before[i].state
            is Processing {
        let i = choose|i: int|
            0 <= i < before.len() && before[i].path@ == path && before[i].state is Processing;
        after == before.update(
            i,
            TrackedFile {
                state: terminal,
                path: before[i].path,
                first_seen: before[i].first_seen,
                last_size: before[i].last_size,
                last_modified: before[i].last_modified,
                stable_since: before[i].stable_since,
                vendor: before[i].vendor,
            },
        )
    } else {
        after == before
    }
}

/// In a well-formed map, no second entry can carry the path of entry `i`.
proof fn lemma_no_other_entry(entries: Seq<TrackedFile>, path: Seq<char>, i: int)
    requires
        0 <= i < entries.len(),
        entries[i].path@ == path,
        forall|a: int, b: int|
            0 <= a < b < entries.len() ==> (#[trigger] entries[a]).path@ != (
            #[trigger] entries[b]).path@,
    ensures
        forall|j: int| 0 <= j < entries.len() && entries[j].path@ == path ==> j == i,
{
    assert forall|j: int| 0 <= j < entries.len() && entries[j].path@ == path implies j == i by {
        if j < i {
            assert(entries[j].path@ != entries[i].path@);
        }
        if i < j {
            assert(entries[i].path@ != entries[j].path@);
        }
    }
}

impl TrackedFile {
    /// Clone one tracked entry.
    pub fn clone_entry(&self) -> (r: TrackedFile)
        ensures
            r == *self,
    {
        TrackedFile {
            path: self.path.clone(),
            state: self.state,
            first_seen: self.first_seen,
            last_size: self.last_size,
            last_modified: self.last_modified,
            stable_since: self.stable_since,
            vendor: self.vendor,
        }
    }
}

/// Admission is idempotent at the map level: a well-formed map holds at most
/// one entry per path, so however often one path is admitted, a single entry
/// tracks it.
pub proof fn lemma_admission_idempotent(w: Watcher, path: Seq<char>, i: int, j: int)
    requires
        w.wf(),
        0 <= i < w.entries@.len(),
        0 <= j < w.entries@.len(),
        w.entries@[i].path@ == path,
        w.entries@[j].path@ == path,
    ensures
        i == j,
{
    if i < j {
        assert(w.entries@[i].path@ != w.entries@[j].path@);
    }
    if j < i {
        assert(w.entries@[j].path@ != w.entries@[i].path@);
    }
}

} // verus!
