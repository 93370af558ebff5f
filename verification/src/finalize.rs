//! Artifact finalization: deciding when a raw artifact has stopped being
//! written. The decision logic is pure; the surrounding process hands in
//! what it observed on disk (sizes, modification times, member presence) and
//! performs the file operations the outcome asks for.

use vstd::prelude::*;

use crate::config::WatcherConfig;
use crate::text::{push_char, spec_u64_dec, u64_to_string};
use crate::types::{FinalizationState, TrackedFile, Vendor};

verus! {

/// A `Processing` artifact with no terminal call is failed after this long.
pub const PROCESSING_TIMEOUT_SECS: u64 = 1800;

/// Per-artifact state machine over the finalization states.
#[derive(Debug)]
pub struct Finalizer {
    pub state: FinalizationState,
}

impl Finalizer {
    /// A fresh artifact starts out detected.
    pub fn new() -> (r: Finalizer)
        ensures
            r.state is Detected,
    {
        Finalizer { state: FinalizationState::Detected }
    }

    /// The current state.
    pub fn state(&self) -> (r: FinalizationState)
        ensures
            r == self.state,
    {
        self.state
    }

    /// Force a transition.
    pub fn transition_to(&mut self, new_state: FinalizationState)
        ensures
            final(self).state == new_state,
    {
        self.state = new_state;
    }

    /// Whether the artifact has reached a terminal state.
    pub fn is_terminal(&self) -> (r: bool)
        ensures
            r == (self.state is Done || self.state is Failed),
    {
        matches!(self.state, FinalizationState::Done | FinalizationState::Failed)
    }
}

impl Default for Finalizer {
    fn default() -> (r: Finalizer)
        ensures
            r.state is Detected,
    {
        Finalizer::new()
    }
}

/// Size and modification time of one on-disk member, as observed.
/// The modification time is UTC seconds.
#[derive(Debug, Clone, Copy, PartialEq, Eq, Structural)]
pub struct MemberStat {
    pub size: u64,
    pub modified: i64,
}

/// What was observed on disk for one artifact, by vendor. A `None` member
/// was absent or unreadable.
#[derive(Debug, Clone)]
pub enum VendorObservation {
    /// A Thermo `.raw` file: the artifact itself.
    Thermo { file: Option<MemberStat> },
    /// A Bruker `.d` directory: `analysis.tdf` and its lock sentinels.
    Bruker { journal_exists: bool, lock_exists: bool, tdf: Option<MemberStat> },
    /// A Sciex `.wiff` file and its optional `.wiff.scan` sibling.
    Sciex { wiff: Option<MemberStat>, scan: Option<MemberStat> },
    /// A Waters `.raw` directory: `_FUNC001.DAT`, `_extern.inf`, `_LOCK_`.
    Waters { lock_exists: bool, func: Option<MemberStat>, extern_inf_exists: bool },
    /// An Agilent `.d` directory: `AcqData/` and `AcqData/MSScan.bin`.
    Agilent { acq_data_is_dir: bool, msscan: Option<MemberStat>, acq_data: Option<MemberStat> },
}

/// A well-formed member stat: the modification time is a non-negative
/// instant.
pub open spec fn spec_wf_stat(m: Option<MemberStat>) -> bool {
    match m {
        Option::Some(x) => x.modified >= 0,
        Option::None => true,
    }
}

/// A well-formed observation: every observed modification time is a
/// non-negative instant.
pub open spec fn spec_wf_obs(obs: VendorObservation) -> bool {
    match obs {
        VendorObservation::Thermo { file } => spec_wf_stat(file),
        VendorObservation::Bruker { tdf, .. } => spec_wf_stat(tdf),
        VendorObservation::Sciex { wiff, scan } => spec_wf_stat(wiff) && spec_wf_stat(scan),
        VendorObservation::Waters { func, .. } => spec_wf_stat(func),
        VendorObservation::Agilent { msscan, acq_data, .. } => spec_wf_stat(msscan)
            && spec_wf_stat(acq_data),
    }
}

/// The (size, modification time, completeness) an observation amounts to.
/// An absent or still-locked artifact reads as `(0, now, false)`.
pub open spec fn spec_check_file_state(obs: VendorObservation, now: i64) -> (u64, i64, bool) {
    match obs {
        VendorObservation::Thermo { file } => match file {
            Option::Some(m) => (m.size, m.modified, true),
            Option::None => (0u64, now, false),
        },
        VendorObservation::Bruker { journal_exists, lock_exists, tdf } => {
            if journal_exists || lock_exists {
                (0u64, now, false)
            } else {
                match tdf {
                    Option::Some(m) => (m.size, m.modified, true),
                    Option::None => (0u64, now, false),
                }
            }
        },
        VendorObservation::Sciex { wiff, scan } => match wiff {
            Option::Some(w) => match scan {
                Option::Some(sc) => (
                    if w.size + sc.size > u64::MAX {
                        u64::MAX
                    } else {
                        (w.size + sc.size) as u64
                    },
                    if sc.modified > w.modified {
                        sc.modified
                    } else {
                        w.modified
                    },
                    true,
                ),
                Option::None => (w.size, w.modified, true),
            },
            Option::None => (0u64, now, false),
        },
        VendorObservation::Waters { lock_exists, func, extern_inf_exists } => {
            if lock_exists {
                (0u64, now, false)
            } else {
                match func {
                    Option::Some(m) => (m.size, m.modified, extern_inf_exists),
                    Option::None => (0u64, now, false),
                }
            }
        },
        VendorObservation::Agilent { acq_data_is_dir, msscan, acq_data } => {
            if !acq_data_is_dir {
                (0u64, now, false)
            } else {
                match msscan {
                    Option::Some(m) => (m.size, m.modified, true),
                    Option::None => match acq_data {
                        Option::Some(m) => (m.size, m.modified, true),
                        Option::None => (0u64, now, false),
                    },
                }
            }
        },
    }
}

/// Evaluate an observation into (size, modification time, completeness),
/// per the vendor completeness rules: a present lock sentinel, or a missing
/// primary member, reads as incomplete with a zero size.
pub fn check_file_state(obs: &VendorObservation, now: i64) -> (r: (u64, i64, bool))
    ensures
        r == spec_check_file_state(*obs, now),
{
    match obs {
        VendorObservation::Thermo { file } => match file {
            Some(m) => (m.size, m.modified, true),
            None => (0u64, now, false),
        },
        VendorObservation::Bruker { journal_exists, lock_exists, tdf } => {
            if *journal_exists || *lock_exists {
                (0u64, now, false)
            } else {
                match tdf {
                    Some(m) => (m.size, m.modified, true),
                    None => (0u64, now, false),
                }
            }
        },
        VendorObservation::Sciex { wiff, scan } => match wiff {
            Some(w) => match scan {
                Some(sc) => {
                    let total = if w.size > u64::MAX - sc.size {
                        u64::MAX
                    } else {
                        w.size + sc.size
                    };
                    let latest = if sc.modified > w.modified {
                        sc.modified
                    } else {
                        w.modified
                    };
                    (total, latest, true)
                },
                None => (w.size, w.modified, true),
            },
            None => (0u64, now, false),
        },
        VendorObservation::Waters { lock_exists, func, extern_inf_exists } => {
            if *lock_exists {
                (0u64, now, false)
            } else {
                match func {
                    Some(m) => (m.size, m.modified, *extern_inf_exists),
                    None => (0u64, now, false),
                }
            }
        },
        VendorObservation::Agilent { acq_data_is_dir, msscan, acq_data } => {
            if !*acq_data_is_dir {
                (0u64, now, false)
            } else {
                match msscan {
                    Some(m) => (m.size, m.modified, true),
                    None => match acq_data {
                        Some(m) => (m.size, m.modified, true),
                        None => (0u64, now, false),
                    },
                }
            }
        },
    }
}

/// What one finalization tick asks the caller to do.
#[derive(Debug, Clone)]
pub enum TickOutcome {
    /// Nothing; keep tracking.
    Stay,
    /// The artifact just entered `Processing`: hand it to the orchestrator.
    StartProcessing,
    /// The artifact just failed on a timeout; carries the reason.
    TimedOut(String),
    /// The artifact was already terminal: drop it from tracking.
    Remove,
}

/// A well-formed tracked artifact: instants are non-negative, and an
/// artifact that got past stabilization remembers since when it was stable.
pub open spec fn spec_wf_tracked(f: TrackedFile) -> bool {
    &&& f.first_seen >= 0
    &&& f.last_modified >= 0
    &&& match f.stable_since {
        Option::Some(t) => t >= 0,
        Option::None => true,
    }
    &&& (f.state is Ready || f.state is Processing) ==> f.stable_since is Some
}

/// The reason string recorded on a stabilization timeout.
pub open spec fn spec_stabilization_timeout_reason(timeout: u64) -> Seq<char> {
    "stabilization timeout after "@ + spec_u64_dec(timeout as int) + " seconds"@
}

/// One finalization tick for one tracked artifact, at instant `now`, with
/// what was observed on disk and whether an exclusive open of the primary
/// member succeeded.
///
/// Detected artifacts begin stabilizing. A stabilizing artifact fails once
/// stabilization has taken longer than the configured timeout; otherwise its
/// snapshot is compared against the observation: a change resets stability,
/// an unchanged snapshot that has held for the stability window with the
/// The entry one finalization tick yields: the whole transition of the
/// per-artifact state machine, as a function of the entry, the instant, the
/// disk observation and the exclusive-open probe.
pub open spec fn spec_advance(
    pre: TrackedFile,
    now: i64,
    obs: VendorObservation,
    can_open_exclusively: bool,
    cfg: WatcherConfig,
) -> TrackedFile {
    match pre.state {
        FinalizationState::Detected => TrackedFile {
            state: FinalizationState::Stabilizing,
            ..pre
        },
        FinalizationState::Stabilizing => {
            if now - pre.first_seen > cfg.stabilization_timeout_seconds as int {
                TrackedFile { state: FinalizationState::Failed, ..pre }
            } else {
                let s = spec_check_file_state(obs, now);
                if s.0 == pre.last_size && s.1 == pre.last_modified {
                    let since = match pre.stable_since {
                        Option::Some(t) => t,
                        Option::None => now,
                    };
                    TrackedFile {
                        state: if now - since >= cfg.stability_window_seconds as int && s.2 {
                            FinalizationState::Ready
                        } else {
                            FinalizationState::Stabilizing
                        },
                        stable_since: Option::Some(since),
                        ..pre
                    }
                } else {
                    TrackedFile {
                        last_size: s.0,
                        last_modified: s.1,
                        stable_since: Option::None,
                        ..pre
                    }
                }
            }
        },
        FinalizationState::Ready => {
            if can_open_exclusively {
                TrackedFile {
                    state: FinalizationState::Processing,
                    stable_since: Option::Some(now),
                    ..pre
                }
            } else {
                pre
            }
        },
        FinalizationState::Processing => {
            let since = pre.stable_since->Some_0;
            if now - since > PROCESSING_TIMEOUT_SECS as int {
                TrackedFile { state: FinalizationState::Failed, ..pre }
            } else {
                pre
            }
        },
        FinalizationState::Done => pre,
        FinalizationState::Failed => pre,
    }
}

/// The outcome one finalization tick reports for an entry: removal exactly
/// of terminal entries, the processing hand-off exactly on a successful
/// probe of a ready entry, a timeout with its exact reason string, and
/// nothing otherwise.
pub open spec fn spec_tick_outcome_is(
    pre: TrackedFile,
    now: i64,
    obs: VendorObservation,
    can_open_exclusively: bool,
    cfg: WatcherConfig,
    r: TickOutcome,
) -> bool {
    match pre.state {
        FinalizationState::Detected => r is Stay,
        FinalizationState::Stabilizing => {
            if now - pre.first_seen > cfg.stabilization_timeout_seconds as int {
                r matches TickOutcome::TimedOut(reason) && reason@
                    == spec_stabilization_timeout_reason(cfg.stabilization_timeout_seconds)
            } else {
                r is Stay
            }
        },
        FinalizationState::Ready => {
            if can_open_exclusively {
                r is StartProcessing
            } else {
                r is Stay
            }
        },
        FinalizationState::Processing => {
            if now - pre.stable_since->Some_0 > PROCESSING_TIMEOUT_SECS as int {
                r matches TickOutcome::TimedOut(reason) && reason@
                    == "processing timeout after 30 minutes"@
            } else {
                r is Stay
            }
        },
        FinalizationState::Done => r is Remove,
        FinalizationState::Failed => r is Remove,
    }
}

/// vendor predicate complete makes the artifact ready. A ready artifact
/// enters processing when the exclusive open succeeds; the stable-since
/// instant is then re-anchored to the current tick, so it records when
/// processing began. A processing artifact with no terminal call fails once
/// the processing timeout has passed since that instant. Terminal artifacts
/// are dropped from tracking.
pub fn advance(
    file: &mut TrackedFile,
    now: i64,
    obs: &VendorObservation,
    can_open_exclusively: bool,
    cfg: &WatcherConfig,
) -> (r: TickOutcome)
    requires
        spec_wf_tracked(*old(file)),
        spec_wf_obs(*obs),
        now >= 0,
    ensures
        spec_wf_tracked(*final(file)),
        *final(file) == spec_advance(*old(file), now, *obs, can_open_exclusively, *cfg),
        spec_tick_outcome_is(*old(file), now, *obs, can_open_exclusively, *cfg, r),
        final(file).path == old(file).path,
        final(file).vendor == old(file).vendor,
        final(file).first_seen == old(file).first_seen,
        old(file).state is Detected ==> {
            &&& final(file).state is Stabilizing
            &&& final(file).last_size == old(file).last_size
            &&& final(file).last_modified == old(file).last_modified
            &&& final(file).stable_since == old(file).stable_since
            &&& r is Stay
        },
        old(file).state is Stabilizing ==> {
            if now - old(file).first_seen > cfg.stabilization_timeout_seconds as int {
                &&& final(file).state is Failed
                &&& (r matches TickOutcome::TimedOut(reason)
                    && reason@ == spec_stabilization_timeout_reason(
                    cfg.stabilization_timeout_seconds,
                ))
            } else {
                let (sz, mt, complete) = spec_check_file_state(*obs, now);
                if sz == old(file).last_size && mt == old(file).last_modified {
                    let since = match old(file).stable_since {
                        Option::Some(t) => t,
                        Option::None => now,
                    };
                    &&& final(file).stable_since == Option::Some(since)
                    &&& final(file).last_size == old(file).last_size
                    &&& final(file).last_modified == old(file).last_modified
                    &&& final(file).state == if now - since
                        >= cfg.stability_window_seconds as int && complete {
                        FinalizationState::Ready
                    } else {
                        FinalizationState::Stabilizing
                    }
                    &&& r is Stay
                } else {
                    &&& final(file).state is Stabilizing
                    &&& final(file).last_size == sz
                    &&& final(file).last_modified == mt
                    &&& final(file).stable_since is None
                    &&& r is Stay
                }
            }
        },
        old(file).state is Ready ==> {
            &&& final(file).last_size == old(file).last_size
            &&& final(file).last_modified == old(file).last_modified
            &&& if can_open_exclusively {
                // Entering processing re-anchors the instant, so the
                // processing timeout measures actual processing time.
                &&& final(file).state is Processing
                &&& final(file).stable_since == Option::Some(now)
                &&& r is StartProcessing
            } else {
                &&& final(file).state is Ready
                &&& final(file).stable_since == old(file).stable_since
                &&& r is Stay
            }
        },
        old(file).state is Processing ==> {
            let since = old(file).stable_since->Some_0;
            &&& final(file).last_size == old(file).last_size
            &&& final(file).last_modified == old(file).last_modified
            &&& final(file).stable_since == old(file).stable_since
            &&& if now - since > PROCESSING_TIMEOUT_SECS as int {
                final(file).state is Failed && (r matches TickOutcome::TimedOut(reason)
                    && reason@ == "processing timeout after 30 minutes"@)
            } else {
                final(file).state is Processing && r is Stay
            }
        },
        (old(file).state is Done || old(file).state is Failed) ==> *final(file) == *old(file)
            && r is Remove,
{
    match file.state {
        FinalizationState::Detected => {
            file.state = FinalizationState::Stabilizing;
            TickOutcome::Stay
        },
        FinalizationState::Stabilizing => {
            let elapsed = now - file.first_seen;
            if cfg.stabilization_timeout_seconds <= i64::MAX as u64 && elapsed
                > cfg.stabilization_timeout_seconds as i64 {
                file.state = FinalizationState::Failed;
                let reason = String::from_str("stabilization timeout after ");
                let reason = reason.concat(
                    u64_to_string(cfg.stabilization_timeout_seconds).as_str(),
                ).concat(" seconds");
                return TickOutcome::TimedOut(reason);
            }
            let (sz, mt, complete) = check_file_state(obs, now);
            if sz == file.last_size && mt == file.last_modified {
                let since = match file.stable_since {
                    Some(t) => t,
                    None => now,
                };
                file.stable_since = Some(since);
                let held = now - since;
                if cfg.stability_window_seconds <= i64::MAX as u64 && held
                    >= cfg.stability_window_seconds as i64 && complete {
                    file.state = FinalizationState::Ready;
                }
                TickOutcome::Stay
            } else {
                file.last_size = sz;
                file.last_modified = mt;
                file.stable_since = None;
                TickOutcome::Stay
            }
        },
        FinalizationState::Ready => {
            if can_open_exclusively {
                file.state = FinalizationState::Processing;
                file.stable_since = Some(now);
                TickOutcome::StartProcessing
            } else {
                TickOutcome::Stay
            }
        },
        FinalizationState::Processing => {
            let since = match file.stable_since {
                Some(t) => t,
                None => 0,
            };
            if now - since > PROCESSING_TIMEOUT_SECS as i64 {
                file.state = FinalizationState::Failed;
                TickOutcome::TimedOut(String::from_str("processing timeout after 30 minutes"))
            } else {
                TickOutcome::Stay
            }
        },
        FinalizationState::Done => TickOutcome::Remove,
        FinalizationState::Failed => TickOutcome::Remove,
    }
}

/// The path's extension equals the given one, ignoring ASCII case.
pub open spec fn spec_ext_is(path: Seq<char>, ext: Seq<char>) -> bool {
    match crate::text::spec_extension(path) {
        Option::Some(e) => crate::types::ci_seq_eq(e, ext),
        Option::None => false,
    }
}

/// The admission filter: the path's extension and on-disk kind (file or
/// directory) match the vendor's artifact shape.
pub open spec fn spec_is_valid_raw_file(
    path: Seq<char>,
    is_file: bool,
    is_dir: bool,
    vendor: Vendor,
) -> bool {
    match vendor {
        Vendor::Thermo => spec_ext_is(path, "raw"@) && is_file,
        Vendor::Bruker => spec_ext_is(path, "d"@) && is_dir,
        Vendor::Sciex => (spec_ext_is(path, "wiff"@) || spec_ext_is(path, "wiff2"@)) && is_file,
        Vendor::Waters => spec_ext_is(path, "raw"@) && is_dir,
        Vendor::Agilent => spec_ext_is(path, "d"@) && is_dir,
    }
}

/// Whether a path is a valid raw artifact for the vendor, given its on-disk
/// kind as observed.
pub fn is_valid_raw_file(path: &str, is_file: bool, is_dir: bool, vendor: Vendor) -> (r: bool)
    ensures
        r == spec_is_valid_raw_file(path@, is_file, is_dir, vendor),
{
    let len = path.unicode_len();
    let ext_start = match crate::text::ext_dot_index(path) {
        Some(k) => {
            proof {
                if !(exists|t: int| crate::text::valid_ext_dot(path@, t)) {
                    assert(crate::text::spec_ext_dot(path@) is None);
                    assert(false);
                }
                let t = choose|t: int| crate::text::valid_ext_dot(path@, t);
                assert(crate::text::spec_ext_dot(path@) == Option::Some(t));
            }
            k + 1
        },
        None => {
            return false;
        },
    };
    let e = path.substring_char(ext_start, len);
    match vendor {
        Vendor::Thermo => crate::types::str_eq_ci_lit(e, "raw") && is_file,
        Vendor::Bruker => crate::types::str_eq_ci_lit(e, "d") && is_dir,
        Vendor::Sciex => (crate::types::str_eq_ci_lit(e, "wiff") || crate::types::str_eq_ci_lit(
            e,
            "wiff2",
        )) && is_file,
        Vendor::Waters => crate::types::str_eq_ci_lit(e, "raw") && is_dir,
        Vendor::Agilent => crate::types::str_eq_ci_lit(e, "d") && is_dir,
    }
}

/// The Bruker acquisition database inside a `.d` directory.
pub fn bruker_analysis_path(dir: &str) -> (r: String)
    ensures
        r@ == dir@ + "/analysis.tdf"@,
{
    dir.to_owned().concat("/analysis.tdf")
}

/// The Bruker journal lock sentinel.
pub fn bruker_journal_path(dir: &str) -> (r: String)
    ensures
        r@ == dir@ + "/analysis.tdf-journal"@,
{
    dir.to_owned().concat("/analysis.tdf-journal")
}

/// The Bruker lock sentinel.
pub fn bruker_lock_path(dir: &str) -> (r: String)
    ensures
        r@ == dir@ + "/analysis.tdf-lock"@,
{
    dir.to_owned().concat("/analysis.tdf-lock")
}

/// The Waters primary data member.
pub fn waters_func_path(dir: &str) -> (r: String)
    ensures
        r@ == dir@ + "/_FUNC001.DAT"@,
{
    dir.to_owned().concat("/_FUNC001.DAT")
}

/// The Waters acquisition-complete marker.
pub fn waters_extern_path(dir: &str) -> (r: String)
    ensures
        r@ == dir@ + "/_extern.inf"@,
{
    dir.to_owned().concat("/_extern.inf")
}

/// The Waters lock sentinel.
pub fn waters_lock_path(dir: &str) -> (r: String)
    ensures
        r@ == dir@ + "/_LOCK_"@,
{
    dir.to_owned().concat("/_LOCK_")
}

/// The Agilent acquisition data directory.
pub fn agilent_acqdata_path(dir: &str) -> (r: String)
    ensures
        r@ == dir@ + "/AcqData"@,
{
    dir.to_owned().concat("/AcqData")
}

/// The Agilent scan data member.
pub fn agilent_msscan_path(dir: &str) -> (r: String)
    ensures
        r@ == dir@ + "/AcqData/MSScan.bin"@,
{
    dir.to_owned().concat("/AcqData/MSScan.bin")
}

/// The Sciex scan sibling of a `.wiff` file: the extension is replaced by
/// `wiff.scan`.
pub fn sciex_scan_path(path: &str) -> (r: String)
    ensures
        match crate::text::spec_ext_dot(path@) {
            Option::Some(k) => r@ == path@.subrange(0, k) + ".wiff.scan"@,
            Option::None => r@ == path@ + ".wiff.scan"@,
        },
{
    match crate::text::ext_dot_index(path) {
        Some(k) => {
            let base = path.substring_char(0, k);
            base.to_owned().concat(".wiff.scan")
        },
        None => path.to_owned().concat(".wiff.scan"),
    }
}

/// The member whose exclusive-open probe decides that an artifact is no
/// longer held open by the instrument.
pub fn exclusive_check_target(vendor: Vendor, path: &str) -> (r: String)
    ensures
        match vendor {
            Vendor::Thermo => r@ == path@,
            Vendor::Bruker => r@ == path@ + "/analysis.tdf"@,
            Vendor::Sciex => r@ == path@,
            Vendor::Waters => r@ == path@ + "/_FUNC001.DAT"@,
            Vendor::Agilent => r@ == path@ + "/AcqData/MSScan.bin"@,
        },
{
    match vendor {
        Vendor::Thermo => path.to_owned(),
        Vendor::Bruker => bruker_analysis_path(path),
        Vendor::Sciex => path.to_owned(),
        Vendor::Waters => waters_func_path(path),
        Vendor::Agilent => agilent_msscan_path(path),
    }
}

} // verus!
