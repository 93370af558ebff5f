//! Orchestration decisions: which instrument owns a finalized artifact, and
//! what each pipeline outcome does — which failures are recorded in the
//! registry and which terminal mark the watcher receives. The loop that
//! waits on channels and runs the extractor lives outside the library and
//! follows these decisions.

use vstd::prelude::*;

use crate::config::InstrumentConfig;
use crate::finalize::TickOutcome;
use crate::text::{spec_starts_with, str_starts_with};

verus! {

/// The index of the first instrument whose watch root is a prefix of the
/// artifact path, if any.
pub fn locate_instrument(instruments: &Vec<InstrumentConfig>, path: &str) -> (r: Option<usize>)
    ensures
        match r {
            Some(i) => {
                &&& i < instruments@.len()
                &&& spec_starts_with(path@, instruments@[i as int].watch_path@)
                &&& forall|j: int|
                    0 <= j < i ==> !spec_starts_with(
                        path@,
                        (#[trigger] instruments@[j]).watch_path@,
                    )
            },
            None => forall|j: int|
                0 <= j < instruments@.len() ==> !spec_starts_with(
                    path@,
                    (#[trigger] instruments@[j]).watch_path@,
                ),
        },
{
    let n = instruments.len();
    let mut i: usize = 0;
    while i < n
        invariant
            i <= n,
            n == instruments@.len(),
            forall|j: int|
                0 <= j < i ==> !spec_starts_with(path@, (#[trigger] instruments@[j]).watch_path@),
        decreases n - i,
    {
        if str_starts_with(path, instruments[i].watch_path.as_str()) {
            return Some(i);
        }
        i = i + 1;
    }
    None
}

/// How processing one finalized artifact ended.
#[derive(Debug, Clone)]
pub enum ArtifactOutcome {
    /// No configured instrument owns the path.
    NoInstrument,
    /// The classifier failed; carries its message.
    ClassificationFailed(String),
    /// The run is not a quality-control run; by design it produces nothing.
    NonQc,
    /// The extractor failed or timed out; carries its message.
    ExtractionFailed(String),
    /// The spool refused the payload; carries the message.
    SpoolFailed(String),
    /// The payload was queued for upload.
    Enqueued,
}

/// The terminal mark handed to the watcher for one artifact.
#[derive(Debug, Clone, Copy, PartialEq, Eq, Structural)]
pub enum TerminalMark {
    /// Call `mark_done`: the artifact is fully handled.
    Done,
    /// Call `mark_failed`: the artifact failed.
    Failed,
    /// Leave the tracking state alone.
    Unchanged,
}

/// What one artifact outcome asks for: an optional failure reason for the
/// registry, and the terminal mark for the watcher. An unowned path gets no
/// mark; a classification, extraction or spool failure is recorded and
/// marked failed; a non-QC run and a queued payload are marked done.
pub fn disposition(outcome: &ArtifactOutcome) -> (r: (Option<String>, TerminalMark))
    ensures
        match *outcome {
            ArtifactOutcome::NoInstrument => r.0 is None && r.1 is Unchanged,
            ArtifactOutcome::ClassificationFailed(ref m) => (r.0 matches Some(reason) && reason@
                == "classification failed: "@ + m@) && r.1 is Failed,
            ArtifactOutcome::NonQc => r.0 is None && r.1 is Done,
            ArtifactOutcome::ExtractionFailed(ref m) => (r.0 matches Some(reason) && reason@
                == "skyline extraction failed: "@ + m@) && r.1 is Failed,
            ArtifactOutcome::SpoolFailed(ref m) => (r.0 matches Some(reason) && reason@
                == "failed to spool result: "@ + m@) && r.1 is Failed,
            ArtifactOutcome::Enqueued => r.0 is None && r.1 is Done,
        },
{
    match outcome {
        ArtifactOutcome::NoInstrument => (None, TerminalMark::Unchanged),
        ArtifactOutcome::ClassificationFailed(m) => (
            Some(String::from_str("classification failed: ").concat(m.as_str())),
            TerminalMark::Failed,
        ),
        ArtifactOutcome::NonQc => (None, TerminalMark::Done),
        ArtifactOutcome::ExtractionFailed(m) => (
            Some(String::from_str("skyline extraction failed: ").concat(m.as_str())),
            TerminalMark::Failed,
        ),
        ArtifactOutcome::SpoolFailed(m) => (
            Some(String::from_str("failed to spool result: ").concat(m.as_str())),
            TerminalMark::Failed,
        ),
        ArtifactOutcome::Enqueued => (None, TerminalMark::Done),
    }
}

/// What one finalization tick outcome asks of the failed-file registry: a
/// timeout is recorded under its reason; nothing else is.
pub fn tick_disposition(outcome: &TickOutcome) -> (r: Option<String>)
    ensures
        match *outcome {
            TickOutcome::TimedOut(ref reason) => (r matches Some(m) && m@ == reason@),
            _ => r is None,
        },
{
    match outcome {
        TickOutcome::TimedOut(reason) => Some(reason.clone()),
        _ => None,
    }
}

} // verus!
