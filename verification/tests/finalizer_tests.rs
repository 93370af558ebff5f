//! Finalization behaviour: the per-artifact state machine on concrete
//! observations, vendor completeness rules, admission, and terminal marks.

use mdqc::config::{InstrumentConfig, WatcherConfig};
use mdqc::finalize::{
    advance, check_file_state, exclusive_check_target, is_valid_raw_file, Finalizer, MemberStat,
    TickOutcome, VendorObservation,
};
use mdqc::types::{FinalizationState, TrackedFile, Vendor};
use mdqc::watcher::{detect_network_path, Watcher};

fn watcher_config() -> WatcherConfig {
    WatcherConfig {
        use_filesystem_events: true,
        scan_interval_seconds: 30,
        stability_window_seconds: 60,
        stabilization_timeout_seconds: 600,
    }
}

fn bruker_instrument() -> InstrumentConfig {
    InstrumentConfig {
        id: String::from("TIMSTOF01"),
        vendor: Vendor::Bruker,
        watch_path: String::from("/data/timstof01"),
        file_pattern: String::from("*.d"),
        template: String::from("qc_template.sky"),
    }
}

fn entry_for(state: FinalizationState) -> TrackedFile {
    TrackedFile {
        path: String::from("/data/timstof01/run_SSC0_A1.d"),
        state,
        first_seen: 1000,
        last_size: 500,
        last_modified: 900,
        stable_since: None,
        vendor: Vendor::Bruker,
    }
}

fn bruker_obs(journal: bool, size: u64, modified: i64) -> VendorObservation {
    VendorObservation::Bruker {
        journal_exists: journal,
        lock_exists: false,
        tdf: Some(MemberStat { size, modified }),
    }
}

#[test]
fn finalizer_transitions() {
    let mut f = Finalizer::new();
    assert_eq!(f.state(), FinalizationState::Detected);
    assert!(!f.is_terminal());
    f.transition_to(FinalizationState::Processing);
    assert_eq!(f.state(), FinalizationState::Processing);
    assert!(!f.is_terminal());
    f.transition_to(FinalizationState::Done);
    assert!(f.is_terminal());
    f.transition_to(FinalizationState::Failed);
    assert!(f.is_terminal());
}

#[test]
fn detected_starts_stabilizing() {
    let mut file = entry_for(FinalizationState::Detected);
    let out = advance(&mut file, 1005, &bruker_obs(false, 500, 900), false, &watcher_config());
    assert!(matches!(out, TickOutcome::Stay));
    assert_eq!(file.state, FinalizationState::Stabilizing);
}

#[test]
fn bruker_journal_blocks_readiness() {
    // An analysis database that is size-stable, but with the journal
    // sentinel still present: the artifact must not leave Stabilizing.
    let mut file = entry_for(FinalizationState::Stabilizing);
    let cfg = watcher_config();

    let mut now = 1005;
    for _ in 0..20 {
        let out = advance(&mut file, now, &bruker_obs(true, 500, 900), false, &cfg);
        assert!(matches!(out, TickOutcome::Stay));
        assert_eq!(file.state, FinalizationState::Stabilizing);
        now += 5;
    }

    // The journal disappears: the snapshot settles, and once it has held
    // still for the stability window the artifact is ready.
    let out = advance(&mut file, now, &bruker_obs(false, 500, 900), false, &cfg);
    assert!(matches!(out, TickOutcome::Stay));
    assert_eq!(file.state, FinalizationState::Stabilizing);
    advance(&mut file, now + 5, &bruker_obs(false, 500, 900), false, &cfg);
    assert_eq!(file.stable_since, Some(now + 5));
    assert_eq!(file.state, FinalizationState::Stabilizing);
    let out = advance(&mut file, now + 65, &bruker_obs(false, 500, 900), false, &cfg);
    assert!(matches!(out, TickOutcome::Stay));
    assert_eq!(file.state, FinalizationState::Ready);
}

#[test]
fn size_change_resets_stability() {
    let mut file = entry_for(FinalizationState::Stabilizing);
    let cfg = watcher_config();

    advance(&mut file, 1005, &bruker_obs(false, 500, 900), false, &cfg);
    assert_eq!(file.stable_since, Some(1005));
    // The file grew: stability resets and the snapshot updates.
    advance(&mut file, 1010, &bruker_obs(false, 600, 905), false, &cfg);
    assert_eq!(file.stable_since, None);
    assert_eq!(file.last_size, 600);
    assert_eq!(file.last_modified, 905);
    assert_eq!(file.state, FinalizationState::Stabilizing);
}

#[test]
fn stabilization_times_out() {
    let mut file = entry_for(FinalizationState::Stabilizing);
    let cfg = watcher_config();

    let out = advance(&mut file, 1000 + 601, &bruker_obs(false, 500, 900), false, &cfg);
    match out {
        TickOutcome::TimedOut(reason) => {
            assert_eq!(reason, "stabilization timeout after 600 seconds");
        }
        _ => panic!("expected a timeout"),
    }
    assert_eq!(file.state, FinalizationState::Failed);
}

#[test]
fn ready_waits_for_exclusive_open() {
    let mut file = entry_for(FinalizationState::Ready);
    file.stable_since = Some(1100);
    let cfg = watcher_config();

    let out = advance(&mut file, 1200, &bruker_obs(false, 500, 900), false, &cfg);
    assert!(matches!(out, TickOutcome::Stay));
    assert_eq!(file.state, FinalizationState::Ready);

    let out = advance(&mut file, 1205, &bruker_obs(false, 500, 900), true, &cfg);
    assert!(matches!(out, TickOutcome::StartProcessing));
    assert_eq!(file.state, FinalizationState::Processing);
    // The instant is re-anchored: the processing timeout counts from here.
    assert_eq!(file.stable_since, Some(1205));
}

#[test]
fn processing_times_out_after_thirty_minutes() {
    let mut file = entry_for(FinalizationState::Processing);
    file.stable_since = Some(1100);
    let cfg = watcher_config();

    let out = advance(&mut file, 1100 + 1800, &bruker_obs(false, 500, 900), false, &cfg);
    assert!(matches!(out, TickOutcome::Stay));
    let out = advance(&mut file, 1100 + 1801, &bruker_obs(false, 500, 900), false, &cfg);
    match out {
        TickOutcome::TimedOut(reason) => {
            assert_eq!(reason, "processing timeout after 30 minutes");
        }
        _ => panic!("expected a timeout"),
    }
    assert_eq!(file.state, FinalizationState::Failed);
}

#[test]
fn check_file_state_by_vendor() {
    // Thermo: the file itself.
    let (size, mtime, complete) = check_file_state(
        &VendorObservation::Thermo { file: Some(MemberStat { size: 7, modified: 3 }) },
        100,
    );
    assert_eq!((size, mtime, complete), (7, 3, true));
    let (size, _, complete) =
        check_file_state(&VendorObservation::Thermo { file: None }, 100);
    assert_eq!((size, complete), (0, false));

    // Sciex: sizes aggregate and the later mtime wins.
    let (size, mtime, complete) = check_file_state(
        &VendorObservation::Sciex {
            wiff: Some(MemberStat { size: 10, modified: 5 }),
            scan: Some(MemberStat { size: 4, modified: 9 }),
        },
        100,
    );
    assert_eq!((size, mtime, complete), (14, 9, true));

    // Waters: completeness requires the acquisition-complete marker.
    let (_, _, complete) = check_file_state(
        &VendorObservation::Waters {
            lock_exists: false,
            func: Some(MemberStat { size: 1, modified: 1 }),
            extern_inf_exists: false,
        },
        100,
    );
    assert!(!complete);
    let (_, _, complete) = check_file_state(
        &VendorObservation::Waters {
            lock_exists: false,
            func: Some(MemberStat { size: 1, modified: 1 }),
            extern_inf_exists: true,
        },
        100,
    );
    assert!(complete);

    // Agilent: AcqData must be a directory.
    let (_, _, complete) = check_file_state(
        &VendorObservation::Agilent {
            acq_data_is_dir: false,
            msscan: Some(MemberStat { size: 1, modified: 1 }),
            acq_data: None,
        },
        100,
    );
    assert!(!complete);
}

#[test]
fn admission_filter_matches_vendor_shape() {
    assert!(is_valid_raw_file("/x/run.raw", true, false, Vendor::Thermo));
    assert!(!is_valid_raw_file("/x/run.raw", false, true, Vendor::Thermo));
    assert!(is_valid_raw_file("/x/run.d", false, true, Vendor::Bruker));
    assert!(!is_valid_raw_file("/x/run.d", true, false, Vendor::Bruker));
    assert!(is_valid_raw_file("/x/run.wiff", true, false, Vendor::Sciex));
    assert!(is_valid_raw_file("/x/run.wiff2", true, false, Vendor::Sciex));
    assert!(is_valid_raw_file("/x/run.RAW", false, true, Vendor::Waters));
    assert!(is_valid_raw_file("/x/run.d", false, true, Vendor::Agilent));
    assert!(!is_valid_raw_file("/x/run", true, false, Vendor::Thermo));
    assert!(!is_valid_raw_file("/x/run.txt", true, false, Vendor::Thermo));
}

#[test]
fn exclusive_check_targets() {
    assert_eq!(exclusive_check_target(Vendor::Thermo, "/x/a.raw"), "/x/a.raw");
    assert_eq!(
        exclusive_check_target(Vendor::Bruker, "/x/a.d"),
        "/x/a.d/analysis.tdf"
    );
    assert_eq!(
        exclusive_check_target(Vendor::Waters, "/x/a.raw"),
        "/x/a.raw/_FUNC001.DAT"
    );
    assert_eq!(
        exclusive_check_target(Vendor::Agilent, "/x/a.d"),
        "/x/a.d/AcqData/MSScan.bin"
    );
}

#[test]
fn admission_is_idempotent() {
    let mut w = Watcher::new(bruker_instrument(), watcher_config());
    let added = w.admit_path("/data/timstof01/run.d", false, true, 100, 50, 60);
    assert!(added);
    assert_eq!(w.entries.len(), 1);

    // The same path again: still a single entry_for entry.
    let added = w.admit_path("/data/timstof01/run.d", false, true, 100, 50, 65);
    assert!(!added);
    assert_eq!(w.entries.len(), 1);

    // A path of the wrong shape is not admitted at all.
    let added = w.admit_path("/data/timstof01/notes.txt", true, false, 10, 50, 70);
    assert!(!added);
    assert_eq!(w.entries.len(), 1);
}

#[test]
fn terminal_marks_only_touch_processing() {
    let mut w = Watcher::new(bruker_instrument(), watcher_config());
    w.admit_path("/data/timstof01/run.d", false, true, 100, 50, 60);
    // Still Detected: a terminal mark is a no-op.
    w.mark_done("/data/timstof01/run.d");
    assert_eq!(w.entries[0].state, FinalizationState::Detected);

    // Walk the artifact into Processing.
    let obs = bruker_obs(false, 100, 50);
    w.step_file(0, 100, &obs, false);
    w.step_file(0, 200, &obs, false);
    w.step_file(0, 300, &obs, false);
    assert_eq!(w.entries[0].state, FinalizationState::Ready);
    w.step_file(0, 302, &obs, true);
    assert_eq!(w.entries[0].state, FinalizationState::Processing);

    w.mark_done("/data/timstof01/run.d");
    assert_eq!(w.entries[0].state, FinalizationState::Done);

    // A terminal entry is removed on the next tick.
    let out = w.step_file(0, 305, &obs, false);
    assert!(matches!(out, TickOutcome::Remove));
    assert_eq!(w.entries.len(), 0);
}

#[test]
fn network_paths_are_unc_prefixed() {
    assert!(detect_network_path("\\\\server\\share\\data"));
    assert!(!detect_network_path("C:/data"));
    assert!(!detect_network_path("/mnt/data"));
}
