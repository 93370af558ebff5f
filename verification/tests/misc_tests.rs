//! Types, configuration, text helpers, paths, notifications, diagnostics
//! and the failed-file registry, on concrete values.

use mdqc::errors::{ExtractionError, SpoolError};
use mdqc::finalize::TickOutcome;
use mdqc::orchestrator::tick_disposition;
use mdqc::config::{
    default_completed_retention, default_endpoint, default_file_pattern, default_max_age_days,
    default_max_pending_mb, default_scan_interval, default_skyline_timeout,
    default_stability_window, default_stabilization_timeout, resolve_agent_id, Config,
    InstrumentConfig, SkylineConfig,
};
use mdqc::extract::{
    build_column_map, build_skyline_args, count_targets, first_numeric_token, hash_template,
    report_file_name, Extractor,
};
use mdqc::failed_files::FailedFilesStore;
use mdqc::notify::{notify_extraction_failure, notify_extraction_success, notify_file_detected};
use mdqc::orchestrator::{disposition, locate_instrument, ArtifactOutcome, TerminalMark};
use mdqc::paths::{
    config_file_path, spool_completed_dir, spool_dir, spool_failed_dir, spool_pending_dir,
    spool_uploading_dir, template_dir,
};
use mdqc::report::{build_issue_body, encode, valid_thumbprint, CheckResult, HealthCheckResult};
use mdqc::text::{file_name_of, hex8, u64_to_string};
use mdqc::types::{ControlType, LogLevel, Vendor, WellPosition};

#[test]
fn control_type_tokens_and_labels() {
    assert_eq!(ControlType::from_token("SSC0"), Some(ControlType::Ssc0));
    assert_eq!(ControlType::from_token("ssc-0"), Some(ControlType::Ssc0));
    assert_eq!(ControlType::from_token("SSC"), Some(ControlType::Ssc0));
    assert_eq!(ControlType::from_token("qc_a"), Some(ControlType::QcA));
    assert_eq!(ControlType::from_token("QA"), Some(ControlType::QcA));
    assert_eq!(ControlType::from_token("QCB"), Some(ControlType::QcB));
    assert_eq!(ControlType::from_token("blk"), Some(ControlType::Blank));
    assert_eq!(ControlType::from_token("sample"), Some(ControlType::Sample));
    assert_eq!(ControlType::from_token("SPL"), Some(ControlType::Sample));
    assert_eq!(ControlType::from_token("nonsense"), None);

    assert_eq!(ControlType::Ssc0.label(), "SSC0");
    assert_eq!(ControlType::QcA.label(), "QC_A");
    assert_eq!(ControlType::QcB.label(), "QC_B");
    assert_eq!(ControlType::Sample.label(), "SAMPLE");
    assert_eq!(ControlType::Blank.label(), "BLANK");

    assert!(ControlType::Ssc0.is_qc());
    assert!(ControlType::QcA.is_qc());
    assert!(ControlType::QcB.is_qc());
    // Samples and blanks produce no payload.
    assert!(!ControlType::Sample.is_qc());
    assert!(!ControlType::Blank.is_qc());
}

#[test]
fn vendor_parsing_and_shape() {
    assert_eq!(Vendor::from_str("bruker"), Ok(Vendor::Bruker));
    assert_eq!(Vendor::from_str("Thermo"), Ok(Vendor::Thermo));
    assert_eq!(
        Vendor::from_str("nope"),
        Err(String::from("unknown vendor: nope"))
    );
    assert_eq!(Vendor::Bruker.label(), "bruker");
    assert!(Vendor::Bruker.is_directory_format());
    assert!(!Vendor::Thermo.is_directory_format());
    assert_eq!(Vendor::Sciex.extensions(), vec!["wiff", "wiff2"]);
    assert_eq!(Vendor::Thermo.extensions(), vec!["raw"]);
}

#[test]
fn well_positions() {
    assert_eq!(
        WellPosition::new('a', 3),
        Some(WellPosition { row: 'A', column: 3 })
    );
    assert_eq!(WellPosition::new('I', 3), None);
    assert_eq!(WellPosition::new('A', 0), None);
    assert_eq!(WellPosition::new('A', 13), None);

    assert_eq!(
        WellPosition::from_str(" h12 "),
        Some(WellPosition { row: 'H', column: 12 })
    );
    assert_eq!(WellPosition::from_str("A1"), WellPosition::new('A', 1));
    assert_eq!(WellPosition::from_str("A123"), None);
    assert_eq!(WellPosition::from_str("5A"), None);

    assert_eq!(WellPosition { row: 'A', column: 1 }.label(), "A1");
    assert_eq!(WellPosition { row: 'H', column: 12 }.label(), "H12");
}

#[test]
fn log_levels() {
    assert_eq!(LogLevel::Error.as_str(), "error");
    assert_eq!(LogLevel::Trace.as_str(), "trace");
}

#[test]
fn config_defaults_and_validation() {
    assert_eq!(default_endpoint(), "https://qc-ingest.massdynamics.com/v1/");
    assert_eq!(default_skyline_timeout(), 300);
    assert_eq!(default_scan_interval(), 30);
    assert_eq!(default_stability_window(), 60);
    assert_eq!(default_stabilization_timeout(), 600);
    assert_eq!(default_max_pending_mb(), 1000);
    assert_eq!(default_max_age_days(), 30);
    assert_eq!(default_completed_retention(), 10);
    assert_eq!(default_file_pattern(), "*");

    let mut config = Config::default();
    assert!(config.validate().is_ok());
    config.instruments.push(InstrumentConfig {
        id: String::from("I1"),
        vendor: Vendor::Bruker,
        watch_path: String::from("/data"),
        file_pattern: String::from("*"),
        template: String::from("t.sky"),
    });
    assert!(config.validate().is_ok());
    config.instruments.push(InstrumentConfig {
        id: String::from("I2"),
        vendor: Vendor::Bruker,
        watch_path: String::new(),
        file_pattern: String::from("*"),
        template: String::from("t.sky"),
    });
    assert!(config.validate().is_err());
}

#[test]
fn agent_id_resolution() {
    let generated = String::from("mdqc-machine-1234");
    assert_eq!(
        resolve_agent_id(&String::from("auto"), &generated),
        "mdqc-machine-1234"
    );
    assert_eq!(
        resolve_agent_id(&String::from("lab-7"), &generated),
        "lab-7"
    );
}

#[test]
fn test_paths_are_valid() {
    let root = "/var/lib/agent";
    assert_eq!(spool_dir(root), "/var/lib/agent/spool");
    assert_eq!(spool_pending_dir(root), "/var/lib/agent/spool/pending");
    assert_eq!(spool_uploading_dir(root), "/var/lib/agent/spool/uploading");
    assert_eq!(spool_failed_dir(root), "/var/lib/agent/spool/failed");
    assert_eq!(spool_completed_dir(root), "/var/lib/agent/spool/completed");
    assert_eq!(template_dir(root), "/var/lib/agent/templates");
    assert_eq!(config_file_path(root), "/var/lib/agent/config.toml");
}

#[test]
fn text_rendering() {
    assert_eq!(u64_to_string(0), "0");
    assert_eq!(u64_to_string(42), "42");
    assert_eq!(u64_to_string(18_446_744_073_709_551_615), "18446744073709551615");
    assert_eq!(hex8(0), "00000000");
    assert_eq!(hex8(0xDEADBEEF), "deadbeef");
    assert_eq!(hex8(0x1A2), "000001a2");
}

#[test]
fn file_name_extraction() {
    assert_eq!(file_name_of("/a/b/c.d").as_deref(), Some("c.d"));
    assert_eq!(file_name_of("c.d").as_deref(), Some("c.d"));
    assert_eq!(file_name_of("/a/b/").as_deref(), Some("b"));
    assert_eq!(file_name_of("C:\\data\\run.raw").as_deref(), Some("run.raw"));
    assert_eq!(file_name_of(""), None);
    assert_eq!(file_name_of("/"), None);
    assert_eq!(file_name_of(".."), None);
    assert_eq!(file_name_of("a/.."), None);
}

#[test]
fn test_hash_template() {
    let hash = hash_template(b"test content");
    assert_eq!(hash.len(), 64);
    // The digest depends on the content.
    assert_ne!(hash_template(b"other content"), hash);
    // And is stable for equal content.
    assert_eq!(hash_template(b"test content"), hash);
    assert!(hash.chars().all(|c| c.is_ascii_hexdigit()));
}

#[test]
fn extractor_path_choice() {
    let explicit = Extractor::new(&SkylineConfig {
        path: Some(String::from("/opt/skyline/SkylineCmd")),
        timeout_seconds: 300,
        process_priority: String::from("below_normal"),
    });
    assert_eq!(
        explicit.skyline_path.as_deref(),
        Some("/opt/skyline/SkylineCmd")
    );

    let auto = Extractor::new(&SkylineConfig {
        path: Some(String::from("Auto")),
        timeout_seconds: 300,
        process_priority: String::from("below_normal"),
    });
    assert_eq!(auto.skyline_path, None);

    let none = Extractor::new(&SkylineConfig {
        path: None,
        timeout_seconds: 300,
        process_priority: String::from("below_normal"),
    });
    assert_eq!(none.skyline_path, None);
}

#[test]
fn skyline_invocation() {
    let args = build_skyline_args("/t/qc.sky", "/data/run.d", "/work/r.csv");
    assert_eq!(
        args,
        vec![
            "--in=/t/qc.sky",
            "--import-file=/data/run.d",
            "--report-name=MD_QC_Report",
            "--report-invariant",
            "--report-file=/work/r.csv",
            "--report-format=csv",
        ]
    );
    assert_eq!(report_file_name("abc"), "abc_report.csv");
}

#[test]
fn column_mapping_matches_headers() {
    let headers = vec![
        String::from("Peptide Sequence"),
        String::from("Precursor Mz"),
        String::from("Best Retention Time"),
        String::from("Total Area"),
        String::from("Max Height"),
        String::from("Fwhm"),
        String::from("Average Mass Error PPM"),
        String::from("Isotope Dot Product"),
        String::from("Unrelated"),
    ];
    let cols = build_column_map(&headers);
    assert_eq!(cols.peptide_sequence, Some(0));
    assert_eq!(cols.precursor_mz, Some(1));
    assert_eq!(cols.retention_time, Some(2));
    assert_eq!(cols.peak_area, Some(3));
    assert_eq!(cols.peak_height, Some(4));
    assert_eq!(cols.fwhm, Some(5));
    assert_eq!(cols.mass_error_ppm, Some(6));
    assert_eq!(cols.isotope_dot_product, Some(7));
    assert_eq!(cols.rt_expected, None);
    assert_eq!(cols.rt_delta, None);
    assert_eq!(cols.peak_symmetry, None);

    // When two headers name one field, the last wins.
    let headers = vec![String::from("area"), String::from("peak_area")];
    let cols = build_column_map(&headers);
    assert_eq!(cols.peak_area, Some(1));
}

#[test]
fn notifications_have_exact_texts() {
    let n = notify_file_detected("run.d", "TIMSTOF01", 60);
    assert_eq!(n.title, "QC File Detected");
    assert_eq!(n.body, "run.d\nWaiting 60s for file to stabilize...");
    assert!(n.silent);

    let n = notify_extraction_success("run.d", 18, 20);
    assert_eq!(n.title, "QC Extraction Complete");
    assert_eq!(n.body, "run.d\n18/20 targets detected");
    assert!(!n.silent);

    let long_error = "e".repeat(100);
    let n = notify_extraction_failure("run.d", &long_error);
    assert_eq!(n.body, format!("run.d\n{}...", "e".repeat(80)));
    assert!(!n.silent);
}

#[test]
fn orchestration_dispositions() {
    let (reason, mark) = disposition(&ArtifactOutcome::NoInstrument);
    assert_eq!(reason, None);
    assert_eq!(mark, TerminalMark::Unchanged);

    let (reason, mark) = disposition(&ArtifactOutcome::ClassificationFailed(String::from("x")));
    assert_eq!(reason.as_deref(), Some("classification failed: x"));
    assert_eq!(mark, TerminalMark::Failed);

    let (reason, mark) = disposition(&ArtifactOutcome::NonQc);
    assert_eq!(reason, None);
    assert_eq!(mark, TerminalMark::Done);

    let (reason, mark) = disposition(&ArtifactOutcome::ExtractionFailed(String::from("boom")));
    assert_eq!(reason.as_deref(), Some("skyline extraction failed: boom"));
    assert_eq!(mark, TerminalMark::Failed);

    let (reason, mark) = disposition(&ArtifactOutcome::SpoolFailed(String::from("full")));
    assert_eq!(reason.as_deref(), Some("failed to spool result: full"));
    assert_eq!(mark, TerminalMark::Failed);

    let (reason, mark) = disposition(&ArtifactOutcome::Enqueued);
    assert_eq!(reason, None);
    assert_eq!(mark, TerminalMark::Done);
}

#[test]
fn instrument_location_is_by_prefix() {
    let instruments = vec![
        InstrumentConfig {
            id: String::from("I1"),
            vendor: Vendor::Bruker,
            watch_path: String::from("/data/one"),
            file_pattern: String::from("*"),
            template: String::from("t.sky"),
        },
        InstrumentConfig {
            id: String::from("I2"),
            vendor: Vendor::Thermo,
            watch_path: String::from("/data/two"),
            file_pattern: String::from("*"),
            template: String::from("t.sky"),
        },
    ];
    assert_eq!(locate_instrument(&instruments, "/data/two/run.raw"), Some(1));
    assert_eq!(locate_instrument(&instruments, "/data/one/run.d"), Some(0));
    assert_eq!(locate_instrument(&instruments, "/elsewhere/run.d"), None);
}

#[test]
fn url_encoding() {
    assert_eq!(encode("abc-XYZ_0.~"), "abc-XYZ_0.~");
    assert_eq!(encode("a b"), "a%20b");
    assert_eq!(encode("a\nb\r"), "a%0Ab%0D");
    assert_eq!(encode("a/b"), "a%2Fb");
    assert_eq!(encode("\u{e9}"), "%C3%A9");
    assert_eq!(encode("\u{20ac}"), "%E2%82%AC");
    assert_eq!(encode("\u{1f600}"), "%F0%9F%98%80");
}

#[test]
fn issue_body_wraps_and_truncates() {
    let body = build_issue_body("short report");
    assert!(body.starts_with("## Crash Report"));
    assert!(body.contains("short report"));
    assert!(body.ends_with(
        "<!-- Please attach the full crash report file if available -->\n"
    ));

    let long_report = "x".repeat(2000);
    let body = build_issue_body(&long_report);
    assert!(body.contains("... (truncated, see attached crash report for full details)"));
    assert!(!body.contains(&"x".repeat(1501)));
}

#[test]
fn health_checks_and_summaries() {
    let check = CheckResult::ok(String::from("Agent version"));
    assert!(!check.is_error());
    let check = CheckResult::error(String::from("Config"), String::from("missing"));
    assert!(check.is_error());

    let mut health = HealthCheckResult::new();
    assert_eq!(health.summary(), "All systems operational");
    health.add_warning(String::from("slow disk"));
    assert_eq!(health.summary(), "1 warning(s)");
    health.add_error(String::from("no config"));
    assert_eq!(health.summary(), "1 error(s), 1 warning(s)");
    assert_eq!(health.details(), "ERROR: no config\nWarning: slow disk");
}

#[test]
fn thumbprint_validation() {
    assert!(valid_thumbprint("0123456789abcdef0123456789ABCDEF01234567"));
    assert!(!valid_thumbprint("0123456789abcdef"));
    assert!(!valid_thumbprint("0123456789abcdef0123456789ABCDEF0123456z"));
}

#[test]
fn failed_file_registry() {
    let mut store = FailedFilesStore::new();
    store.add(
        String::from("/data/a.d"),
        String::from("I1"),
        String::from("timeout"),
        100,
    );
    store.add(
        String::from("/data/b.d"),
        String::from("I1"),
        String::from("parse"),
        200,
    );
    assert_eq!(store.count(), 2);

    // Re-adding a path replaces its record.
    store.add(
        String::from("/data/a.d"),
        String::from("I1"),
        String::from("again"),
        300,
    );
    assert_eq!(store.count(), 2);

    // Most recent first.
    let all = store.get_all();
    assert_eq!(all[0].path, "/data/a.d");
    assert_eq!(all[0].reason, "again");
    assert_eq!(all[0].retry_count, 0);
    assert_eq!(all[1].path, "/data/b.d");

    store.increment_retry("/data/b.d");
    store.increment_retry("/data/b.d");
    let all = store.get_all();
    assert_eq!(all[1].retry_count, 2);

    store.remove("/data/a.d");
    assert_eq!(store.count(), 1);
    store.clear();
    assert_eq!(store.count(), 0);
}

#[test]
fn failed_file_registry_evicts_oldest_at_cap() {
    let mut store = FailedFilesStore::new();
    for i in 0..100 {
        store.add(
            format!("/data/file{}.d", i),
            String::from("I1"),
            String::from("r"),
            i as i64,
        );
    }
    assert_eq!(store.count(), 100);
    store.add(
        String::from("/data/late.d"),
        String::from("I1"),
        String::from("r"),
        1000,
    );
    assert_eq!(store.count(), 100);
    // The oldest record was evicted.
    assert!(store.get_all().iter().all(|f| f.path != "/data/file0.d"));
    assert!(store.get_all().iter().any(|f| f.path == "/data/late.d"));
}

#[test]
fn numeric_token_extraction() {
    assert_eq!(
        first_numeric_token("Skyline 24.1.0.198").as_deref(),
        Some("24.1.0.198")
    );
    assert_eq!(first_numeric_token("no digits here").as_deref(), None);
    assert_eq!(first_numeric_token("v1 2.0").as_deref(), Some("2.0"));
}

#[test]
fn outside_calls_behave_as_relied_on() {
    // The digest rendering is 64 hex characters whatever the input.
    assert_eq!(hash_template(b"").len(), 64);
    // A sample from an inclusive range lies within it.
    assert_eq!(mdqc::outside::random_in_range(5, 5), 5);
    let r = mdqc::outside::random_in_range(10, 20);
    assert!((10..=20).contains(&r));
    // A fresh identifier has the hyphenated UUID shape.
    let id = mdqc::outside::new_uuid_string();
    assert_eq!(id.len(), 36);
    assert_eq!(id.chars().filter(|c| *c == '-').count(), 4);
}

#[test]
fn error_messages_are_exact() {
    assert_eq!(
        ExtractionError::SkylineTimeout(300).message(),
        "skyline timeout after 300 seconds"
    );
    assert_eq!(
        ExtractionError::TemplateNotFound(String::from("/t/qc.sky")).message(),
        "template not found: /t/qc.sky"
    );
    assert_eq!(
        ExtractionError::SkylineExecution(String::from("boom")).message(),
        "skyline execution failed: boom"
    );
    assert_eq!(
        SpoolError::Full(2, 1).message(),
        "spool full: 2 MB used of 1 MB limit"
    );
    assert_eq!(
        SpoolError::FileOperation(String::from("gone")).message(),
        "file operation failed: gone"
    );
}

#[test]
fn tick_outcomes_map_to_registry_records() {
    assert_eq!(
        tick_disposition(&TickOutcome::TimedOut(String::from("stabilization timeout"))),
        Some(String::from("stabilization timeout"))
    );
    assert_eq!(tick_disposition(&TickOutcome::Stay), None);
    assert_eq!(tick_disposition(&TickOutcome::StartProcessing), None);
    assert_eq!(tick_disposition(&TickOutcome::Remove), None);
}

#[test]
fn target_counting() {
    let (found, expected) = count_targets(&vec![true, false, true, true]);
    assert_eq!((found, expected), (3, 4));
    assert_eq!(count_targets(&vec![]), (0, 0));
    assert_eq!(count_targets(&vec![false, false]), (0, 2));
    assert!(found <= expected);
}
