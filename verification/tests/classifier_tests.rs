//! Classifier behaviour: role tokens, well positions, plate defaults and
//! confidence, on concrete file names.

use mdqc::classifier::Classifier;
use mdqc::config::InstrumentConfig;
use mdqc::types::{
    ClassificationConfidence, ClassificationSource, ControlType, Vendor, WellPosition,
};

fn make_classifier() -> Classifier {
    Classifier::new()
}

fn instrument() -> InstrumentConfig {
    InstrumentConfig {
        id: String::from("TIMSTOF01"),
        vendor: Vendor::Bruker,
        watch_path: String::from("/data/timstof01"),
        file_pattern: String::from("*.d"),
        template: String::from("qc_template.sky"),
    }
}

#[test]
fn test_ssc0_variants() {
    let c = make_classifier();

    let variants = [
        "TIMSTOF01_SSC0_A1_2026-01-27.d",
        "TIMSTOF01_SSC_0_A1_2026-01-27.d",
        "TIMSTOF01_SSC-0_A1_2026-01-27.d",
        "TIMSTOF01_ssc0_A1_2026-01-27.d",
        "SSC0_run.raw",
    ];

    for filename in variants {
        let (ct, source) = c.extract_control_type(filename);
        assert_eq!(ct, ControlType::Ssc0, "Failed for: {}", filename);
        assert_eq!(source, ClassificationSource::Filename);
    }
}

#[test]
fn test_qca_variants() {
    let c = make_classifier();

    let variants = [
        "TIMSTOF01_QCA_A1_2026-01-27.d",
        "TIMSTOF01_QC_A_A1_2026-01-27.d",
        "TIMSTOF01_QC-A_A1_2026-01-27.d",
        "TIMSTOF01_qc_a_A1_2026-01-27.d",
        "QCA_run.raw",
    ];

    for filename in variants {
        let (ct, source) = c.extract_control_type(filename);
        assert_eq!(ct, ControlType::QcA, "Failed for: {}", filename);
        assert_eq!(source, ClassificationSource::Filename);
    }
}

#[test]
fn test_qcb_variants() {
    let c = make_classifier();

    let variants = [
        "TIMSTOF01_QCB_A3_2026-01-27.d",
        "TIMSTOF01_QC_B_A3_2026-01-27.d",
        "TIMSTOF01_QC-B_A3_2026-01-27.d",
        "TIMSTOF01_qc_b_A3_2026-01-27.d",
        "QCB_run.raw",
    ];

    for filename in variants {
        let (ct, source) = c.extract_control_type(filename);
        assert_eq!(ct, ControlType::QcB, "Failed for: {}", filename);
        assert_eq!(source, ClassificationSource::Filename);
    }
}

#[test]
fn test_well_position_extraction() {
    let c = make_classifier();

    assert_eq!(
        c.extract_well_position("TIMSTOF01_QCB_A3_2026-01-27.d"),
        Some(WellPosition::new('A', 3).unwrap())
    );
    assert_eq!(
        c.extract_well_position("run_H12_sample.raw"),
        Some(WellPosition::new('H', 12).unwrap())
    );
    assert_eq!(c.extract_well_position("no_well_here.raw"), None);
}

#[test]
fn test_inference_from_well() {
    let c = make_classifier();

    let (ct, source) = c.extract_control_type("TIMSTOF01_A1_2026-01-27.d");
    assert_eq!(ct, ControlType::QcA);
    assert_eq!(source, ClassificationSource::Position);

    let (ct, source) = c.extract_control_type("TIMSTOF01_A3_2026-01-27.d");
    assert_eq!(ct, ControlType::QcB);
    assert_eq!(source, ClassificationSource::Position);

    let (ct, source) = c.extract_control_type("TIMSTOF01_B5_2026-01-27.d");
    assert_eq!(ct, ControlType::Sample);
    assert_eq!(source, ClassificationSource::Default);
}

#[test]
fn test_default_to_sample() {
    let c = make_classifier();

    let (ct, source) = c.extract_control_type("random_file_name.d");
    assert_eq!(ct, ControlType::Sample);
    assert_eq!(source, ClassificationSource::Default);
}

#[test]
fn classify_ssc0_with_well_is_high_confidence() {
    let c = make_classifier();
    let inst = instrument();

    for path in [
        "/data/timstof01/TIMSTOF01_SSC0_A1_2026-01-27.d",
        "/data/timstof01/TIMSTOF01_SSC_0_A1_2026-01-27.d",
        "/data/timstof01/TIMSTOF01_ssc-0_A1_2026-01-27.d",
    ] {
        let r = c.classify(path, &inst).unwrap();
        assert_eq!(r.control_type, ControlType::Ssc0, "for {}", path);
        assert_eq!(r.source, ClassificationSource::Filename);
        assert_eq!(r.well_position, Some(WellPosition::new('A', 1).unwrap()));
        assert_eq!(r.confidence, ClassificationConfidence::High);
        assert_eq!(r.instrument_id, "TIMSTOF01");
    }
}

#[test]
fn classify_well_only_infers_qcb_medium() {
    let c = make_classifier();
    let inst = instrument();

    let r = c
        .classify("/data/timstof01/TIMSTOF01_A3_2026-01-27.d", &inst)
        .unwrap();
    assert_eq!(r.control_type, ControlType::QcB);
    assert_eq!(r.source, ClassificationSource::Position);
    assert_eq!(r.well_position, Some(WellPosition::new('A', 3).unwrap()));
    assert_eq!(r.confidence, ClassificationConfidence::Medium);
}

#[test]
fn classify_unmatched_defaults_to_sample_low() {
    let c = make_classifier();
    let inst = instrument();

    let r = c
        .classify("/data/timstof01/random_file_name.d", &inst)
        .unwrap();
    assert_eq!(r.control_type, ControlType::Sample);
    assert_eq!(r.source, ClassificationSource::Default);
    assert_eq!(r.well_position, None);
    assert_eq!(r.confidence, ClassificationConfidence::Low);
}

#[test]
fn classify_role_without_well_is_medium() {
    let c = make_classifier();
    let inst = instrument();

    let r = c.classify("/data/timstof01/QCA_run.raw", &inst).unwrap();
    assert_eq!(r.control_type, ControlType::QcA);
    assert_eq!(r.confidence, ClassificationConfidence::Medium);
}

#[test]
fn classify_blank_token() {
    let c = make_classifier();
    let inst = instrument();

    let r = c.classify("/data/timstof01/BLANK_run_1.d", &inst).unwrap();
    assert_eq!(r.control_type, ControlType::Blank);
    let r = c.classify("/data/timstof01/run_BLK_2.d", &inst).unwrap();
    assert_eq!(r.control_type, ControlType::Blank);
}

#[test]
fn classify_is_deterministic() {
    let c = make_classifier();
    let inst = instrument();
    let path = "/data/timstof01/TIMSTOF01_QCA_A2_2026-01-27.d";

    let a = c.classify(path, &inst).unwrap();
    let b = c.classify(path, &inst).unwrap();
    assert_eq!(a.control_type, b.control_type);
    assert_eq!(a.well_position, b.well_position);
    assert_eq!(a.confidence, b.confidence);
    assert_eq!(a.source, b.source);
    assert_eq!(a.instrument_id, b.instrument_id);
    assert_eq!(a.plate_id, b.plate_id);
}

#[test]
fn classify_fails_only_without_file_name() {
    let c = make_classifier();
    let inst = instrument();

    assert!(c.classify("", &inst).is_err());
    assert!(c.classify("..", &inst).is_err());
    assert!(c.classify("/", &inst).is_err());
    // A trailing separator still leaves a final component.
    assert!(c.classify("/data/timstof01/x.d/", &inst).is_ok());
    assert!(c.classify("/data/timstof01/x.d", &inst).is_ok());
}

#[test]
fn classify_extracts_plate_token() {
    let c = make_classifier();
    let inst = instrument();

    let r = c.classify("/data/timstof01/run-plate1.d", &inst).unwrap();
    assert_eq!(r.plate_id.as_deref(), Some("plate1"));

    let r = c.classify("/data/timstof01/run-P001-x.d", &inst).unwrap();
    assert_eq!(r.plate_id.as_deref(), Some("P001"));

    // A word boundary is required: an underscore is a word character, so a
    // plate token glued to one is not matched.
    let r = c.classify("/data/timstof01/run_P001_x.d", &inst).unwrap();
    assert_eq!(r.plate_id, None);

    let r = c.classify("/data/timstof01/run_x_y.d", &inst).unwrap();
    assert_eq!(r.plate_id, None);
}

#[test]
fn ssc_prefix_inside_word_does_not_match() {
    let c = make_classifier();

    // Strictly delimited: a role token buried in a word is not a role.
    let (ct, _) = c.extract_control_type("XSSC0Y_file.d");
    assert_eq!(ct, ControlType::Sample);
    // A bare delimited `SSC` does match.
    let (ct, source) = c.extract_control_type("run_SSC_thing.d");
    assert_eq!(ct, ControlType::Ssc0);
    assert_eq!(source, ClassificationSource::Filename);
}
