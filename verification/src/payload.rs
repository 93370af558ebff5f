//! Assembly of the upload envelope's identity parts. The per-target
//! measurements ride alongside as numbers the library never interprets;
//! serialization of the whole envelope happens outside.

use vstd::prelude::*;

use crate::types::{ExtractionInfo, RunClassification, RunInfo, Vendor};

verus! {

/// What one extraction produced, measurements aside: identity, provenance
/// and the integer aggregates.
#[derive(Debug, Clone)]
pub struct ExtractionSummary {
    /// Freshly minted run identifier, in UUID text form.
    pub run_id: String,
    pub raw_file_path: String,
    pub raw_file_name: String,
    pub raw_file_hash: String,
    pub extraction_time_ms: u64,
    pub backend: String,
    pub backend_version: String,
    pub template_name: String,
    pub template_hash: String,
    pub targets_found: u32,
    pub targets_expected: u32,
}

/// A plausible summary: no more targets found than expected.
pub open spec fn spec_wf_summary(s: ExtractionSummary) -> bool {
    s.targets_found <= s.targets_expected
}

/// The identity parts of the upload envelope. Instants are UTC seconds.
#[derive(Debug, Clone)]
pub struct PayloadMeta {
    pub schema_version: String,
    pub payload_id: String,
    pub correlation_id: String,
    pub agent_id: String,
    pub agent_version: String,
    pub timestamp: i64,
    pub run: RunInfo,
    pub extraction: ExtractionInfo,
}

/// Build the run part of the envelope from an extraction summary and its
/// classification. The well position is rendered as its plate label.
pub fn build_run_info(
    summary: &ExtractionSummary,
    classification: &RunClassification,
    vendor: Vendor,
) -> (r: RunInfo)
    requires
        match classification.well_position {
            Some(w) => w.column <= 12,
            None => true,
        },
    ensures
        r.run_id@ == summary.run_id@,
        r.raw_file_name@ == summary.raw_file_name@,
        r.raw_file_hash@ == summary.raw_file_hash@,
        r.acquisition_time is None,
        r.instrument_id@ == classification.instrument_id@,
        r.vendor == vendor,
        r.control_type == classification.control_type,
        match classification.well_position {
            Some(w) => (r.well_position matches Some(label) && label@
                == crate::types::spec_well_label(w)),
            None => r.well_position is None,
        },
        match classification.plate_id {
            Some(ref p) => r.plate_id matches Some(q) && q@ == p@,
            None => r.plate_id is None,
        },
        r.classification_confidence == classification.confidence,
        r.classification_source == classification.source,
{
    let well_position = match &classification.well_position {
        Some(w) => Some(w.label()),
        None => None,
    };
    let plate_id = match &classification.plate_id {
        Some(p) => Some(p.clone()),
        None => None,
    };
    RunInfo {
        run_id: summary.run_id.clone(),
        raw_file_name: summary.raw_file_name.clone(),
        raw_file_hash: summary.raw_file_hash.clone(),
        acquisition_time: None,
        instrument_id: classification.instrument_id.clone(),
        vendor,
        control_type: classification.control_type,
        well_position,
        plate_id,
        classification_confidence: classification.confidence,
        classification_source: classification.source,
    }
}

/// Build the extractor part of the envelope; a payload only exists for a
/// successful extraction, so the status is `SUCCESS`.
pub fn build_extraction_info(summary: &ExtractionSummary) -> (r: ExtractionInfo)
    ensures
        r.backend@ == summary.backend@,
        r.backend_version@ == summary.backend_version@,
        r.template_name@ == summary.template_name@,
        r.template_hash@ == summary.template_hash@,
        r.extraction_time_ms == summary.extraction_time_ms,
        r.status@ == "SUCCESS"@,
{
    ExtractionInfo {
        backend: summary.backend.clone(),
        backend_version: summary.backend_version.clone(),
        template_name: summary.template_name.clone(),
        template_hash: summary.template_hash.clone(),
        extraction_time_ms: summary.extraction_time_ms,
        status: String::from_str("SUCCESS"),
    }
}

/// Assemble the envelope's identity: schema version `1.0`, a fresh payload
/// id, the given correlation id and agent identity, and the run and
/// extraction parts built above.
pub fn build_payload_meta(
    summary: &ExtractionSummary,
    classification: &RunClassification,
    vendor: Vendor,
    agent_id: &str,
    agent_version: &str,
    correlation_id: String,
    now_epoch: i64,
) -> (r: PayloadMeta)
    requires
        match classification.well_position {
            Some(w) => w.column <= 12,
            None => true,
        },
    ensures
        r.schema_version@ == "1.0"@,
        r.payload_id@.len() == 36,
        r.correlation_id == correlation_id,
        r.agent_id@ == agent_id@,
        r.agent_version@ == agent_version@,
        r.timestamp == now_epoch,
        r.run.run_id@ == summary.run_id@,
        r.run.control_type == classification.control_type,
        r.run.vendor == vendor,
        r.extraction.status@ == "SUCCESS"@,
        r.extraction.template_hash@ == summary.template_hash@,
{
    let run = build_run_info(summary, classification, vendor);
    let extraction = build_extraction_info(summary);
    PayloadMeta {
        schema_version: String::from_str("1.0"),
        payload_id: crate::outside::new_uuid_string(),
        correlation_id,
        agent_id: agent_id.to_owned(),
        agent_version: agent_version.to_owned(),
        timestamp: now_epoch,
        run,
        extraction,
    }
}

} // verus!
