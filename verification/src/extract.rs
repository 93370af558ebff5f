//! Extractor invocation decisions: which binary path is taken, the exact
//! command-line arguments, the report file name, the template digest, and
//! the mapping from report column headers to the canonical fields. Running
//! the subprocess and reading its CSV rows happens outside the library.

use vstd::prelude::*;

use crate::config::SkylineConfig;
use crate::outside::{sha256_hex, sha256_hex_of};
use crate::text::vec_eq_ci_str;
use crate::types::ci_seq_eq;

verus! {

/// The extractor: its configuration and the binary path, when one is known.
#[derive(Debug)]
pub struct Extractor {
    pub config: SkylineConfig,
    pub skyline_path: Option<String>,
}

/// An explicitly configured extractor path: present, not empty, and not the
/// `auto` marker (case-insensitive).
pub open spec fn spec_explicit_path(path: Option<String>) -> bool {
    match path {
        Some(p) => p@.len() > 0 && !ci_seq_eq(p@, "auto"@),
        None => false,
    }
}

impl Extractor {
    /// Build an extractor. An explicitly configured binary path is taken as
    /// it stands; `auto`, an empty string or no path at all leave the binary
    /// to be discovered and set later.
    pub fn new(config: &SkylineConfig) -> (r: Extractor)
        ensures
            r.config.timeout_seconds == config.timeout_seconds,
            r.config.process_priority@ == config.process_priority@,
            r.config.path == config.path,
            spec_explicit_path(config.path) ==> (r.skyline_path matches Some(p) && (
            config.path matches Some(q) && p@ == q@)),
            !spec_explicit_path(config.path) ==> r.skyline_path is None,
    {
        proof {
            reveal_strlit("auto");
        }
        let skyline_path = match &config.path {
            Some(p) => {
                if !p.as_str().is_empty() && !crate::types::str_eq_ci_lit(p.as_str(), "auto") {
                    Some(p.clone())
                } else {
                    None
                }
            },
            None => None,
        };
        let path_copy = match &config.path {
            Some(p) => Some(p.clone()),
            None => None,
        };
        Extractor {
            config: SkylineConfig {
                path: path_copy,
                timeout_seconds: config.timeout_seconds,
                process_priority: config.process_priority.clone(),
            },
            skyline_path,
        }
    }

    /// Record a discovered binary path.
    pub fn set_discovered_path(&mut self, path: String)
        ensures
            final(self).skyline_path == Option::Some(path),
            final(self).config == old(self).config,
    {
        self.skyline_path = Some(path);
    }
}

/// The report file a run's extraction writes into the work directory.
pub fn report_file_name(run_id: &str) -> (r: String)
    ensures
        r@ == run_id@ + "_report.csv"@,
{
    run_id.to_owned().concat("_report.csv")
}

/// The extractor's command-line arguments: the template to open, the raw
/// artifact to import, the fixed report name and invariant column names,
/// the output file, and the CSV format selector.
pub fn build_skyline_args(template_path: &str, raw_path: &str, report_path: &str) -> (r: Vec<
    String,
>)
    ensures
        r@.len() == 6,
        r@[0]@ == "--in="@ + template_path@,
        r@[1]@ == "--import-file="@ + raw_path@,
        r@[2]@ == "--report-name=MD_QC_Report"@,
        r@[3]@ == "--report-invariant"@,
        r@[4]@ == "--report-file="@ + report_path@,
        r@[5]@ == "--report-format=csv"@,
{
    let mut args: Vec<String> = Vec::new();
    args.push(String::from_str("--in=").concat(template_path));
    args.push(String::from_str("--import-file=").concat(raw_path));
    args.push(String::from_str("--report-name=MD_QC_Report"));
    args.push(String::from_str("--report-invariant"));
    args.push(String::from_str("--report-file=").concat(report_path));
    args.push(String::from_str("--report-format=csv"));
    args
}

/// The digest recorded for a template's content.
pub fn hash_template(content: &[u8]) -> (r: String)
    ensures
        r@ == sha256_hex_of(content@),
        r@.len() == 64,
{
    sha256_hex(content)
}

/// A token of the text begins at `i` and starts with a decimal digit.
pub open spec fn digit_token_at(s: Seq<char>, i: int) -> bool {
    &&& 0 <= i < s.len()
    &&& crate::text::spec_is_digit(s[i])
    &&& (i == 0 || crate::text::is_space(s[i - 1]))
}

/// The end of the run of non-whitespace characters starting at `j`.
pub open spec fn token_end(s: Seq<char>, j: int) -> int
    decreases s.len() - j,
{
    if 0 <= j < s.len() && !crate::text::is_space(s[j]) {
        token_end(s, j + 1)
    } else {
        j
    }
}

/// The index of the leftmost digit-initial token.
pub open spec fn first_digit_token_index(s: Seq<char>) -> int {
    choose|i: int|
        digit_token_at(s, i) && forall|j: int| 0 <= j < i ==> !digit_token_at(s, j)
}

/// The leftmost whitespace-delimited token that starts with a digit, if any.
pub open spec fn spec_first_numeric_token(s: Seq<char>) -> Option<Seq<char>> {
    if exists|i: int| digit_token_at(s, i) {
        let i = first_digit_token_index(s);
        Option::Some(s.subrange(i, token_end(s, i)))
    } else {
        Option::None
    }
}

fn token_end_exec(s: &str, len: usize, j: usize) -> (r: usize)
    requires
        len == s@.len(),
        j <= len,
    ensures
        r as int == token_end(s@, j as int),
        j <= r <= len,
    decreases len - j,
{
    if j < len && !crate::text::is_space_char(s.get_char(j)) {
        token_end_exec(s, len, j + 1)
    } else {
        j
    }
}

/// The first whitespace-delimited token of a text that starts with a digit:
/// how a version number is picked out of the extractor's version banner.
pub fn first_numeric_token(s: &str) -> (r: Option<String>)
    ensures
        match r {
            Some(t) => spec_first_numeric_token(s@) == Option::Some(t@),
            None => spec_first_numeric_token(s@) is None,
        },
{
    let len = s.unicode_len();
    let mut i: usize = 0;
    while i < len
        invariant
            i <= len,
            len == s@.len(),
            forall|j: int| 0 <= j < i ==> !digit_token_at(s@, j),
        decreases len - i,
    {
        let c = s.get_char(i);
        let starts = i == 0 || crate::text::is_space_char(s.get_char(i - 1));
        if starts && crate::text::is_digit_char(c) {
            proof {
                let fi = first_digit_token_index(s@);
                assert(digit_token_at(s@, i as int));
                assert(digit_token_at(s@, fi) && forall|j: int|
                    0 <= j < fi ==> !digit_token_at(s@, j));
                if fi < i as int {
                    assert(!digit_token_at(s@, fi));
                }
                if (i as int) < fi {
                    assert(!digit_token_at(s@, i as int));
                }
                assert(fi == i as int);
            }
            let end = token_end_exec(s, len, i);
            return Some(s.substring_char(i, end).to_owned());
        }
        i = i + 1;
    }
    proof {
        if exists|j: int| digit_token_at(s@, j) {
            let j = choose|j: int| digit_token_at(s@, j);
            assert(!digit_token_at(s@, j));
        }
    }
    None
}

/// How many of the report's rows carry a detected target.
pub open spec fn spec_count_detected(s: Seq<bool>) -> int
    decreases s.len(),
{
    if s.len() == 0 {
        0
    } else {
        spec_count_detected(s.drop_last()) + if s.last() {
            1int
        } else {
            0int
        }
    }
}

/// The run-level target counts over the report's per-row detection flags:
/// how many targets were found, and how many were expected (one per row).
/// Found never exceeds expected.
pub fn count_targets(detected: &Vec<bool>) -> (r: (u32, u32))
    requires
        detected@.len() <= u32::MAX,
    ensures
        r.1 as int == detected@.len(),
        r.0 as int == spec_count_detected(detected@),
        r.0 <= r.1,
{
    let n = detected.len();
    let mut found: u32 = 0;
    let mut i: usize = 0;
    proof {
        assert(detected@.subrange(0, 0) =~= Seq::<bool>::empty());
    }
    while i < n
        invariant
            i <= n,
            n == detected@.len(),
            n <= u32::MAX,
            found as int == spec_count_detected(detected@.subrange(0, i as int)),
            found <= i,
        decreases n - i,
    {
        proof {
            assert(detected@.subrange(0, i + 1).drop_last() =~= detected@.subrange(0, i as int));
            assert(detected@.subrange(0, i + 1).last() == detected@[i as int]);
        }
        if detected[i] {
            found = found + 1;
        }
        i = i + 1;
    }
    proof {
        assert(detected@.subrange(0, n as int) =~= detected@);
    }
    (found, n as u32)
}

/// The canonical fields of the extractor's report.
#[derive(Debug, Clone, Copy, PartialEq, Eq, Structural)]
pub enum ReportField {
    PeptideSequence,
    PrecursorMz,
    RetentionTime,
    RtExpected,
    RtDelta,
    PeakArea,
    PeakHeight,
    Fwhm,
    PeakSymmetry,
    MassErrorPpm,
    IsotopeDotProduct,
}

/// A header with spaces and underscores removed, for field matching.
pub open spec fn spec_squeeze(s: Seq<char>) -> Seq<char>
    decreases s.len(),
{
    if s.len() == 0 {
        s
    } else if s.last() == ' ' || s.last() == '_' {
        spec_squeeze(s.drop_last())
    } else {
        spec_squeeze(s.drop_last()).push(s.last())
    }
}

/// The canonical field a report column header names, matched after
/// squeezing out spaces and underscores, ignoring ASCII case.
pub open spec fn spec_header_field(h: Seq<char>) -> Option<ReportField> {
    let f = spec_squeeze(h);
    if ci_seq_eq(f, "peptidesequence"@) || ci_seq_eq(f, "peptide"@) || ci_seq_eq(
        f,
        "modifiedsequence"@,
    ) || ci_seq_eq(f, "sequence"@) || ci_seq_eq(f, "moleculename"@) || ci_seq_eq(f, "molecule"@)
        || ci_seq_eq(f, "compoundname"@) {
        Option::Some(ReportField::PeptideSequence)
    } else if ci_seq_eq(f, "mz"@) || ci_seq_eq(f, "precursormz"@) || ci_seq_eq(
        f,
        "precursormass"@,
    ) || ci_seq_eq(f, "mass"@) {
        Option::Some(ReportField::PrecursorMz)
    } else if ci_seq_eq(f, "retentiontime"@) || ci_seq_eq(f, "rt"@) || ci_seq_eq(
        f,
        "peptideretentiontime"@,
    ) || ci_seq_eq(f, "bestretentiontime"@) {
        Option::Some(ReportField::RetentionTime)
    } else if ci_seq_eq(f, "predictedretentiontime"@) || ci_seq_eq(f, "expectedrt"@) || ci_seq_eq(
        f,
        "rtexpected"@,
    ) {
        Option::Some(ReportField::RtExpected)
    } else if ci_seq_eq(f, "rtdelta"@) || ci_seq_eq(f, "retentiontimedelta"@) || ci_seq_eq(
        f,
        "rtdifference"@,
    ) {
        Option::Some(ReportField::RtDelta)
    } else if ci_seq_eq(f, "totalarea"@) || ci_seq_eq(f, "area"@) || ci_seq_eq(f, "peakarea"@)
        || ci_seq_eq(f, "sumarea"@) {
        Option::Some(ReportField::PeakArea)
    } else if ci_seq_eq(f, "maxheight"@) || ci_seq_eq(f, "height"@) || ci_seq_eq(f, "peakheight"@)
        || ci_seq_eq(f, "maxintensity"@) {
        Option::Some(ReportField::PeakHeight)
    } else if ci_seq_eq(f, "fwhm"@) || ci_seq_eq(f, "maxfwhm"@) || ci_seq_eq(f, "peakwidth"@)
        || ci_seq_eq(f, "width"@) {
        Option::Some(ReportField::Fwhm)
    } else if ci_seq_eq(f, "peaksymmetry"@) || ci_seq_eq(f, "symmetry"@) {
        Option::Some(ReportField::PeakSymmetry)
    } else if ci_seq_eq(f, "masserrorppm"@) || ci_seq_eq(f, "averagemasserrorppm"@) || ci_seq_eq(
        f,
        "ppm"@,
    ) || ci_seq_eq(f, "deltamass"@) {
        Option::Some(ReportField::MassErrorPpm)
    } else if ci_seq_eq(f, "isotopedotproduct"@) || ci_seq_eq(f, "idotp"@) || ci_seq_eq(
        f,
        "dotproduct"@,
    ) {
        Option::Some(ReportField::IsotopeDotProduct)
    } else {
        Option::None
    }
}

/// The column index a field is read from: the last header naming it.
pub open spec fn spec_field_column(headers: Seq<Seq<char>>, field: ReportField) -> Option<int>
    decreases headers.len(),
{
    if headers.len() == 0 {
        Option::None
    } else if spec_header_field(headers.last()) == Option::Some(field) {
        Option::Some(headers.len() - 1)
    } else {
        spec_field_column(headers.drop_last(), field)
    }
}

/// Where each canonical field is found in the report, if anywhere.
#[derive(Debug, Clone, Copy, PartialEq, Eq, Structural)]
pub struct ReportColumns {
    pub peptide_sequence: Option<usize>,
    pub precursor_mz: Option<usize>,
    pub retention_time: Option<usize>,
    pub rt_expected: Option<usize>,
    pub rt_delta: Option<usize>,
    pub peak_area: Option<usize>,
    pub peak_height: Option<usize>,
    pub fwhm: Option<usize>,
    pub peak_symmetry: Option<usize>,
    pub mass_error_ppm: Option<usize>,
    pub isotope_dot_product: Option<usize>,
}

/// One field's column of a `ReportColumns`.
pub open spec fn spec_column_of(r: ReportColumns, field: ReportField) -> Option<usize> {
    match field {
        ReportField::PeptideSequence => r.peptide_sequence,
        ReportField::PrecursorMz => r.precursor_mz,
        ReportField::RetentionTime => r.retention_time,
        ReportField::RtExpected => r.rt_expected,
        ReportField::RtDelta => r.rt_delta,
        ReportField::PeakArea => r.peak_area,
        ReportField::PeakHeight => r.peak_height,
        ReportField::Fwhm => r.fwhm,
        ReportField::PeakSymmetry => r.peak_symmetry,
        ReportField::MassErrorPpm => r.mass_error_ppm,
        ReportField::IsotopeDotProduct => r.isotope_dot_product,
    }
}

/// One field of the map agrees with the headers.
pub open spec fn spec_matches_one(headers: Seq<Seq<char>>, r: ReportColumns, field: ReportField) -> bool {
    match spec_column_of(r, field) {
        Option::Some(i) => spec_field_column(headers, field) == Option::Some(i as int),
        Option::None => spec_field_column(headers, field) is None,
    }
}

/// Every field of the map agrees with the headers.
pub open spec fn spec_column_matches(headers: Seq<Seq<char>>, r: ReportColumns) -> bool {
    forall|field: ReportField| #[trigger] spec_matches_one(headers, r, field)
}

/// The canonical field a header names, if any.
fn header_field(h: &str) -> (r: Option<ReportField>)
    ensures
        r == spec_header_field(h@),
{
    let n = h.unicode_len();
    let mut f: Vec<char> = Vec::new();
    let mut i: usize = 0;
    proof {
        assert(h@.subrange(0, 0) =~= Seq::<char>::empty());
    }
    while i < n
        invariant
            i <= n,
            n == h@.len(),
            f@ == spec_squeeze(h@.subrange(0, i as int)),
        decreases n - i,
    {
        let c = h.get_char(i);
        proof {
            assert(h@.subrange(0, i + 1).drop_last() =~= h@.subrange(0, i as int));
            assert(h@.subrange(0, i + 1).last() == h@[i as int]);
        }
        if c != ' ' && c != '_' {
            f.push(c);
        }
        i = i + 1;
    }
    proof {
        assert(h@.subrange(0, n as int) =~= h@);
    }
    if vec_eq_ci_str(&f, "peptidesequence") || vec_eq_ci_str(&f, "peptide") || vec_eq_ci_str(
        &f,
        "modifiedsequence",
    ) || vec_eq_ci_str(&f, "sequence") || vec_eq_ci_str(&f, "moleculename") || vec_eq_ci_str(
        &f,
        "molecule",
    ) || vec_eq_ci_str(&f, "compoundname") {
        Some(ReportField::PeptideSequence)
    } else if vec_eq_ci_str(&f, "mz") || vec_eq_ci_str(&f, "precursormz") || vec_eq_ci_str(
        &f,
        "precursormass",
    ) || vec_eq_ci_str(&f, "mass") {
        Some(ReportField::PrecursorMz)
    } else if vec_eq_ci_str(&f, "retentiontime") || vec_eq_ci_str(&f, "rt") || vec_eq_ci_str(
        &f,
        "peptideretentiontime",
    ) || vec_eq_ci_str(&f, "bestretentiontime") {
        Some(ReportField::RetentionTime)
    } else if vec_eq_ci_str(&f, "predictedretentiontime") || vec_eq_ci_str(&f, "expectedrt")
        || vec_eq_ci_str(&f, "rtexpected") {
        Some(ReportField::RtExpected)
    } else if vec_eq_ci_str(&f, "rtdelta") || vec_eq_ci_str(&f, "retentiontimedelta")
        || vec_eq_ci_str(&f, "rtdifference") {
        Some(ReportField::RtDelta)
    } else if vec_eq_ci_str(&f, "totalarea") || vec_eq_ci_str(&f, "area") || vec_eq_ci_str(
        &f,
        "peakarea",
    ) || vec_eq_ci_str(&f, "sumarea") {
        Some(ReportField::PeakArea)
    } else if vec_eq_ci_str(&f, "maxheight") || vec_eq_ci_str(&f, "height") || vec_eq_ci_str(
        &f,
        "peakheight",
    ) || vec_eq_ci_str(&f, "maxintensity") {
        Some(ReportField::PeakHeight)
    } else if vec_eq_ci_str(&f, "fwhm") || vec_eq_ci_str(&f, "maxfwhm") || vec_eq_ci_str(
        &f,
        "peakwidth",
    ) || vec_eq_ci_str(&f, "width") {
        Some(ReportField::Fwhm)
    } else if vec_eq_ci_str(&f, "peaksymmetry") || vec_eq_ci_str(&f, "symmetry") {
        Some(ReportField::PeakSymmetry)
    } else if vec_eq_ci_str(&f, "masserrorppm") || vec_eq_ci_str(&f, "averagemasserrorppm")
        || vec_eq_ci_str(&f, "ppm") || vec_eq_ci_str(&f, "deltamass") {
        Some(ReportField::MassErrorPpm)
    } else if vec_eq_ci_str(&f, "isotopedotproduct") || vec_eq_ci_str(&f, "idotp")
        || vec_eq_ci_str(&f, "dotproduct") {
        Some(ReportField::IsotopeDotProduct)
    } else {
        None
    }
}

/// Map the report's column headers to the canonical fields; when several
/// headers name one field, the last wins.
pub fn build_column_map(headers: &Vec<String>) -> (r: ReportColumns)
    ensures
        spec_column_matches(headers.deep_view(), r),
{
    let mut cols = ReportColumns {
        peptide_sequence: None,
        precursor_mz: None,
        retention_time: None,
        rt_expected: None,
        rt_delta: None,
        peak_area: None,
        peak_height: None,
        fwhm: None,
        peak_symmetry: None,
        mass_error_ppm: None,
        isotope_dot_product: None,
    };
    let n = headers.len();
    let mut i: usize = 0;
    proof {
        assert(headers.deep_view().subrange(0, 0) =~= Seq::<Seq<char>>::empty());
        assert forall|field: ReportField|
            #[trigger] spec_matches_one(headers.deep_view().subrange(0, 0), cols, field) by {
        }
    }
    while i < n
        invariant
            i <= n,
            n == headers@.len(),
            headers.deep_view().len() == n,
            spec_column_matches(headers.deep_view().subrange(0, i as int), cols),
        decreases n - i,
    {
        proof {
            assert(headers.deep_view().subrange(0, i + 1).drop_last() =~= headers.deep_view(
            ).subrange(0, i as int));
            assert(headers.deep_view().subrange(0, i + 1).last() == headers.deep_view()[i as int]);
            assert(headers.deep_view()[i as int] == headers@[i as int]@);
        }
        let ghost prev = cols;
        match header_field(headers[i].as_str()) {
            Some(ReportField::PeptideSequence) => {
                cols.peptide_sequence = Some(i);
            },
            Some(ReportField::PrecursorMz) => {
                cols.precursor_mz = Some(i);
            },
            Some(ReportField::RetentionTime) => {
                cols.retention_time = Some(i);
            },
            Some(ReportField::RtExpected) => {
                cols.rt_expected = Some(i);
            },
            Some(ReportField::RtDelta) => {
                cols.rt_delta = Some(i);
            },
            Some(ReportField::PeakArea) => {
                cols.peak_area = Some(i);
            },
            Some(ReportField::PeakHeight) => {
                cols.peak_height = Some(i);
            },
            Some(ReportField::Fwhm) => {
                cols.fwhm = Some(i);
            },
            Some(ReportField::PeakSymmetry) => {
                cols.peak_symmetry = Some(i);
            },
            Some(ReportField::MassErrorPpm) => {
                cols.mass_error_ppm = Some(i);
            },
            Some(ReportField::IsotopeDotProduct) => {
                cols.isotope_dot_product = Some(i);
            },
            None => {},
        }
        proof {
            assert forall|field: ReportField|
                #[trigger] spec_matches_one(headers.deep_view().subrange(0, i + 1), cols, field) by {
                assert(spec_matches_one(headers.deep_view().subrange(0, i as int), prev, field));
            }
        }
        i = i + 1;
    }
    proof {
        assert(headers.deep_view().subrange(0, n as int) =~= headers.deep_view());
    }
    cols
}

} // verus!
