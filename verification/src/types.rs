//! Core data types: control roles, vendors, well positions, classification
//! records, finalization states, and the payload envelope parts that carry
//! no measurements.

use vstd::prelude::*;

use crate::text::{eq_ci, push_char, spec_eq_ci};

verus! {

/// Control role of an acquisition run.
#[derive(Debug, Clone, Copy, PartialEq, Eq, Hash, Structural)]
pub enum ControlType {
    /// System-suitability control: the baseline reference run.
    Ssc0,
    /// Full-workflow quality control.
    QcA,
    /// LCMS + loading quality control.
    QcB,
    /// Ordinary sample run.
    Sample,
    /// Blank injection.
    Blank,
}

/// A token with `-` and `_` removed, for control-role matching.
pub open spec fn spec_strip_marks(s: Seq<char>) -> Seq<char>
    decreases s.len(),
{
    if s.len() == 0 {
        s
    } else if s.last() == '-' || s.last() == '_' {
        spec_strip_marks(s.drop_last())
    } else {
        spec_strip_marks(s.drop_last()).push(s.last())
    }
}

/// Character sequences equal up to ASCII case.
pub open spec fn ci_seq_eq(a: Seq<char>, b: Seq<char>) -> bool {
    a.len() == b.len() && forall|k: int| 0 <= k < a.len() ==> spec_eq_ci(a[k], b[k])
}

/// The control role a bare token names, once `-` and `_` are removed and
/// case is ignored.
pub open spec fn spec_from_token(s: Seq<char>) -> Option<ControlType> {
    let f = spec_strip_marks(s);
    if ci_seq_eq(f, seq!['s', 's', 'c', '0']) || ci_seq_eq(f, seq!['s', 's', 'c']) {
        Option::Some(ControlType::Ssc0)
    } else if ci_seq_eq(f, seq!['q', 'c', 'a']) || ci_seq_eq(f, seq!['q', 'a']) {
        Option::Some(ControlType::QcA)
    } else if ci_seq_eq(f, seq!['q', 'c', 'b']) || ci_seq_eq(f, seq!['q', 'b']) {
        Option::Some(ControlType::QcB)
    } else if ci_seq_eq(f, seq!['b', 'l', 'a', 'n', 'k']) || ci_seq_eq(f, seq!['b', 'l', 'k']) {
        Option::Some(ControlType::Blank)
    } else if ci_seq_eq(f, seq!['s', 'a', 'm', 'p', 'l', 'e']) || ci_seq_eq(
        f,
        seq!['s', 'p', 'l'],
    ) {
        Option::Some(ControlType::Sample)
    } else {
        Option::None
    }
}

impl ControlType {
    /// Whether the run is a quality-control run that produces a payload:
    /// the system-suitability and the two QC roles do; samples and blanks
    /// are dropped by design without producing anything.
    pub fn is_qc(&self) -> (r: bool)
        ensures
            r == !(*self is Sample || *self is Blank),
    {
        matches!(self, ControlType::Ssc0 | ControlType::QcA | ControlType::QcB)
    }

    /// The wire label of the role.
    pub open spec fn spec_label(self) -> Seq<char> {
        match self {
            ControlType::Ssc0 => "SSC0"@,
            ControlType::QcA => "QC_A"@,
            ControlType::QcB => "QC_B"@,
            ControlType::Sample => "SAMPLE"@,
            ControlType::Blank => "BLANK"@,
        }
    }

    /// Render the role as its wire label.
    pub fn label(&self) -> (r: String)
        ensures
            r@ == self.spec_label(),
    {
        match self {
            ControlType::Ssc0 => String::from_str("SSC0"),
            ControlType::QcA => String::from_str("QC_A"),
            ControlType::QcB => String::from_str("QC_B"),
            ControlType::Sample => String::from_str("SAMPLE"),
            ControlType::Blank => String::from_str("BLANK"),
        }
    }

    /// Parse a control role from a bare token: `-` and `_` are dropped and
    /// case is ignored before matching the known role names.
    pub fn from_token(token: &str) -> (r: Option<ControlType>)
        ensures
            r == spec_from_token(token@),
    {
        let n = token.unicode_len();
        let mut f: Vec<char> = Vec::new();
        let mut i: usize = 0;
        proof {
            assert(token@.subrange(0, 0) =~= Seq::<char>::empty());
        }
        while i < n
            invariant
                i <= n,
                n == token@.len(),
                f@ == spec_strip_marks(token@.subrange(0, i as int)),
            decreases n - i,
        {
            let c = token.get_char(i);
            proof {
                assert(token@.subrange(0, i + 1).drop_last() =~= token@.subrange(0, i as int));
                assert(token@.subrange(0, i + 1).last() == token@[i as int]);
            }
            if c != '-' && c != '_' {
                f.push(c);
            }
            i = i + 1;
        }
        proof {
            assert(token@.subrange(0, n as int) =~= token@);
        }
        if chars_eq_ci(&f, &['s', 's', 'c', '0']) || chars_eq_ci(&f, &['s', 's', 'c']) {
            Some(ControlType::Ssc0)
        } else if chars_eq_ci(&f, &['q', 'c', 'a']) || chars_eq_ci(&f, &['q', 'a']) {
            Some(ControlType::QcA)
        } else if chars_eq_ci(&f, &['q', 'c', 'b']) || chars_eq_ci(&f, &['q', 'b']) {
            Some(ControlType::QcB)
        } else if chars_eq_ci(&f, &['b', 'l', 'a', 'n', 'k']) || chars_eq_ci(&f, &['b', 'l', 'k'])
        {
            Some(ControlType::Blank)
        } else if chars_eq_ci(&f, &['s', 'a', 'm', 'p', 'l', 'e']) || chars_eq_ci(
            &f,
            &['s', 'p', 'l'],
        ) {
            Some(ControlType::Sample)
        } else {
            None
        }
    }
}

/// Compare collected characters against a fixed pattern, ignoring ASCII case.
fn chars_eq_ci(a: &Vec<char>, b: &[char]) -> (r: bool)
    ensures
        r == ci_seq_eq(a@, b@),
{
    if a.len() != b.len() {
        return false;
    }
    let n = a.len();
    let mut i: usize = 0;
    while i < n
        invariant
            i <= n,
            n == a@.len() == b@.len(),
            forall|k: int| 0 <= k < i ==> spec_eq_ci(a@[k], b@[k]),
        decreases n - i,
    {
        if !eq_ci(a[i], b[i]) {
            return false;
        }
        i = i + 1;
    }
    true
}

/// Supported instrument vendors.
#[derive(Debug, Clone, Copy, PartialEq, Eq, Hash, Structural)]
pub enum Vendor {
    Thermo,
    Bruker,
    Sciex,
    Waters,
    Agilent,
}

impl Vendor {
    /// The artifact file extensions of the vendor.
    pub open spec fn spec_extensions(self) -> Seq<Seq<char>> {
        match self {
            Vendor::Thermo => seq!["raw"@],
            Vendor::Bruker => seq!["d"@],
            Vendor::Sciex => seq!["wiff"@, "wiff2"@],
            Vendor::Waters => seq!["raw"@],
            Vendor::Agilent => seq!["d"@],
        }
    }

    /// The artifact file extensions of the vendor.
    pub fn extensions(&self) -> (r: Vec<&'static str>)
        ensures
            r.deep_view() == self.spec_extensions(),
    {
        let r: Vec<&'static str> = match self {
            Vendor::Thermo => vec!["raw"],
            Vendor::Bruker => vec!["d"],
            Vendor::Sciex => vec!["wiff", "wiff2"],
            Vendor::Waters => vec!["raw"],
            Vendor::Agilent => vec!["d"],
        };
        proof {
            assert(r.deep_view() =~= self.spec_extensions());
        }
        r
    }

    /// Whether the vendor's artifact is a directory tree rather than a file.
    pub fn is_directory_format(&self) -> (r: bool)
        ensures
            r == (*self is Bruker || *self is Waters || *self is Agilent),
    {
        matches!(self, Vendor::Bruker | Vendor::Waters | Vendor::Agilent)
    }

    /// The lower-case wire label of the vendor.
    pub open spec fn spec_label(self) -> Seq<char> {
        match self {
            Vendor::Thermo => "thermo"@,
            Vendor::Bruker => "bruker"@,
            Vendor::Sciex => "sciex"@,
            Vendor::Waters => "waters"@,
            Vendor::Agilent => "agilent"@,
        }
    }

    /// Render the vendor as its lower-case wire label.
    pub fn label(&self) -> (r: String)
        ensures
            r@ == self.spec_label(),
    {
        match self {
            Vendor::Thermo => String::from_str("thermo"),
            Vendor::Bruker => String::from_str("bruker"),
            Vendor::Sciex => String::from_str("sciex"),
            Vendor::Waters => String::from_str("waters"),
            Vendor::Agilent => String::from_str("agilent"),
        }
    }

    /// The vendor a label names, ignoring ASCII case.
    pub open spec fn spec_from_str(s: Seq<char>) -> Option<Vendor> {
        if ci_seq_eq(s, "thermo"@) {
            Option::Some(Vendor::Thermo)
        } else if ci_seq_eq(s, "bruker"@) {
            Option::Some(Vendor::Bruker)
        } else if ci_seq_eq(s, "sciex"@) {
            Option::Some(Vendor::Sciex)
        } else if ci_seq_eq(s, "waters"@) {
            Option::Some(Vendor::Waters)
        } else if ci_seq_eq(s, "agilent"@) {
            Option::Some(Vendor::Agilent)
        } else {
            Option::None
        }
    }

    /// Parse a vendor label, ignoring ASCII case. The error carries the
    /// unrecognised input.
    pub fn from_str(s: &str) -> (r: Result<Vendor, String>)
        ensures
            match r {
                Ok(v) => Vendor::spec_from_str(s@) == Option::Some(v),
                Err(msg) => Vendor::spec_from_str(s@) is None && msg@ == "unknown vendor: "@
                    + s@,
            },
    {
        proof {
            reveal_strlit("thermo");
            reveal_strlit("bruker");
            reveal_strlit("sciex");
            reveal_strlit("waters");
            reveal_strlit("agilent");
        }
        if str_eq_ci_lit(s, "thermo") {
            Ok(Vendor::Thermo)
        } else if str_eq_ci_lit(s, "bruker") {
            Ok(Vendor::Bruker)
        } else if str_eq_ci_lit(s, "sciex") {
            Ok(Vendor::Sciex)
        } else if str_eq_ci_lit(s, "waters") {
            Ok(Vendor::Waters)
        } else if str_eq_ci_lit(s, "agilent") {
            Ok(Vendor::Agilent)
        } else {
            Err(String::from_str("unknown vendor: ").concat(s))
        }
    }
}

/// Compare two strings, ignoring ASCII case.
pub fn str_eq_ci_lit(s: &str, t: &str) -> (r: bool)
    ensures
        r == ci_seq_eq(s@, t@),
{
    let n = s.unicode_len();
    if n != t.unicode_len() {
        return false;
    }
    let mut i: usize = 0;
    while i < n
        invariant
            i <= n,
            n == s@.len() == t@.len(),
            forall|k: int| 0 <= k < i ==> spec_eq_ci(s@[k], t@[k]),
        decreases n - i,
    {
        if !eq_ci(s.get_char(i), t.get_char(i)) {
            return false;
        }
        i = i + 1;
    }
    true
}

/// A position on a 96-well plate: rows `A`-`H`, columns 1-12.
#[derive(Debug, Clone, Copy, PartialEq, Eq, Hash, Structural)]
pub struct WellPosition {
    /// Row letter, always upper-case `A`-`H`.
    pub row: char,
    /// Column number, always 1-12.
    pub column: u8,
}

/// Upper-case folding of a plate row letter.
pub open spec fn spec_upper_row(c: char) -> char {
    if c == 'a' {
        'A'
    } else if c == 'b' {
        'B'
    } else if c == 'c' {
        'C'
    } else if c == 'd' {
        'D'
    } else if c == 'e' {
        'E'
    } else if c == 'f' {
        'F'
    } else if c == 'g' {
        'G'
    } else if c == 'h' {
        'H'
    } else {
        c
    }
}

/// A well-formed well position.
pub open spec fn spec_well_ok(row: char, column: u8) -> bool {
    'A' <= spec_upper_row(row) && spec_upper_row(row) <= 'H' && 1 <= column && column <= 12
}

/// The well position a trimmed label names: a row letter followed by one or
/// two digit characters, subject to the row and column bounds.
pub open spec fn spec_well_from_str(s: Seq<char>) -> Option<WellPosition> {
    let t = crate::text::spec_trim(s);
    if t.len() == 2 && crate::text::spec_is_digit(t[1]) {
        spec_well_new(t[0], crate::text::spec_digit_val(t[1]) as u8)
    } else if t.len() == 3 && crate::text::spec_is_digit(t[1]) && crate::text::spec_is_digit(
        t[2],
    ) {
        spec_well_new(t[0], (10 * crate::text::spec_digit_val(t[1]) + crate::text::spec_digit_val(
            t[2],
        )) as u8)
    } else {
        Option::None
    }
}

/// The plate label of a well: the row letter followed by the column in
/// decimal, `A1` through `H12`.
pub open spec fn spec_well_label(w: WellPosition) -> Seq<char> {
    if w.column < 10 {
        seq![w.row, crate::text::digit_char(w.column as int)]
    } else {
        seq![w.row, '1', crate::text::digit_char(w.column as int - 10)]
    }
}

/// What `WellPosition::new` yields.
pub open spec fn spec_well_new(row: char, column: u8) -> Option<WellPosition> {
    if spec_well_ok(row, column) {
        Option::Some(WellPosition { row: spec_upper_row(row), column })
    } else {
        Option::None
    }
}

impl WellPosition {
    /// Build a well position; the row is case-folded. `None` when the row is
    /// outside `A`-`H` or the column outside 1-12.
    pub fn new(row: char, column: u8) -> (r: Option<WellPosition>)
        ensures
            spec_well_ok(row, column) ==> r == Option::Some(
                WellPosition { row: spec_upper_row(row), column },
            ),
            !spec_well_ok(row, column) ==> r is None,
    {
        let row = upper_row(row);
        if 'A' <= row && row <= 'H' && 1 <= column && column <= 12 {
            Some(WellPosition { row, column })
        } else {
            None
        }
    }

    /// Parse a plate label such as `A1` or `h12`, with surrounding ASCII
    /// whitespace ignored.
    pub fn from_str(s: &str) -> (r: Option<WellPosition>)
        ensures
            r == spec_well_from_str(s@),
    {
        let (start, end) = crate::text::trim_bounds(s);
        let n = end - start;
        if n < 2 || n > 3 {
            return None;
        }
        let row = s.get_char(start);
        let d1 = s.get_char(start + 1);
        if !crate::text::is_digit_char(d1) {
            return None;
        }
        if n == 2 {
            WellPosition::new(row, crate::text::digit_val_char(d1))
        } else {
            let d2 = s.get_char(start + 2);
            if !crate::text::is_digit_char(d2) {
                return None;
            }
            let col = 10 * crate::text::digit_val_char(d1) + crate::text::digit_val_char(d2);
            WellPosition::new(row, col)
        }
    }

    /// Render the position as its plate label, such as `A1` or `H12`.
    pub fn label(&self) -> (r: String)
        requires
            self.column <= 12,
        ensures
            r@ == spec_well_label(*self),
    {
        let mut s = String::new();
        push_char(&mut s, self.row);
        if self.column >= 10 {
            push_char(&mut s, '1');
            push_char(&mut s, digit_of(self.column - 10));
        } else {
            push_char(&mut s, digit_of(self.column));
        }
        s
    }
}

fn upper_row(c: char) -> (r: char)
    ensures
        r == spec_upper_row(c),
{
    match c {
        'a' => 'A',
        'b' => 'B',
        'c' => 'C',
        'd' => 'D',
        'e' => 'E',
        'f' => 'F',
        'g' => 'G',
        'h' => 'H',
        other => other,
    }
}

fn digit_of(d: u8) -> (c: char)
    requires
        d < 10,
    ensures
        c == crate::text::digit_char(d as int),
{
    match d {
        0 => '0',
        1 => '1',
        2 => '2',
        3 => '3',
        4 => '4',
        5 => '5',
        6 => '6',
        7 => '7',
        8 => '8',
        _ => '9',
    }
}

/// Classification confidence level.
#[derive(Debug, Clone, Copy, PartialEq, Eq, Structural)]
pub enum ClassificationConfidence {
    High,
    Medium,
    Low,
}

/// Where a classification decision came from.
#[derive(Debug, Clone, Copy, PartialEq, Eq, Structural)]
pub enum ClassificationSource {
    Filename,
    Metadata,
    Position,
    Default,
}

/// Result of classifying a run.
#[derive(Debug, Clone)]
pub struct RunClassification {
    pub control_type: ControlType,
    pub well_position: Option<WellPosition>,
    pub instrument_id: String,
    pub plate_id: Option<String>,
    pub confidence: ClassificationConfidence,
    pub source: ClassificationSource,
}

/// State of an artifact in the finalization process.
#[derive(Debug, Clone, Copy, PartialEq, Eq, Structural)]
pub enum FinalizationState {
    Detected,
    Stabilizing,
    Ready,
    Processing,
    Done,
    Failed,
}

/// A detected raw artifact being tracked. Instants are UTC seconds.
#[derive(Debug, Clone)]
pub struct TrackedFile {
    pub path: String,
    pub state: FinalizationState,
    pub first_seen: i64,
    pub last_size: u64,
    pub last_modified: i64,
    pub stable_since: Option<i64>,
    pub vendor: Vendor,
}

/// Logging verbosity.
#[derive(Debug, Clone, Copy, PartialEq, Eq, Structural)]
pub enum LogLevel {
    Error,
    Warn,
    Info,
    Debug,
    Trace,
}

impl LogLevel {
    /// The lower-case name of the level.
    pub fn as_str(&self) -> (r: &'static str)
        ensures
            r@ == match *self {
                LogLevel::Error => "error"@,
                LogLevel::Warn => "warn"@,
                LogLevel::Info => "info"@,
                LogLevel::Debug => "debug"@,
                LogLevel::Trace => "trace"@,
            },
    {
        match self {
            LogLevel::Error => "error",
            LogLevel::Warn => "warn",
            LogLevel::Info => "info",
            LogLevel::Debug => "debug",
            LogLevel::Trace => "trace",
        }
    }
}

/// Lifecycle state of a baseline record.
#[derive(Debug, Clone, Copy, PartialEq, Eq, Structural)]
pub enum BaselineState {
    Candidate,
    Validating,
    Active,
    Archived,
    Rejected,
    Failed,
}

/// The run part of the upload envelope. Measurements are carried separately;
/// this holds identity and classification only. Instants are UTC seconds.
#[derive(Debug, Clone)]
pub struct RunInfo {
    pub run_id: String,
    pub raw_file_name: String,
    pub raw_file_hash: String,
    pub acquisition_time: Option<i64>,
    pub instrument_id: String,
    pub vendor: Vendor,
    pub control_type: ControlType,
    pub well_position: Option<String>,
    pub plate_id: Option<String>,
    pub classification_confidence: ClassificationConfidence,
    pub classification_source: ClassificationSource,
}

/// The extractor part of the upload envelope.
#[derive(Debug, Clone)]
pub struct ExtractionInfo {
    pub backend: String,
    pub backend_version: String,
    pub template_name: String,
    pub template_hash: String,
    pub extraction_time_ms: u64,
    pub status: String,
}

} // verus!
