//! Run classification from file names and well positions.
//!
//! The grammar is fixed: control-role tokens (`SSC0`, `QCA`, `QCB`,
//! `BLANK`/`BLK`, each allowing an optional `_` or `-` between letters and
//! digits) and well positions (`A`-`H` followed by 1-12) are matched
//! case-insensitively, and only when bounded by delimiters (`_`, `-`, `.`,
//! whitespace, or an end of the name). Role priority is
//! SSC0 > QC_A > QC_B > Blank; a well without a role falls back to plate
//! defaults, and everything else is a plain sample.

use vstd::prelude::*;

use crate::config::InstrumentConfig;
use crate::errors::ClassificationError;
use crate::text::{eq_ci, spec_eq_ci, spec_is_digit, file_name_of, spec_file_name};
use crate::types::{
    ClassificationConfidence, ClassificationSource, ControlType, RunClassification, WellPosition,
    spec_upper_row,
};

verus! {

/// Token delimiters: underscore, dash, dot and ASCII whitespace.
pub open spec fn is_delim(c: char) -> bool {
    c == '_' || c == '-' || c == '.' || c == ' ' || c == '\t' || c == '\n' || c == '\r'
        || c == '\u{b}' || c == '\u{c}'
}

/// A delimiter, or the start of the name, stands just before index `i`.
pub open spec fn delim_before(s: Seq<char>, i: int) -> bool {
    i == 0 || (0 < i <= s.len() && is_delim(s[i - 1]))
}

/// A delimiter, or the end of the name, stands at index `j`.
pub open spec fn delim_after(s: Seq<char>, j: int) -> bool {
    j == s.len() || (0 <= j < s.len() && is_delim(s[j]))
}

/// The character at `i` equals `c` up to ASCII case.
pub open spec fn ci_at(s: Seq<char>, i: int, c: char) -> bool {
    0 <= i < s.len() && spec_eq_ci(s[i], c)
}

/// An `SSC0` token starts at `i`: `ssc0`, `ssc_0`, `ssc-0` or bare `ssc`,
/// bounded by delimiters.
pub open spec fn ssc0_at(s: Seq<char>, i: int) -> bool {
    delim_before(s, i) && ci_at(s, i, 's') && ci_at(s, i + 1, 's') && ci_at(s, i + 2, 'c') && (
        (ci_at(s, i + 3, '0') && delim_after(s, i + 4)) || ((s[i + 3] == '_' || s[i + 3] == '-')
            && i + 3 < s.len() && ci_at(s, i + 4, '0') && delim_after(s, i + 5)) || delim_after(
            s,
            i + 3,
        ))
}

/// A `QC` token with the given trailing letter starts at `i`: `qcx` or
/// `qc_x`/`qc-x`, bounded by delimiters.
pub open spec fn qc_at(s: Seq<char>, i: int, letter: char) -> bool {
    delim_before(s, i) && ci_at(s, i, 'q') && ci_at(s, i + 1, 'c') && ((ci_at(s, i + 2, letter)
        && delim_after(s, i + 3)) || ((s[i + 2] == '_' || s[i + 2] == '-') && i + 2 < s.len()
        && ci_at(s, i + 3, letter) && delim_after(s, i + 4)))
}

/// A blank token starts at `i`: `blank` or `blk`, bounded by delimiters.
pub open spec fn blank_at(s: Seq<char>, i: int) -> bool {
    delim_before(s, i) && ci_at(s, i, 'b') && ci_at(s, i + 1, 'l') && ((ci_at(s, i + 2, 'a')
        && ci_at(s, i + 3, 'n') && ci_at(s, i + 4, 'k') && delim_after(s, i + 5)) || (ci_at(
        s,
        i + 2,
        'k',
    ) && delim_after(s, i + 3)))
}

pub open spec fn has_ssc0(s: Seq<char>) -> bool {
    exists|i: int| ssc0_at(s, i)
}

pub open spec fn has_qca(s: Seq<char>) -> bool {
    exists|i: int| qc_at(s, i, 'a')
}

pub open spec fn has_qcb(s: Seq<char>) -> bool {
    exists|i: int| qc_at(s, i, 'b')
}

pub open spec fn has_blank(s: Seq<char>) -> bool {
    exists|i: int| blank_at(s, i)
}

/// A plate row letter, `A`-`H` in either case.
pub open spec fn is_row_letter(c: char) -> bool {
    ('A' <= c && c <= 'H') || ('a' <= c && c <= 'h')
}

/// A well token starts at `i`: a row letter then a column 1-12, bounded by
/// delimiters.
pub open spec fn well_at(s: Seq<char>, i: int) -> bool {
    delim_before(s, i) && 0 <= i < s.len() && is_row_letter(s[i]) && (well_two_digit_at(s, i)
        || well_one_digit_at(s, i))
}

/// The column is written with two digits: `10`, `11` or `12`.
pub open spec fn well_two_digit_at(s: Seq<char>, i: int) -> bool {
    i + 2 < s.len() && s[i + 1] == '1' && '0' <= s[i + 2] && s[i + 2] <= '2' && delim_after(
        s,
        i + 3,
    )
}

/// The column is written with one digit: `1`-`9`.
pub open spec fn well_one_digit_at(s: Seq<char>, i: int) -> bool {
    i + 1 < s.len() && '1' <= s[i + 1] && s[i + 1] <= '9' && delim_after(s, i + 2)
}

/// The well position written at `i`.
pub open spec fn well_of(s: Seq<char>, i: int) -> WellPosition {
    WellPosition {
        row: spec_upper_row(s[i]),
        column: if well_two_digit_at(s, i) {
            (10 + crate::text::spec_digit_val(s[i + 2])) as u8
        } else {
            crate::text::spec_digit_val(s[i + 1]) as u8
        },
    }
}

pub open spec fn has_well(s: Seq<char>) -> bool {
    exists|i: int| well_at(s, i)
}

/// The index of the leftmost well token.
pub open spec fn first_well_index(s: Seq<char>) -> int {
    choose|i: int| well_at(s, i) && forall|j: int| 0 <= j < i ==> !well_at(s, j)
}

/// The leftmost well token of the name, if any.
pub open spec fn spec_first_well(s: Seq<char>) -> Option<WellPosition> {
    if has_well(s) {
        Option::Some(well_of(s, first_well_index(s)))
    } else {
        Option::None
    }
}

/// The control role named in the file name itself, by priority.
pub open spec fn spec_filename_role(s: Seq<char>) -> Option<ControlType> {
    if has_ssc0(s) {
        Option::Some(ControlType::Ssc0)
    } else if has_qca(s) {
        Option::Some(ControlType::QcA)
    } else if has_qcb(s) {
        Option::Some(ControlType::QcB)
    } else if has_blank(s) {
        Option::Some(ControlType::Blank)
    } else {
        Option::None
    }
}

/// Plate defaults: wells `A1`-`A2` carry the full-workflow control, `A3`-`A4`
/// the LCMS control, anything else is a plain sample.
pub open spec fn spec_infer_from_well(w: WellPosition) -> ControlType {
    if w.row == 'A' && (w.column == 1 || w.column == 2) {
        ControlType::QcA
    } else if w.row == 'A' && (w.column == 3 || w.column == 4) {
        ControlType::QcB
    } else {
        ControlType::Sample
    }
}

/// The control role and its source for a file name: a role named in the file
/// name wins; otherwise a well's plate default applies; otherwise the run is
/// a plain sample.
pub open spec fn spec_control_type(s: Seq<char>) -> (ControlType, ClassificationSource) {
    match spec_filename_role(s) {
        Option::Some(ct) => (ct, ClassificationSource::Filename),
        Option::None => match spec_first_well(s) {
            Option::Some(w) => if spec_infer_from_well(w) != ControlType::Sample {
                (spec_infer_from_well(w), ClassificationSource::Position)
            } else {
                (ControlType::Sample, ClassificationSource::Default)
            },
            Option::None => (ControlType::Sample, ClassificationSource::Default),
        },
    }
}

/// The confidence table: a role from the file name with a well is high; a
/// role from the file name without a well, or a well-derived role, is
/// medium; everything else is low.
pub open spec fn spec_confidence(
    ct: ControlType,
    well: Option<WellPosition>,
    source: ClassificationSource,
) -> ClassificationConfidence {
    if !(ct is Sample) && well is Some && source is Filename {
        ClassificationConfidence::High
    } else if !(ct is Sample) && well is None && source is Filename {
        ClassificationConfidence::Medium
    } else if well is Some && source is Position {
        ClassificationConfidence::Medium
    } else {
        ClassificationConfidence::Low
    }
}

/// Run classifier. Matching is by the fixed grammar above; the classifier
/// itself holds no state.
pub struct Classifier {}

impl Classifier {
    pub fn new() -> (r: Classifier) {
        Classifier {  }
    }

    /// Classify a run from its path and instrument. Fails exactly when the
    /// path has no file-name component; otherwise the result follows the
    /// role, well, plate and confidence rules of the grammar.
    pub fn classify(&self, path: &str, instrument: &InstrumentConfig) -> (r: Result<
        RunClassification,
        ClassificationError,
    >)
        ensures
            match r {
                Ok(c) => {
                    &&& spec_file_name(path@) is Some
                    &&& {
                        let name = spec_file_name(path@)->Some_0;
                        &&& (c.control_type, c.source) == spec_control_type(name)
                        &&& c.well_position == spec_first_well(name)
                        &&& match c.plate_id {
                            Option::Some(p) => spec_first_plate(name) == Option::Some(p@),
                            Option::None => spec_first_plate(name) is None,
                        }
                        &&& c.confidence == spec_confidence(
                            c.control_type,
                            c.well_position,
                            c.source,
                        )
                        &&& c.instrument_id@ == instrument.id@
                    }
                },
                Err(e) => spec_file_name(path@) is None && (e matches
                    ClassificationError::FilenameParse(p) && p@ == path@),
            },
    {
        let name_owned = match file_name_of(path) {
            Some(n) => n,
            None => {
                return Err(ClassificationError::FilenameParse(path.to_owned()));
            },
        };
        let name = name_owned.as_str();

        let (control_type, source) = self.extract_control_type(name);
        let well_position = self.extract_well_position(name);
        let plate_id = self.extract_plate_id(name);

        // For confidence, what matters is that a control role was matched;
        // blanks count here even though they produce no payload downstream.
        let role_matched = !matches!(control_type, ControlType::Sample);
        let confidence = if role_matched && well_position.is_some() && matches!(
            source,
            ClassificationSource::Filename,
        ) {
            ClassificationConfidence::High
        } else if role_matched && well_position.is_none() && matches!(
            source,
            ClassificationSource::Filename,
        ) {
            ClassificationConfidence::Medium
        } else if well_position.is_some() && matches!(source, ClassificationSource::Position) {
            ClassificationConfidence::Medium
        } else {
            ClassificationConfidence::Low
        };

        Ok(RunClassification {
            control_type,
            well_position,
            instrument_id: instrument.id.clone(),
            plate_id,
            confidence,
            source,
        })
    }

    /// The control role of a file name, with the source of the decision.
    pub fn extract_control_type(&self, name: &str) -> (r: (ControlType, ClassificationSource))
        ensures
            r == spec_control_type(name@),
    {
        if has_ssc0_exec(name) {
            return (ControlType::Ssc0, ClassificationSource::Filename);
        }
        if has_qc_exec(name, 'a') {
            return (ControlType::QcA, ClassificationSource::Filename);
        }
        if has_qc_exec(name, 'b') {
            return (ControlType::QcB, ClassificationSource::Filename);
        }
        if has_blank_exec(name) {
            return (ControlType::Blank, ClassificationSource::Filename);
        }
        match self.extract_well_position(name) {
            Some(w) => {
                let inferred = self.infer_control_type_from_well(&w);
                if !matches!(inferred, ControlType::Sample) {
                    (inferred, ClassificationSource::Position)
                } else {
                    (ControlType::Sample, ClassificationSource::Default)
                }
            },
            None => (ControlType::Sample, ClassificationSource::Default),
        }
    }

    /// The leftmost well token of a file name.
    pub fn extract_well_position(&self, name: &str) -> (r: Option<WellPosition>)
        ensures
            r == spec_first_well(name@),
    {
        let len = name.unicode_len();
        let mut i: usize = 0;
        while i < len
            invariant
                i <= len,
                len == name@.len(),
                forall|j: int| 0 <= j < i ==> !well_at(name@, j),
            decreases len - i,
        {
            if well_at_exec(name, len, i) {
                let w = well_value_exec(name, len, i);
                proof {
                    let fi = first_well_index(name@);
                    assert(well_at(name@, i as int) && forall|j: int|
                        0 <= j < i ==> !well_at(name@, j));
                    assert(well_at(name@, fi) && forall|j: int| 0 <= j < fi ==> !well_at(name@, j));
                    if fi < i as int {
                        assert(!well_at(name@, fi));
                    }
                    if (i as int) < fi {
                        assert(!well_at(name@, i as int));
                    }
                    assert(fi == i as int);
                }
                return Some(w);
            }
            i = i + 1;
        }
        proof {
            assert(forall|j: int| 0 <= j < name@.len() ==> !well_at(name@, j));
            if has_well(name@) {
                let i = choose|i: int| well_at(name@, i);
                assert(!well_at(name@, i));
            }
        }
        None
    }

    /// The plate token of a file name, if any.
    pub fn extract_plate_id(&self, name: &str) -> (r: Option<String>)
        ensures
            match r {
                Some(p) => spec_first_plate(name@) == Option::Some(p@),
                None => spec_first_plate(name@) is None,
            },
    {
        plate_of(name)
    }

    /// Plate defaults for a bare well: `A1`/`A2` name the full-workflow
    /// control, `A3`/`A4` the LCMS control, anything else a plain sample.
    pub fn infer_control_type_from_well(&self, well: &WellPosition) -> (r: ControlType)
        ensures
            r == spec_infer_from_well(*well),
    {
        if well.row == 'A' {
            match well.column {
                1 | 2 => return ControlType::QcA,
                3 | 4 => return ControlType::QcB,
                _ => {},
            }
        }
        ControlType::Sample
    }
}

impl Default for Classifier {
    fn default() -> (r: Classifier) {
        Classifier::new()
    }
}

/// Classifier determinism: every classification field is pinned by
/// `classify`'s contract to a function of the file name alone, so any two
/// results for one name agree.
pub proof fn lemma_classify_deterministic(
    name: Seq<char>,
    c1: RunClassification,
    c2: RunClassification,
)
    requires
        (c1.control_type, c1.source) == spec_control_type(name),
        c1.well_position == spec_first_well(name),
        c1.confidence == spec_confidence(c1.control_type, c1.well_position, c1.source),
        (c2.control_type, c2.source) == spec_control_type(name),
        c2.well_position == spec_first_well(name),
        c2.confidence == spec_confidence(c2.control_type, c2.well_position, c2.source),
    ensures
        c1.control_type == c2.control_type,
        c1.source == c2.source,
        c1.well_position == c2.well_position,
        c1.confidence == c2.confidence,
{
}

fn is_delim_char(c: char) -> (r: bool)
    ensures
        r == is_delim(c),
{
    c == '_' || c == '-' || c == '.' || c == ' ' || c == '\t' || c == '\n' || c == '\r'
        || c == '\u{b}' || c == '\u{c}'
}

/// Whether index `i` begins a token: a delimiter or the start stands before.
fn delim_before_exec(s: &str, len: usize, i: usize) -> (r: bool)
    requires
        len == s@.len(),
        i <= len,
    ensures
        r == delim_before(s@, i as int),
{
    i == 0 || is_delim_char(s.get_char(i - 1))
}

/// Whether a token ends at index `j`: the end of the name or a delimiter.
fn delim_after_exec(s: &str, len: usize, j: usize) -> (r: bool)
    requires
        len == s@.len(),
    ensures
        r == delim_after(s@, j as int),
{
    j == len || (j < len && is_delim_char(s.get_char(j)))
}

fn ci_at_exec(s: &str, len: usize, i: usize, c: char) -> (r: bool)
    requires
        len == s@.len(),
    ensures
        r == ci_at(s@, i as int, c),
{
    i < len && eq_ci(s.get_char(i), c)
}

fn ssc0_at_exec(s: &str, len: usize, i: usize) -> (r: bool)
    requires
        len == s@.len(),
        i < len,
    ensures
        r == ssc0_at(s@, i as int),
{
    if !delim_before_exec(s, len, i) {
        return false;
    }
    if !(ci_at_exec(s, len, i, 's') && ci_at_exec(s, len, i + 1, 's') && ci_at_exec(
        s,
        len,
        i + 2,
        'c',
    )) {
        return false;
    }
    // Bare `ssc` bounded by a delimiter.
    if delim_after_exec(s, len, i + 3) {
        return true;
    }
    // `ssc0`.
    if ci_at_exec(s, len, i + 3, '0') && delim_after_exec(s, len, i + 4) {
        return true;
    }
    // `ssc_0` or `ssc-0`.
    if i + 3 < len {
        let m = s.get_char(i + 3);
        if (m == '_' || m == '-') && ci_at_exec(s, len, i + 4, '0') && delim_after_exec(
            s,
            len,
            i + 5,
        ) {
            return true;
        }
    }
    false
}

fn qc_at_exec(s: &str, len: usize, i: usize, letter: char) -> (r: bool)
    requires
        len == s@.len(),
        i < len,
    ensures
        r == qc_at(s@, i as int, letter),
{
    if !delim_before_exec(s, len, i) {
        return false;
    }
    if !(ci_at_exec(s, len, i, 'q') && ci_at_exec(s, len, i + 1, 'c')) {
        return false;
    }
    if ci_at_exec(s, len, i + 2, letter) && delim_after_exec(s, len, i + 3) {
        return true;
    }
    if i + 2 < len {
        let m = s.get_char(i + 2);
        if (m == '_' || m == '-') && ci_at_exec(s, len, i + 3, letter) && delim_after_exec(
            s,
            len,
            i + 4,
        ) {
            return true;
        }
    }
    false
}

fn blank_at_exec(s: &str, len: usize, i: usize) -> (r: bool)
    requires
        len == s@.len(),
        i < len,
    ensures
        r == blank_at(s@, i as int),
{
    if !delim_before_exec(s, len, i) {
        return false;
    }
    if !(ci_at_exec(s, len, i, 'b') && ci_at_exec(s, len, i + 1, 'l')) {
        return false;
    }
    if ci_at_exec(s, len, i + 2, 'a') && ci_at_exec(s, len, i + 3, 'n') && ci_at_exec(
        s,
        len,
        i + 4,
        'k',
    ) && delim_after_exec(s, len, i + 5) {
        return true;
    }
    if ci_at_exec(s, len, i + 2, 'k') && delim_after_exec(s, len, i + 3) {
        return true;
    }
    false
}

fn has_ssc0_exec(s: &str) -> (r: bool)
    ensures
        r == has_ssc0(s@),
{
    let len = s.unicode_len();
    let mut i: usize = 0;
    while i < len
        invariant
            i <= len,
            len == s@.len(),
            forall|j: int| 0 <= j < i ==> !ssc0_at(s@, j),
        decreases len - i,
    {
        if ssc0_at_exec(s, len, i) {
            return true;
        }
        i = i + 1;
    }
    proof {
        if has_ssc0(s@) {
            let j = choose|j: int| ssc0_at(s@, j);
            assert(ci_at(s@, j, 's'));
            assert(!ssc0_at(s@, j));
        }
    }
    false
}

fn has_qc_exec(s: &str, letter: char) -> (r: bool)
    ensures
        letter == 'a' ==> r == has_qca(s@),
        letter == 'b' ==> r == has_qcb(s@),
{
    let len = s.unicode_len();
    let mut i: usize = 0;
    while i < len
        invariant
            i <= len,
            len == s@.len(),
            forall|j: int| 0 <= j < i ==> !qc_at(s@, j, letter),
        decreases len - i,
    {
        if qc_at_exec(s, len, i, letter) {
            return true;
        }
        i = i + 1;
    }
    proof {
        if exists|j: int| qc_at(s@, j, letter) {
            let j = choose|j: int| qc_at(s@, j, letter);
            assert(ci_at(s@, j, 'q'));
            assert(!qc_at(s@, j, letter));
        }
    }
    false
}

fn has_blank_exec(s: &str) -> (r: bool)
    ensures
        r == has_blank(s@),
{
    let len = s.unicode_len();
    let mut i: usize = 0;
    while i < len
        invariant
            i <= len,
            len == s@.len(),
            forall|j: int| 0 <= j < i ==> !blank_at(s@, j),
        decreases len - i,
    {
        if blank_at_exec(s, len, i) {
            return true;
        }
        i = i + 1;
    }
    proof {
        if has_blank(s@) {
            let j = choose|j: int| blank_at(s@, j);
            assert(ci_at(s@, j, 'b'));
            assert(!blank_at(s@, j));
        }
    }
    false
}

fn is_row_letter_char(c: char) -> (r: bool)
    ensures
        r == is_row_letter(c),
{
    ('A' <= c && c <= 'H') || ('a' <= c && c <= 'h')
}

fn well_at_exec(s: &str, len: usize, i: usize) -> (r: bool)
    requires
        len == s@.len(),
        i < len,
    ensures
        r == well_at(s@, i as int),
{
    if !delim_before_exec(s, len, i) {
        return false;
    }
    if !is_row_letter_char(s.get_char(i)) {
        return false;
    }
    well_two_digit_exec(s, len, i) || well_one_digit_exec(s, len, i)
}

fn well_two_digit_exec(s: &str, len: usize, i: usize) -> (r: bool)
    requires
        len == s@.len(),
        i < len,
    ensures
        r == well_two_digit_at(s@, i as int),
{
    if len - i > 2 {
        let c1 = s.get_char(i + 1);
        let c2 = s.get_char(i + 2);
        c1 == '1' && '0' <= c2 && c2 <= '2' && delim_after_exec(s, len, i + 3)
    } else {
        false
    }
}

fn well_one_digit_exec(s: &str, len: usize, i: usize) -> (r: bool)
    requires
        len == s@.len(),
        i < len,
    ensures
        r == well_one_digit_at(s@, i as int),
{
    if len - i > 1 {
        let c1 = s.get_char(i + 1);
        '1' <= c1 && c1 <= '9' && delim_after_exec(s, len, i + 2)
    } else {
        false
    }
}

fn well_value_exec(s: &str, len: usize, i: usize) -> (r: WellPosition)
    requires
        len == s@.len(),
        i < len,
        well_at(s@, i as int),
    ensures
        r == well_of(s@, i as int),
{
    let row = upper_row_exec(s.get_char(i));
    if well_two_digit_exec(s, len, i) {
        let d = crate::text::digit_val_char(s.get_char(i + 2));
        WellPosition { row, column: 10 + d }
    } else {
        let d = crate::text::digit_val_char(s.get_char(i + 1));
        WellPosition { row, column: d }
    }
}

fn upper_row_exec(c: char) -> (r: char)
    ensures
        r == spec_upper_row(c),
{
    match c {
        'a' => 'A',
        'b' => 'B',
        'c' => 'C',
        'd' => 'D',
        'e' => 'E',
        'f' => 'F',
        'g' => 'G',
        'h' => 'H',
        other => other,
    }
}

/// Word characters: letters, digits and underscore.
pub open spec fn is_word_char(c: char) -> bool {
    ('A' <= c && c <= 'Z') || ('a' <= c && c <= 'z') || ('0' <= c && c <= '9') || c == '_'
}

/// A plate token starts at `i`: `plate` or `plt` (case-insensitive) followed
/// by an optional dash and at least one word character, or `p` followed by
/// two or more digits; in each case ending at a word boundary.
pub open spec fn plate_prefix_at(s: Seq<char>, i: int, p: Seq<char>) -> bool {
    &&& (i == 0 || (0 < i <= s.len() && !is_word_char(s[i - 1])))
    &&& i + p.len() <= s.len()
    &&& forall|k: int| 0 <= k < p.len() ==> spec_eq_ci(s[i + k], p[k])
}

/// The end of the word run starting at `j`.
pub open spec fn word_run_end(s: Seq<char>, j: int) -> int
    decreases s.len() - j,
{
    if 0 <= j < s.len() && is_word_char(s[j]) {
        word_run_end(s, j + 1)
    } else {
        j
    }
}

/// A `plate`/`plt`-style token at `i` with the given prefix: after the
/// prefix, either a word run of length one or more, or a dash followed by
/// such a run.
pub open spec fn plate_word_at(s: Seq<char>, i: int, p: Seq<char>) -> bool {
    plate_prefix_at(s, i, p) && {
        let j = i + p.len();
        (j < s.len() && is_word_char(s[j])) || (j + 1 < s.len() && s[j] == '-' && is_word_char(
            s[j + 1],
        ))
    }
}

/// The matched text of a `plate`/`plt`-style token at `i`.
pub open spec fn plate_word_match(s: Seq<char>, i: int, p: Seq<char>) -> Seq<char> {
    let j = i + p.len();
    if j < s.len() && is_word_char(s[j]) {
        s.subrange(i, word_run_end(s, j))
    } else {
        s.subrange(i, word_run_end(s, j + 1))
    }
}

/// A `p`-then-digits token at `i`: `p` followed by at least two digits,
/// ending at a word boundary.
pub open spec fn plate_num_at(s: Seq<char>, i: int) -> bool {
    &&& (i == 0 || (0 < i <= s.len() && !is_word_char(s[i - 1])))
    &&& 0 <= i < s.len() && spec_eq_ci(s[i], 'p')
    &&& digit_run_end(s, i + 1) >= i + 3
    &&& delim_word_after(s, digit_run_end(s, i + 1))
}

/// The end of the digit run starting at `j`.
pub open spec fn digit_run_end(s: Seq<char>, j: int) -> int
    decreases s.len() - j,
{
    if 0 <= j < s.len() && spec_is_digit(s[j]) {
        digit_run_end(s, j + 1)
    } else {
        j
    }
}

/// A word boundary stands at `j`: the end of the name or a non-word char.
pub open spec fn delim_word_after(s: Seq<char>, j: int) -> bool {
    j == s.len() || (0 <= j < s.len() && !is_word_char(s[j]))
}

/// A plate token of either shape starts at `i`.
pub open spec fn plate_at(s: Seq<char>, i: int) -> bool {
    plate_word_at(s, i, "plate"@) || plate_word_at(s, i, "plt"@) || plate_num_at(s, i)
}

/// The matched text of the plate token at `i`, honouring the shape priority.
pub open spec fn plate_match(s: Seq<char>, i: int) -> Seq<char> {
    if plate_word_at(s, i, "plate"@) {
        plate_word_match(s, i, "plate"@)
    } else if plate_word_at(s, i, "plt"@) {
        plate_word_match(s, i, "plt"@)
    } else {
        s.subrange(i, digit_run_end(s, i + 1))
    }
}

pub open spec fn has_plate(s: Seq<char>) -> bool {
    exists|i: int| plate_at(s, i)
}

/// The index of the leftmost plate token.
pub open spec fn first_plate_index(s: Seq<char>) -> int {
    choose|i: int| plate_at(s, i) && forall|j: int| 0 <= j < i ==> !plate_at(s, j)
}

/// The leftmost plate token of the name, if any.
pub open spec fn spec_first_plate(s: Seq<char>) -> Option<Seq<char>> {
    if has_plate(s) {
        Option::Some(plate_match(s, first_plate_index(s)))
    } else {
        Option::None
    }
}

fn is_word_char_exec(c: char) -> (r: bool)
    ensures
        r == is_word_char(c),
{
    ('A' <= c && c <= 'Z') || ('a' <= c && c <= 'z') || ('0' <= c && c <= '9') || c == '_'
}

/// The end of the word run starting at `j`.
fn word_run_end_exec(s: &str, len: usize, j: usize) -> (r: usize)
    requires
        len == s@.len(),
        j <= len,
    ensures
        r as int == word_run_end(s@, j as int),
        j <= r <= len,
    decreases len - j,
{
    if j < len && is_word_char_exec(s.get_char(j)) {
        word_run_end_exec(s, len, j + 1)
    } else {
        j
    }
}

/// The end of the digit run starting at `j`.
fn digit_run_end_exec(s: &str, len: usize, j: usize) -> (r: usize)
    requires
        len == s@.len(),
        j <= len,
    ensures
        r as int == digit_run_end(s@, j as int),
        j <= r <= len,
    decreases len - j,
{
    if j < len && crate::text::is_digit_char(s.get_char(j)) {
        digit_run_end_exec(s, len, j + 1)
    } else {
        j
    }
}

fn plate_prefix_exec(s: &str, len: usize, i: usize, p: &[char]) -> (r: bool)
    requires
        len == s@.len(),
        i < len,
    ensures
        r == plate_prefix_at(s@, i as int, p@),
{
    if !(i == 0 || !is_word_char_exec(s.get_char(i - 1))) {
        return false;
    }
    if len - i < p.len() {
        return false;
    }
    let n = p.len();
    let mut k: usize = 0;
    while k < n
        invariant
            k <= n,
            n == p@.len(),
            i + n <= len,
            len == s@.len(),
            i == 0 || (0 < i <= s@.len() && !is_word_char(s@[i as int - 1])),
            forall|t: int| 0 <= t < k ==> spec_eq_ci(s@[i + t], p@[t]),
        decreases n - k,
    {
        if !eq_ci(s.get_char(i + k), p[k]) {
            return false;
        }
        k = k + 1;
    }
    true
}

fn plate_word_exec(s: &str, len: usize, i: usize, p: &[char]) -> (r: bool)
    requires
        len == s@.len(),
        i < len,
    ensures
        r == plate_word_at(s@, i as int, p@),
{
    if !plate_prefix_exec(s, len, i, p) {
        return false;
    }
    let j = i + p.len();
    if j < len && is_word_char_exec(s.get_char(j)) {
        return true;
    }
    if j < len && s.get_char(j) == '-' && j + 1 < len && is_word_char_exec(s.get_char(j + 1)) {
        return true;
    }
    false
}

fn plate_num_exec(s: &str, len: usize, i: usize) -> (r: bool)
    requires
        len == s@.len(),
        i < len,
    ensures
        r == plate_num_at(s@, i as int),
{
    if !(i == 0 || !is_word_char_exec(s.get_char(i - 1))) {
        return false;
    }
    if !eq_ci(s.get_char(i), 'p') {
        return false;
    }
    let e = digit_run_end_exec(s, len, i + 1);
    if e - i < 3 {
        return false;
    }
    e == len || !is_word_char_exec(s.get_char(e))
}

/// The leftmost plate token of a file name.
fn plate_of(s: &str) -> (r: Option<String>)
    ensures
        match r {
            Some(p) => spec_first_plate(s@) == Option::Some(p@),
            None => spec_first_plate(s@) is None,
        },
{
    let len = s.unicode_len();
    let plate_chars: [char; 5] = ['p', 'l', 'a', 't', 'e'];
    let plt_chars: [char; 3] = ['p', 'l', 't'];
    proof {
        reveal_strlit("plate");
        reveal_strlit("plt");
        assert(plate_chars@ =~= "plate"@);
        assert(plt_chars@ =~= "plt"@);
    }
    let mut i: usize = 0;
    while i < len
        invariant
            i <= len,
            len == s@.len(),
            plate_chars@ == "plate"@,
            plt_chars@ == "plt"@,
            forall|j: int| 0 <= j < i ==> !plate_at(s@, j),
        decreases len - i,
    {
        let m_plate = plate_word_exec(s, len, i, plate_chars.as_slice());
        let m_plt = if m_plate {
            false
        } else {
            plate_word_exec(s, len, i, plt_chars.as_slice())
        };
        let m_num = if m_plate || m_plt {
            false
        } else {
            plate_num_exec(s, len, i)
        };
        if m_plate || m_plt || m_num {
            proof {
                let fi = first_plate_index(s@);
                assert(plate_at(s@, i as int));
                assert(plate_at(s@, fi) && forall|j: int| 0 <= j < fi ==> !plate_at(s@, j));
                if fi < i as int {
                    assert(!plate_at(s@, fi));
                }
                if (i as int) < fi {
                    assert(!plate_at(s@, i as int));
                }
                assert(fi == i as int);
            }
            let text = if m_plate {
                let e = word_run_end_exec(s, len, plate_end_start(s, len, i, 5));
                s.substring_char(i, e)
            } else if m_plt {
                let e = word_run_end_exec(s, len, plate_end_start(s, len, i, 3));
                s.substring_char(i, e)
            } else {
                let e = digit_run_end_exec(s, len, i + 1);
                s.substring_char(i, e)
            };
            return Some(text.to_owned());
        }
        i = i + 1;
    }
    proof {
        if has_plate(s@) {
            let j = choose|j: int| plate_at(s@, j);
            assert(0 <= j < s@.len()) by {
                if plate_word_at(s@, j, "plate"@) {
                    assert(spec_eq_ci(s@[j + 0], "plate"@[0]));
                }
                if plate_word_at(s@, j, "plt"@) {
                    assert(spec_eq_ci(s@[j + 0], "plt"@[0]));
                }
            }
            assert(!plate_at(s@, j));
        }
    }
    None
}

/// Where the word run of a plate token begins: after the prefix, skipping
/// one dash when the run continues behind it.
fn plate_end_start(s: &str, len: usize, i: usize, plen: usize) -> (r: usize)
    requires
        len == s@.len(),
        i < len,
        i + plen <= usize::MAX,
        ({
            let j = i as int + plen as int;
            (j < s@.len() && is_word_char(s@[j])) || (j + 1 < s@.len() && s@[j] == '-'
                && is_word_char(s@[j + 1]))
        }),
    ensures
        r <= len,
        ({
            let j = i as int + plen as int;
            if j < s@.len() && is_word_char(s@[j]) {
                r as int == j
            } else {
                r as int == j + 1
            }
        }),
{
    let j = i + plen;
    if j < len && is_word_char_exec(s.get_char(j)) {
        j
    } else {
        j + 1
    }
}

} // verus!
