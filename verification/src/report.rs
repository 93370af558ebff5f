//! Diagnostic and crash-reporting helpers: health-check results, their
//! summaries, URL encoding for a prefilled issue link, and the issue body
//! itself. Printing, dialogs and browsers are outside the library.

use vstd::prelude::*;

use crate::text::{push_char, spec_u64_dec, u64_to_string};

verus! {

/// The outcome of one health check.
#[derive(Debug, Clone, Copy, PartialEq, Eq, Structural)]
pub enum CheckStatus {
    Passed,
    Warning,
    Error,
    NotConfigured,
}

/// One health-check line: a status, a label, and an optional detail.
#[derive(Debug, Clone)]
pub struct CheckResult {
    pub status: CheckStatus,
    pub label: String,
    pub detail: Option<String>,
}

impl CheckResult {
    /// A passing check.
    pub fn ok(label: String) -> (r: CheckResult)
        ensures
            r.status is Passed,
            r.label == label,
            r.detail is None,
    {
        CheckResult { status: CheckStatus::Passed, label, detail: None }
    }

    /// A passing check with a detail.
    pub fn ok_with_detail(label: String, detail: String) -> (r: CheckResult)
        ensures
            r.status is Passed,
            r.label == label,
            r.detail == Option::Some(detail),
    {
        CheckResult { status: CheckStatus::Passed, label, detail: Some(detail) }
    }

    /// A warning.
    pub fn warning(label: String, detail: String) -> (r: CheckResult)
        ensures
            r.status is Warning,
            r.label == label,
            r.detail == Option::Some(detail),
    {
        CheckResult { status: CheckStatus::Warning, label, detail: Some(detail) }
    }

    /// A failing check.
    pub fn error(label: String, detail: String) -> (r: CheckResult)
        ensures
            r.status is Error,
            r.label == label,
            r.detail == Option::Some(detail),
    {
        CheckResult { status: CheckStatus::Error, label, detail: Some(detail) }
    }

    /// A check of something that is not configured.
    pub fn not_configured(label: String) -> (r: CheckResult)
        ensures
            r.status is NotConfigured,
            r.label == label,
            r.detail is None,
    {
        CheckResult { status: CheckStatus::NotConfigured, label, detail: None }
    }

    /// Whether this check failed.
    pub fn is_error(&self) -> (r: bool)
        ensures
            r == (self.status is Error),
    {
        matches!(self.status, CheckStatus::Error)
    }
}

/// An aggregated health check: healthy until an error is added.
#[derive(Debug)]
pub struct HealthCheckResult {
    pub is_healthy: bool,
    pub errors: Vec<String>,
    pub warnings: Vec<String>,
}

impl HealthCheckResult {
    /// A fresh, healthy result.
    pub fn new() -> (r: HealthCheckResult)
        ensures
            r.is_healthy,
            r.errors@.len() == 0,
            r.warnings@.len() == 0,
    {
        HealthCheckResult { is_healthy: true, errors: Vec::new(), warnings: Vec::new() }
    }

    /// Record an error; the result is unhealthy from then on.
    pub fn add_error(&mut self, msg: String)
        ensures
            !final(self).is_healthy,
            final(self).errors@ == old(self).errors@.push(msg),
            final(self).warnings@ == old(self).warnings@,
    {
        self.is_healthy = false;
        self.errors.push(msg);
    }

    /// Record a warning.
    pub fn add_warning(&mut self, msg: String)
        ensures
            final(self).is_healthy == old(self).is_healthy,
            final(self).warnings@ == old(self).warnings@.push(msg),
            final(self).errors@ == old(self).errors@,
    {
        self.warnings.push(msg);
    }

    /// A one-line summary: all clear, the warning count, or the error and
    /// warning counts.
    pub fn summary(&self) -> (r: String)
        ensures
            self.is_healthy && self.warnings@.len() == 0 ==> r@ == "All systems operational"@,
            self.is_healthy && self.warnings@.len() > 0 ==> r@ == spec_u64_dec(
                self.warnings@.len() as int,
            ) + " warning(s)"@,
            !self.is_healthy ==> r@ == spec_u64_dec(self.errors@.len() as int) + " error(s), "@
                + spec_u64_dec(self.warnings@.len() as int) + " warning(s)"@,
    {
        if self.is_healthy && self.warnings.len() == 0 {
            String::from_str("All systems operational")
        } else if self.is_healthy {
            u64_to_string(self.warnings.len() as u64).concat(" warning(s)")
        } else {
            u64_to_string(self.errors.len() as u64).concat(" error(s), ").concat(
                u64_to_string(self.warnings.len() as u64).as_str(),
            ).concat(" warning(s)")
        }
    }

    /// Every error and warning, one line each, errors first.
    pub fn details(&self) -> (r: String)
        ensures
            r@ == spec_join_lines(
                spec_prefixed(self.errors.deep_view(), "ERROR: "@) + spec_prefixed(
                    self.warnings.deep_view(),
                    "Warning: "@,
                ),
            ),
    {
        let ghost lines = spec_prefixed(self.errors.deep_view(), "ERROR: "@) + spec_prefixed(
            self.warnings.deep_view(),
            "Warning: "@,
        );
        let elen = self.errors.len();
        let wlen = self.warnings.len();
        let mut acc = String::new();
        let mut k: usize = 0;
        proof {
            assert(lines.subrange(0, 0) =~= Seq::<Seq<char>>::empty());
        }
        while k < elen
            invariant
                k <= elen,
                elen == self.errors@.len(),
                wlen == self.warnings@.len(),
                lines == spec_prefixed(self.errors.deep_view(), "ERROR: "@) + spec_prefixed(
                    self.warnings.deep_view(),
                    "Warning: "@,
                ),
                acc@ == spec_join_lines(lines.subrange(0, k as int)),
            decreases elen - k,
        {
            let line = String::from_str("ERROR: ").concat(self.errors[k].as_str());
            proof {
                reveal_strlit("\n");
                assert("\n"@ =~= seq!['\n']);
                assert(lines[k as int] == "ERROR: "@ + self.errors.deep_view()[k as int]);
                assert(lines.subrange(0, k + 1).drop_last() =~= lines.subrange(0, k as int));
                assert(lines.subrange(0, k + 1).last() == lines[k as int]);
            }
            if k == 0 {
                acc = line;
            } else {
                acc = acc.concat("\n").concat(line.as_str());
            }
            k = k + 1;
        }
        let mut j: usize = 0;
        while j < wlen
            invariant
                j <= wlen,
                elen == self.errors@.len(),
                wlen == self.warnings@.len(),
                lines == spec_prefixed(self.errors.deep_view(), "ERROR: "@) + spec_prefixed(
                    self.warnings.deep_view(),
                    "Warning: "@,
                ),
                acc@ == spec_join_lines(lines.subrange(0, elen + j as int)),
            decreases wlen - j,
        {
            let line = String::from_str("Warning: ").concat(self.warnings[j].as_str());
            proof {
                reveal_strlit("\n");
                assert("\n"@ =~= seq!['\n']);
                assert(lines[elen + j as int] == "Warning: "@ + self.warnings.deep_view()[
                    j as int]);
                assert(lines.subrange(0, elen + j + 1).drop_last() =~= lines.subrange(
                    0,
                    elen + j as int,
                ));
                assert(lines.subrange(0, elen + j + 1).last() == lines[elen + j as int]);
            }
            if elen == 0 && j == 0 {
                acc = line;
            } else {
                acc = acc.concat("\n").concat(line.as_str());
            }
            j = j + 1;
        }
        proof {
            assert(lines.subrange(0, lines.len() as int) =~= lines);
        }
        acc
    }
}

/// Each item with a prefix attached.
pub open spec fn spec_prefixed(items: Seq<Seq<char>>, prefix: Seq<char>) -> Seq<Seq<char>> {
    Seq::new(items.len(), |i: int| prefix + items[i])
}

/// Lines joined by newlines, with none trailing.
pub open spec fn spec_join_lines(lines: Seq<Seq<char>>) -> Seq<char>
    decreases lines.len(),
{
    if lines.len() == 0 {
        Seq::<char>::empty()
    } else if lines.len() == 1 {
        lines[0]
    } else {
        spec_join_lines(lines.drop_last()) + seq!['\n'] + lines.last()
    }
}

/// A plausible certificate thumbprint: forty hex digits.
pub open spec fn spec_valid_thumbprint(s: Seq<char>) -> bool {
    s.len() == 40 && forall|k: int| 0 <= k < s.len() ==> spec_is_hex_digit(#[trigger] s[k])
}

pub open spec fn spec_is_hex_digit(c: char) -> bool {
    ('0' <= c && c <= '9') || ('a' <= c && c <= 'f') || ('A' <= c && c <= 'F')
}

/// Whether a certificate thumbprint has the right shape: exactly forty hex
/// digits.
pub fn valid_thumbprint(s: &str) -> (r: bool)
    ensures
        r == spec_valid_thumbprint(s@),
{
    let n = s.unicode_len();
    if n != 40 {
        return false;
    }
    let mut i: usize = 0;
    while i < n
        invariant
            i <= n,
            n == s@.len(),
            n == 40,
            forall|k: int| 0 <= k < i ==> spec_is_hex_digit(#[trigger] s@[k]),
        decreases n - i,
    {
        let c = s.get_char(i);
        if !(('0' <= c && c <= '9') || ('a' <= c && c <= 'f') || ('A' <= c && c <= 'F')) {
            return false;
        }
        i = i + 1;
    }
    true
}

/// Characters passed through URL encoding untouched.
pub open spec fn is_unreserved(c: char) -> bool {
    ('A' <= c && c <= 'Z') || ('a' <= c && c <= 'z') || ('0' <= c && c <= '9') || c == '-' || c
        == '_' || c == '.' || c == '~'
}

/// The upper-case hexadecimal digit characters.
pub open spec fn upper_hex_char(d: int) -> char {
    seq!['0', '1', '2', '3', '4', '5', '6', '7', '8', '9', 'A', 'B', 'C', 'D', 'E', 'F'][d]
}

/// The UTF-8 encoding of one character.
pub open spec fn spec_utf8_bytes(c: char) -> Seq<u8> {
    let n = c as int;
    if n < 0x80 {
        seq![n as u8]
    } else if n < 0x800 {
        seq![(0xC0 + n / 64) as u8, (0x80 + n % 64) as u8]
    } else if n < 0x10000 {
        seq![(0xE0 + n / 4096) as u8, (0x80 + (n / 64) % 64) as u8, (0x80 + n % 64) as u8]
    } else {
        seq![
            (0xF0 + n / 262144) as u8,
            (0x80 + (n / 4096) % 64) as u8,
            (0x80 + (n / 64) % 64) as u8,
            (0x80 + n % 64) as u8,
        ]
    }
}

/// A percent-encoded byte: `%` and two upper-case hex digits.
pub open spec fn spec_pct_byte(b: u8) -> Seq<char> {
    seq!['%', upper_hex_char(b as int / 16), upper_hex_char(b as int % 16)]
}

/// Percent-encoding of a byte sequence.
pub open spec fn spec_pct_bytes(bs: Seq<u8>) -> Seq<char>
    decreases bs.len(),
{
    if bs.len() == 0 {
        Seq::<char>::empty()
    } else {
        spec_pct_bytes(bs.drop_last()) + spec_pct_byte(bs.last())
    }
}

/// URL encoding of one character: unreserved characters pass through;
/// space, newline and carriage return have fixed escapes; everything else is
/// percent-encoded byte by byte.
pub open spec fn spec_encode_char(c: char) -> Seq<char> {
    if is_unreserved(c) {
        seq![c]
    } else if c == ' ' {
        seq!['%', '2', '0']
    } else if c == '\n' {
        seq!['%', '0', 'A']
    } else if c == '\r' {
        seq!['%', '0', 'D']
    } else {
        spec_pct_bytes(spec_utf8_bytes(c))
    }
}

/// URL encoding of a string.
pub open spec fn spec_encode(s: Seq<char>) -> Seq<char>
    decreases s.len(),
{
    if s.len() == 0 {
        Seq::<char>::empty()
    } else {
        spec_encode(s.drop_last()) + spec_encode_char(s.last())
    }
}

fn upper_hex_digit(d: u32) -> (c: char)
    requires
        d < 16,
    ensures
        c == upper_hex_char(d as int),
{
    match d {
        0 => '0',
        1 => '1',
        2 => '2',
        3 => '3',
        4 => '4',
        5 => '5',
        6 => '6',
        7 => '7',
        8 => '8',
        9 => '9',
        10 => 'A',
        11 => 'B',
        12 => 'C',
        13 => 'D',
        14 => 'E',
        _ => 'F',
    }
}

fn push_pct_byte(out: &mut String, b: u32)
    requires
        b < 256,
    ensures
        final(out)@ == old(out)@ + spec_pct_byte(b as u8),
{
    push_char(out, '%');
    push_char(out, upper_hex_digit(b / 16));
    push_char(out, upper_hex_digit(b % 16));
    proof {
        assert(out@ =~= old(out)@ + spec_pct_byte(b as u8));
    }
}

fn push_encoded_char(out: &mut String, c: char)
    ensures
        final(out)@ == old(out)@ + spec_encode_char(c),
{
    if ('A' <= c && c <= 'Z') || ('a' <= c && c <= 'z') || ('0' <= c && c <= '9') || c == '-'
        || c == '_' || c == '.' || c == '~' {
        push_char(out, c);
        proof {
            assert(out@ =~= old(out)@ + spec_encode_char(c));
        }
        return;
    }
    if c == ' ' {
        push_char(out, '%');
        push_char(out, '2');
        push_char(out, '0');
        proof {
            assert(out@ =~= old(out)@ + spec_encode_char(c));
        }
        return;
    }
    if c == '\n' {
        push_char(out, '%');
        push_char(out, '0');
        push_char(out, 'A');
        proof {
            assert(out@ =~= old(out)@ + spec_encode_char(c));
        }
        return;
    }
    if c == '\r' {
        push_char(out, '%');
        push_char(out, '0');
        push_char(out, 'D');
        proof {
            assert(out@ =~= old(out)@ + spec_encode_char(c));
        }
        return;
    }
    let n = c as u32;
    if n < 0x80 {
        push_pct_byte(out, n);
        proof {
            reveal_with_fuel(spec_pct_bytes, 3);
            assert(spec_utf8_bytes(c) =~= seq![n as u8]);
            assert(seq![n as u8].drop_last() =~= Seq::<u8>::empty());
            assert(spec_pct_bytes(seq![n as u8]) =~= spec_pct_byte(n as u8));
            assert(out@ =~= old(out)@ + spec_encode_char(c));
        }
    } else if n < 0x800 {
        let b0 = 0xC0 + n / 64;
        let b1 = 0x80 + n % 64;
        push_pct_byte(out, b0);
        push_pct_byte(out, b1);
        proof {
            reveal_with_fuel(spec_pct_bytes, 4);
            let bs = spec_utf8_bytes(c);
            assert(bs =~= seq![b0 as u8, b1 as u8]);
            assert(bs.drop_last() =~= seq![b0 as u8]);
            assert(seq![b0 as u8].drop_last() =~= Seq::<u8>::empty());
            assert(spec_pct_bytes(bs) =~= spec_pct_byte(b0 as u8) + spec_pct_byte(b1 as u8));
            assert(out@ =~= old(out)@ + spec_encode_char(c));
        }
    } else if n < 0x10000 {
        let b0 = 0xE0 + n / 4096;
        let b1 = 0x80 + (n / 64) % 64;
        let b2 = 0x80 + n % 64;
        push_pct_byte(out, b0);
        push_pct_byte(out, b1);
        push_pct_byte(out, b2);
        proof {
            reveal_with_fuel(spec_pct_bytes, 5);
            let bs = spec_utf8_bytes(c);
            assert(bs =~= seq![b0 as u8, b1 as u8, b2 as u8]);
            assert(bs.drop_last() =~= seq![b0 as u8, b1 as u8]);
            assert(seq![b0 as u8, b1 as u8].drop_last() =~= seq![b0 as u8]);
            assert(seq![b0 as u8].drop_last() =~= Seq::<u8>::empty());
            assert(spec_pct_bytes(bs) =~= spec_pct_byte(b0 as u8) + spec_pct_byte(b1 as u8)
                + spec_pct_byte(b2 as u8));
            assert(out@ =~= old(out)@ + spec_encode_char(c));
        }
    } else {
        let b0 = 0xF0 + n / 262144;
        let b1 = 0x80 + (n / 4096) % 64;
        let b2 = 0x80 + (n / 64) % 64;
        let b3 = 0x80 + n % 64;
        push_pct_byte(out, b0);
        push_pct_byte(out, b1);
        push_pct_byte(out, b2);
        push_pct_byte(out, b3);
        proof {
            reveal_with_fuel(spec_pct_bytes, 6);
            let bs = spec_utf8_bytes(c);
            assert(bs =~= seq![b0 as u8, b1 as u8, b2 as u8, b3 as u8]);
            assert(bs.drop_last() =~= seq![b0 as u8, b1 as u8, b2 as u8]);
            assert(seq![b0 as u8, b1 as u8, b2 as u8].drop_last() =~= seq![b0 as u8, b1 as u8]);
            assert(seq![b0 as u8, b1 as u8].drop_last() =~= seq![b0 as u8]);
            assert(seq![b0 as u8].drop_last() =~= Seq::<u8>::empty());
            assert(spec_pct_bytes(bs) =~= spec_pct_byte(b0 as u8) + spec_pct_byte(b1 as u8)
                + spec_pct_byte(b2 as u8) + spec_pct_byte(b3 as u8));
            assert(out@ =~= old(out)@ + spec_encode_char(c));
        }
    }
}

/// URL-encode a string for use in a prefilled issue link.
pub fn encode(input: &str) -> (r: String)
    ensures
        r@ == spec_encode(input@),
{
    let n = input.unicode_len();
    let mut out = String::new();
    let mut i: usize = 0;
    proof {
        assert(input@.subrange(0, 0) =~= Seq::<char>::empty());
    }
    while i < n
        invariant
            i <= n,
            n == input@.len(),
            out@ == spec_encode(input@.subrange(0, i as int)),
        decreases n - i,
    {
        let c = input.get_char(i);
        proof {
            assert(input@.subrange(0, i + 1).drop_last() =~= input@.subrange(0, i as int));
            assert(input@.subrange(0, i + 1).last() == input@[i as int]);
        }
        push_encoded_char(&mut out, c);
        i = i + 1;
    }
    proof {
        assert(input@.subrange(0, n as int) =~= input@);
    }
    out
}

/// The crash-report text cut to a size a URL can carry.
pub open spec fn spec_truncated_report(s: Seq<char>) -> Seq<char> {
    if s.len() > 1500 {
        s.subrange(0, 1500)
            + "\n\n... (truncated, see attached crash report for full details)"@
    } else {
        s
    }
}

/// Build the prefilled issue body around a crash report, truncating an
/// overlong report.
pub fn build_issue_body(report: &str) -> (r: String)
    ensures
        r@ == "## Crash Report\n\nThe application crashed unexpectedly.\n\n<details>\n<summary>Crash Details</summary>\n\n```\n"@
            + spec_truncated_report(report@)
            + "\n```\n\n</details>\n\n## Steps to Reproduce\n\n1.\n\n## Additional Context\n\n<!-- Please attach the full crash report file if available -->\n"@,
{
    let n = report.unicode_len();
    let truncated = if n > 1500 {
        report.substring_char(0, 1500).to_owned().concat(
            "\n\n... (truncated, see attached crash report for full details)",
        )
    } else {
        report.to_owned()
    };
    String::from_str(
        "## Crash Report\n\nThe application crashed unexpectedly.\n\n<details>\n<summary>Crash Details</summary>\n\n```\n",
    ).concat(truncated.as_str()).concat(
        "\n```\n\n</details>\n\n## Steps to Reproduce\n\n1.\n\n## Additional Context\n\n<!-- Please attach the full crash report file if available -->\n",
    )
}

} // verus!
