//! Notification texts for processing events. Building the title and body is
//! decided here; showing a desktop toast is platform work done outside the
//! library.

use vstd::prelude::*;

use crate::text::{spec_u64_dec, u64_to_string};

verus! {

/// One notification: its title, its body, and whether it should stay
/// silent rather than play a sound.
#[derive(Debug, Clone)]
pub struct Notification {
    pub title: String,
    pub body: String,
    pub silent: bool,
}

/// An overlong message is cut to its first 80 characters with an ellipsis.
pub open spec fn spec_shortened(s: Seq<char>) -> Seq<char> {
    if s.len() > 80 {
        s.subrange(0, 80) + "..."@
    } else {
        s
    }
}

fn shorten(s: &str) -> (r: String)
    ensures
        r@ == spec_shortened(s@),
{
    let n = s.unicode_len();
    if n > 80 {
        s.substring_char(0, 80).to_owned().concat("...")
    } else {
        s.to_owned()
    }
}

/// A quality-control file was detected and is waiting to stabilize. Silent.
pub fn notify_file_detected(file_name: &str, instrument: &str, stability_window_secs: u64) -> (r:
    Notification)
    ensures
        r.title@ == "QC File Detected"@,
        r.body@ == file_name@ + "\nWaiting "@ + spec_u64_dec(stability_window_secs as int)
            + "s for file to stabilize..."@,
        r.silent,
{
    let _ = instrument;
    Notification {
        title: String::from_str("QC File Detected"),
        body: file_name.to_owned().concat("\nWaiting ").concat(
            u64_to_string(stability_window_secs).as_str(),
        ).concat("s for file to stabilize..."),
        silent: true,
    }
}

/// Extraction started on a file. Silent.
pub fn notify_processing_started(file_name: &str) -> (r: Notification)
    ensures
        r.title@ == "Processing QC File"@,
        r.body@ == file_name@ + "\nExtracting with Skyline..."@,
        r.silent,
{
    Notification {
        title: String::from_str("Processing QC File"),
        body: file_name.to_owned().concat("\nExtracting with Skyline..."),
        silent: true,
    }
}

/// Extraction finished; reports how many targets were found. Audible.
pub fn notify_extraction_success(file_name: &str, targets_found: u32, targets_expected: u32) -> (
    r: Notification)
    ensures
        r.title@ == "QC Extraction Complete"@,
        r.body@ == file_name@ + "\n"@ + spec_u64_dec(targets_found as int) + "/"@ + spec_u64_dec(
            targets_expected as int,
        ) + " targets detected"@,
        !r.silent,
{
    Notification {
        title: String::from_str("QC Extraction Complete"),
        body: file_name.to_owned().concat("\n").concat(
            u64_to_string(targets_found as u64).as_str(),
        ).concat("/").concat(u64_to_string(targets_expected as u64).as_str()).concat(
            " targets detected",
        ),
        silent: false,
    }
}

/// Extraction failed; carries a shortened error message. Audible.
pub fn notify_extraction_failure(file_name: &str, error: &str) -> (r: Notification)
    ensures
        r.title@ == "QC Extraction Failed"@,
        r.body@ == file_name@ + "\n"@ + spec_shortened(error@),
        !r.silent,
{
    Notification {
        title: String::from_str("QC Extraction Failed"),
        body: file_name.to_owned().concat("\n").concat(shorten(error).as_str()),
        silent: false,
    }
}

/// A payload was queued for upload. Silent.
pub fn notify_upload_queued(file_name: &str) -> (r: Notification)
    ensures
        r.title@ == "QC Results Queued"@,
        r.body@ == file_name@ + "\nReady for upload"@,
        r.silent,
{
    Notification {
        title: String::from_str("QC Results Queued"),
        body: file_name.to_owned().concat("\nReady for upload"),
        silent: true,
    }
}

/// A payload was delivered. Silent.
pub fn notify_upload_success(file_name: &str) -> (r: Notification)
    ensures
        r.title@ == "QC Results Uploaded"@,
        r.body@ == file_name@ + "\nSuccessfully sent to Mass Dynamics"@,
        r.silent,
{
    Notification {
        title: String::from_str("QC Results Uploaded"),
        body: file_name.to_owned().concat("\nSuccessfully sent to Mass Dynamics"),
        silent: true,
    }
}

/// An upload failed; carries a shortened error message. Audible.
pub fn notify_upload_failure(file_name: &str, error: &str) -> (r: Notification)
    ensures
        r.title@ == "QC Upload Failed"@,
        r.body@ == file_name@ + "\n"@ + spec_shortened(error@),
        !r.silent,
{
    Notification {
        title: String::from_str("QC Upload Failed"),
        body: file_name.to_owned().concat("\n").concat(shorten(error).as_str()),
        silent: false,
    }
}

} // verus!
