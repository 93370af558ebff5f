//! Upload scheduling: the fixed five-step retry ladder, the status-code
//! policy, and the terminal disposition of each payload. The HTTP transport
//! runs outside the library and hands back one status code per attempt;
//! every decision about attempts, delays and spool moves is made here.

use vstd::prelude::*;

use crate::config::CloudConfig;
use crate::errors::UploadError;
use crate::spool::{Spool, SpoolEntry};
use crate::text::u64_to_string;

verus! {

/// The ladder never makes more than this many attempts per payload.
pub const MAX_UPLOAD_ATTEMPTS: u32 = 5;

/// The delay window, in seconds, slept before the given attempt (1-based).
/// The first attempt is immediate.
pub open spec fn spec_delay_window(attempt: int) -> (u64, u64) {
    if attempt <= 1 {
        (0u64, 0u64)
    } else if attempt == 2 {
        (20u64, 40u64)
    } else if attempt == 3 {
        (90u64, 150u64)
    } else if attempt == 4 {
        (480u64, 720u64)
    } else {
        (3000u64, 4200u64)
    }
}

/// The delay window slept before the given attempt.
pub fn delay_window(attempt: u32) -> (r: (u64, u64))
    requires
        1 <= attempt <= 5,
    ensures
        r == spec_delay_window(attempt as int),
        r.0 <= r.1,
{
    match attempt {
        1 => (0, 0),
        2 => (20, 40),
        3 => (90, 150),
        4 => (480, 720),
        _ => (3000, 4200),
    }
}

/// A successful HTTP status: any 2xx.
pub open spec fn spec_is_success(status: u16) -> bool {
    200 <= status < 300
}

/// An authentication failure: 401 or 403.
pub open spec fn spec_is_auth_failure(status: u16) -> bool {
    status == 401 || status == 403
}

/// What one attempt's HTTP status means: 2xx is delivered; 401 and 403 are
/// authentication failures (still counted on the ladder); everything else is
/// an ordinary attempt failure. The body is carried into the error.
pub fn attempt_result(status: u16, body: &str) -> (r: Result<(), UploadError>)
    ensures
        match r {
            Ok(()) => spec_is_success(status),
            Err(e) => !spec_is_success(status) && (e matches UploadError::Authentication(m) ==> (
            spec_is_auth_failure(status) && m@ == "status "@ + crate::text::spec_u64_dec(
                status as int,
            ) + ": "@ + body@)) && (e matches UploadError::Server { status: s, message } ==> (
            !spec_is_auth_failure(status) && s == status && message@ == body@)) && (
            spec_is_auth_failure(status) ==> e is Authentication) && (!spec_is_auth_failure(
                status,
            ) ==> e is Server),
        },
{
    if 200 <= status && status < 300 {
        Ok(())
    } else if status == 401 || status == 403 {
        let m = String::from_str("status ").concat(
            u64_to_string(status as u64).as_str(),
        ).concat(": ").concat(body);
        Err(UploadError::Authentication(m))
    } else {
        Err(UploadError::Server { status, message: body.to_owned() })
    }
}

/// The ingestion endpoint of a base URL.
pub fn ingest_url(endpoint: &str) -> (r: String)
    ensures
        r@ == endpoint@ + "ingest"@,
{
    endpoint.to_owned().concat("ingest")
}

/// The bearer authorization header value for a token.
pub fn bearer_header(token: &str) -> (r: String)
    ensures
        r@ == "Bearer "@ + token@,
{
    String::from_str("Bearer ").concat(token)
}

/// What the ladder asks for after one attempt.
#[derive(Debug, Clone)]
pub enum LadderStep {
    /// The attempt succeeded: the payload is delivered.
    Delivered,
    /// The attempt failed; sleep for a duration within the window before
    /// the next attempt.
    RetryAfter(u64, u64),
    /// The fifth attempt failed: the payload is done for.
    Exhausted,
}

/// The retry ladder state for one payload.
#[derive(Debug, Clone, Copy, PartialEq, Eq, Structural)]
pub struct RetryLadder {
    /// Attempts made so far; never exceeds the maximum.
    pub attempts_made: u32,
}

impl RetryLadder {
    /// Bounded attempts: the ladder never passes the maximum.
    pub open spec fn wf(self) -> bool {
        self.attempts_made <= 5
    }

    /// A fresh ladder with no attempts made.
    pub fn new() -> (r: RetryLadder)
        ensures
            r.wf(),
            r.attempts_made == 0,
    {
        RetryLadder { attempts_made: 0 }
    }

    /// The delay window to sleep before the next attempt, or nothing when
    /// the ladder is exhausted. The first attempt is immediate.
    pub fn next_delay(&self) -> (r: Option<(u64, u64)>)
        requires
            self.wf(),
        ensures
            self.attempts_made < 5 ==> r == Option::Some(
                spec_delay_window(self.attempts_made + 1),
            ),
            self.attempts_made == 5 ==> r is None,
    {
        if self.attempts_made < 5 {
            Some(delay_window(self.attempts_made + 1))
        } else {
            None
        }
    }

    /// Record one attempt's outcome: a success delivers; a failure either
    /// schedules the next attempt's delay window or, after the fifth
    /// attempt, exhausts the ladder.
    pub fn record_attempt(&mut self, success: bool) -> (step: LadderStep)
        requires
            old(self).wf(),
            old(self).attempts_made < 5,
        ensures
            final(self).wf(),
            final(self).attempts_made == old(self).attempts_made + 1,
            success ==> step is Delivered,
            !success && final(self).attempts_made < 5 ==> (step matches LadderStep::RetryAfter(
                lo,
                hi,
            ) && (lo, hi) == spec_delay_window(final(self).attempts_made + 1)),
            !success && final(self).attempts_made == 5 ==> step is Exhausted,
    {
        self.attempts_made = self.attempts_made + 1;
        if success {
            LadderStep::Delivered
        } else if self.attempts_made < 5 {
            let (lo, hi) = delay_window(self.attempts_made + 1);
            LadderStep::RetryAfter(lo, hi)
        } else {
            LadderStep::Exhausted
        }
    }
}

/// How many attempts a status sequence consumes: up to the first success,
/// and never more than five.
pub open spec fn spec_attempts_used(statuses: Seq<u16>) -> int {
    if exists|i: int| 0 <= i < statuses.len() && i < 5 && spec_is_success(statuses[i]) {
        (choose|i: int|
            0 <= i < statuses.len() && i < 5 && spec_is_success(statuses[i]) && forall|j: int|
                0 <= j < i ==> !spec_is_success(#[trigger] statuses[j])) + 1
    } else {
        5
    }
}

/// There are enough recorded statuses to walk the ladder: either one of the
/// first five is a success, or at least five are present.
pub open spec fn spec_enough_statuses(statuses: Seq<u16>) -> bool {
    (exists|i: int| 0 <= i < statuses.len() && i < 5 && spec_is_success(statuses[i]))
        || statuses.len() >= 5
}

/// The uploader: cloud settings, the cached bearer token, and the spool it
/// drains.
pub struct Uploader {
    pub config: CloudConfig,
    pub api_token: Option<String>,
    pub spool: Spool,
}

impl Uploader {
    /// Build an uploader over a spool. The bearer token is taken from the
    /// cloud settings.
    pub fn new(config: &CloudConfig, spool: Spool) -> (r: Uploader)
        ensures
            r.config == *config,
            r.api_token == config.api_token,
            r.spool == spool,
    {
        let api_token = match &config.api_token {
            Some(t) => Some(t.clone()),
            None => None,
        };
        Uploader { config: config.clone_cfg(), api_token, spool }
    }

    /// Walk the retry ladder for one pending payload, given the status the
    /// server returned for each attempt made. The payload is claimed into
    /// `uploading/`; on a successful status within five attempts it lands in
    /// `completed/` and the number of attempts is returned; after five
    /// failed attempts it lands in `failed/` and the ladder reports
    /// exhaustion. No payload is ever attempted more than five times.
    pub fn upload_with_retry(&mut self, payload_id: &str, statuses: &Vec<u16>) -> (r: Result<
        u32,
        UploadError,
    >)
        requires
            old(self).spool.wf(),
            spec_enough_statuses(statuses@),
        ensures
            final(self).spool.wf(),
            final(self).config == old(self).config,
            final(self).api_token == old(self).api_token,
            !crate::spool::has_id(old(self).spool.pending@, payload_id@) ==> (
            final(self).spool == old(self).spool && (r matches Err(e) && e matches
                UploadError::Server { status, .. } && status == 0)),
            crate::spool::has_id(old(self).spool.pending@, payload_id@) ==> {
                let idx = crate::spool::id_index(old(self).spool.pending@, payload_id@);
                let entry = old(self).spool.pending@[idx];
                let used = spec_attempts_used(statuses@);
                &&& final(self).spool.pending@ == old(self).spool.pending@.remove(idx)
                &&& final(self).spool.uploading@ == old(self).spool.uploading@
                &&& (match r {
                    Ok(attempts) => {
                        &&& attempts == used
                        &&& 1 <= attempts <= 5
                        &&& spec_is_success(statuses@[used - 1])
                        &&& final(self).spool.completed@ == old(self).spool.completed@.push(
                            entry,
                        )
                        &&& final(self).spool.failed@ == old(self).spool.failed@
                    },
                    Err(e) => {
                        &&& (e matches UploadError::RetryExhausted(n) && n == 5)
                        &&& used == 5
                        &&& (forall|j: int|
                            0 <= j < 5 ==> !spec_is_success(#[trigger] statuses@[j]))
                        &&& final(self).spool.failed@ == old(self).spool.failed@.push(entry)
                        &&& final(self).spool.completed@ == old(self).spool.completed@
                    },
                })
            },
    {
        match self.spool.mark_uploading(payload_id) {
            Ok(()) => {},
            Err(_) => {
                return Err(UploadError::Server {
                    status: 0,
                    message: String::from_str("payload is not pending"),
                });
            },
        }
        let mut ladder = RetryLadder::new();
        let mut k: usize = 0;
        loop
            invariant
                self.spool.wf(),
                self.spool.pending@ == old(self).spool.pending@.remove(
                    crate::spool::id_index(old(self).spool.pending@, payload_id@),
                ),
                self.spool.uploading@ == old(self).spool.uploading@.push(
                    old(self).spool.pending@[crate::spool::id_index(
                        old(self).spool.pending@,
                        payload_id@,
                    )],
                ),
                self.spool.failed@ == old(self).spool.failed@,
                self.spool.completed@ == old(self).spool.completed@,
                self.spool.config == old(self).spool.config,
                self.spool.agent_id == old(self).spool.agent_id,
                self.config == old(self).config,
                self.api_token == old(self).api_token,
                crate::spool::has_id(old(self).spool.pending@, payload_id@),
                spec_enough_statuses(statuses@),
                ladder.wf(),
                ladder.attempts_made == k,
                k < 5,
                k <= statuses@.len(),
                forall|j: int| 0 <= j < k ==> !spec_is_success(#[trigger] statuses@[j]),
            decreases 5 - k,
        {
            proof {
                if k as int >= statuses@.len() {
                    if exists|i: int|
                        0 <= i < statuses@.len() && i < 5 && spec_is_success(statuses@[i]) {
                        let i = choose|i: int|
                            0 <= i < statuses@.len() && i < 5 && spec_is_success(statuses@[i]);
                        assert(!spec_is_success(statuses@[i]));
                    }
                    assert(false);
                }
            }
            let status = statuses[k];
            let success = 200 <= status && status < 300;
            let step = ladder.record_attempt(success);
            k = k + 1;
            match step {
                LadderStep::Delivered => {
                    proof {
                        lemma_attempts_used_success(statuses@, k - 1);
                    }
                    let ghost entry = old(self).spool.pending@[crate::spool::id_index(
                        old(self).spool.pending@,
                        payload_id@,
                    )];
                    proof {
                        lemma_push_id_index(old(self).spool.uploading@, entry, payload_id@);
                    }
                    let moved = self.spool.mark_completed(payload_id);
                    proof {
                        assert(moved is Ok);
                        assert(old(self).spool.uploading@.push(entry).remove(
                            old(self).spool.uploading@.len() as int,
                        ) =~= old(self).spool.uploading@);
                    }
                    return Ok(ladder.attempts_made);
                },
                LadderStep::RetryAfter(_, _) => {},
                LadderStep::Exhausted => {
                    proof {
                        lemma_attempts_used_exhausted(statuses@);
                    }
                    let ghost entry = old(self).spool.pending@[crate::spool::id_index(
                        old(self).spool.pending@,
                        payload_id@,
                    )];
                    proof {
                        lemma_push_id_index(old(self).spool.uploading@, entry, payload_id@);
                    }
                    let moved = self.spool.mark_failed(payload_id);
                    proof {
                        assert(moved is Ok);
                        assert(old(self).spool.uploading@.push(entry).remove(
                            old(self).spool.uploading@.len() as int,
                        ) =~= old(self).spool.uploading@);
                    }
                    return Err(UploadError::RetryExhausted(5));
                },
            }
        }
    }
}

/// When the first success is at index `i`, the walk uses exactly `i + 1`
/// attempts.
proof fn lemma_attempts_used_success(statuses: Seq<u16>, i: int)
    requires
        0 <= i < statuses.len(),
        i < 5,
        spec_is_success(statuses[i]),
        forall|j: int| 0 <= j < i ==> !spec_is_success(#[trigger] statuses[j]),
    ensures
        spec_attempts_used(statuses) == i + 1,
{
    assert(0 <= i < statuses.len() && i < 5 && spec_is_success(statuses[i]) && forall|j: int|
        0 <= j < i ==> !spec_is_success(#[trigger] statuses[j]));
    let w = choose|w: int|
        0 <= w < statuses.len() && w < 5 && spec_is_success(statuses[w]) && forall|j: int|
            0 <= j < w ==> !spec_is_success(#[trigger] statuses[j]);
    if w < i {
        assert(!spec_is_success(statuses[w]));
    }
    if i < w {
        assert(!spec_is_success(statuses[i]));
    }
}

/// When the first five statuses all fail, the walk uses exactly five
/// attempts.
proof fn lemma_attempts_used_exhausted(statuses: Seq<u16>)
    requires
        forall|j: int| 0 <= j < 5 && j < statuses.len() ==> !spec_is_success(
            #[trigger] statuses[j],
        ),
    ensures
        spec_attempts_used(statuses) == 5,
{
    if exists|i: int| 0 <= i < statuses.len() && i < 5 && spec_is_success(statuses[i]) {
        let i = choose|i: int| 0 <= i < statuses.len() && i < 5 && spec_is_success(statuses[i]);
        assert(!spec_is_success(statuses[i]));
    }
}

/// The id just pushed onto a directory is found at the end.
proof fn lemma_push_id_index(s: Seq<SpoolEntry>, e: SpoolEntry, id: Seq<char>)
    requires
        e.payload_id@ == id,
        crate::spool::unique_ids(s.push(e)),
    ensures
        crate::spool::has_id(s.push(e), id),
        crate::spool::id_index(s.push(e), id) == s.len() as int,
        s.push(e)[crate::spool::id_index(s.push(e), id)] == e,
{
    let t = s.push(e);
    assert(t[s.len() as int] == e);
    assert(crate::spool::has_id(t, id));
    let ch = crate::spool::id_index(t, id);
    assert(0 <= ch < t.len() && t[ch].payload_id@ == id);
    if ch < s.len() as int {
        assert(t[ch].payload_id@ != t[s.len() as int].payload_id@);
    }
}

/// Bounded retries: the ladder makes at most five attempts for any status
/// sequence, whatever the server returns.
pub proof fn lemma_bounded_retries(statuses: Seq<u16>)
    ensures
        spec_attempts_used(statuses) <= 5,
{
}

/// The retry ladder under a server that always fails: every walk makes
/// exactly five attempts, sleeping within the fixed windows between them,
/// and the payload is then failed.
pub proof fn lemma_retry_ladder_exhaustion(statuses: Seq<u16>)
    requires
        forall|j: int| 0 <= j < 5 && j < statuses.len() ==> !spec_is_success(
            #[trigger] statuses[j],
        ),
    ensures
        spec_attempts_used(statuses) == 5,
        spec_delay_window(2) == (20u64, 40u64),
        spec_delay_window(3) == (90u64, 150u64),
        spec_delay_window(4) == (480u64, 720u64),
        spec_delay_window(5) == (3000u64, 4200u64),
{
    lemma_attempts_used_exhausted(statuses);
}

} // verus!
