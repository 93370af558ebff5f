//! The durable payload queue. A payload lives in exactly one of four
//! lifecycle directories — pending, uploading, failed, completed — and moves
//! between them by atomic renames. This module models the queue and decides
//! every transition; the surrounding process mirrors each decision onto disk
//! and never invents a move of its own.

use vstd::prelude::*;

use crate::config::SpoolConfig;
use crate::errors::SpoolError;
use crate::text::{spec_hex_fixed, spec_padded_dec, hex8, padded_dec};

verus! {

/// One spooled payload: its id, its file name, its serialized size in
/// bytes, and the instant it entered its current directory (UTC seconds).
#[derive(Debug, Clone)]
pub struct SpoolEntry {
    pub payload_id: String,
    pub name: String,
    pub size: u64,
    pub mtime: i64,
}

impl SpoolEntry {
    /// Clone one entry.
    pub fn clone_entry(&self) -> (r: SpoolEntry)
        ensures
            r == *self,
    {
        SpoolEntry {
            payload_id: self.payload_id.clone(),
            name: self.name.clone(),
            size: self.size,
            mtime: self.mtime,
        }
    }
}

/// No two entries of the sequence share a payload id.
pub open spec fn unique_ids(s: Seq<SpoolEntry>) -> bool {
    forall|i: int, j: int|
        0 <= i < j < s.len() ==> (#[trigger] s[i]).payload_id@ != (#[trigger] s[j]).payload_id@
}

/// Some entry of the sequence has the given payload id.
pub open spec fn has_id(s: Seq<SpoolEntry>, id: Seq<char>) -> bool {
    exists|i: int| 0 <= i < s.len() && (#[trigger] s[i]).payload_id@ == id
}

/// No payload id occurs in both sequences.
pub open spec fn disjoint_ids(a: Seq<SpoolEntry>, b: Seq<SpoolEntry>) -> bool {
    forall|i: int, j: int|
        0 <= i < a.len() && 0 <= j < b.len() ==> (#[trigger] a[i]).payload_id@ != (
        #[trigger] b[j]).payload_id@
}

/// The index of the entry with the given payload id.
pub open spec fn id_index(s: Seq<SpoolEntry>, id: Seq<char>) -> int {
    choose|i: int| 0 <= i < s.len() && (#[trigger] s[i]).payload_id@ == id
}

/// The four lifecycle directories.
#[derive(Debug, Clone, Copy, PartialEq, Eq, Structural)]
pub enum SpoolDir {
    Pending,
    Uploading,
    Failed,
    Completed,
}

/// The payload queue: four directories of entries and the agent identity
/// baked into correlation ids.
pub struct Spool {
    pub config: SpoolConfig,
    pub agent_id: String,
    pub pending: Vec<SpoolEntry>,
    pub uploading: Vec<SpoolEntry>,
    pub failed: Vec<SpoolEntry>,
    pub completed: Vec<SpoolEntry>,
}

impl Spool {
    /// The entries of one directory.
    pub open spec fn dir_seq(self, d: SpoolDir) -> Seq<SpoolEntry> {
        match d {
            SpoolDir::Pending => self.pending@,
            SpoolDir::Uploading => self.uploading@,
            SpoolDir::Failed => self.failed@,
            SpoolDir::Completed => self.completed@,
        }
    }

    /// A well-formed spool: ids are unique within each directory and no id
    /// stands in two directories.
    pub open spec fn wf(self) -> bool {
        &&& unique_ids(self.pending@)
        &&& unique_ids(self.uploading@)
        &&& unique_ids(self.failed@)
        &&& unique_ids(self.completed@)
        &&& disjoint_ids(self.pending@, self.uploading@)
        &&& disjoint_ids(self.pending@, self.failed@)
        &&& disjoint_ids(self.pending@, self.completed@)
        &&& disjoint_ids(self.uploading@, self.failed@)
        &&& disjoint_ids(self.uploading@, self.completed@)
        &&& disjoint_ids(self.failed@, self.completed@)
    }

    /// A payload id present somewhere in the spool.
    pub open spec fn holds_id(self, id: Seq<char>) -> bool {
        has_id(self.pending@, id) || has_id(self.uploading@, id) || has_id(self.failed@, id)
            || has_id(self.completed@, id)
    }

    /// An empty spool for the given configuration. The agent identity
    /// starts out unregistered.
    pub fn new(config: &SpoolConfig) -> (r: Spool)
        ensures
            r.wf(),
            r.config == *config,
            r.agent_id@ == "unregistered"@,
            r.pending@.len() == 0,
            r.uploading@.len() == 0,
            r.failed@.len() == 0,
            r.completed@.len() == 0,
    {
        Spool {
            config: config.clone(),
            agent_id: String::from_str("unregistered"),
            pending: Vec::new(),
            uploading: Vec::new(),
            failed: Vec::new(),
            completed: Vec::new(),
        }
    }

    /// Set the agent identity used in correlation ids.
    pub fn set_agent_id(&mut self, agent_id: String)
        ensures
            *final(self) == (Spool { agent_id, ..*old(self) }),
    {
        self.agent_id = agent_id;
    }

    /// The agent identity used in correlation ids.
    pub fn get_agent_id(&self) -> (r: String)
        ensures
            r@ == self.agent_id@,
    {
        self.agent_id.clone()
    }
}

/// Whether a directory holds the given payload id.
fn has_id_in(v: &Vec<SpoolEntry>, id: &str) -> (r: bool)
    ensures
        r == has_id(v@, id@),
{
    let n = v.len();
    let mut i: usize = 0;
    while i < n
        invariant
            i <= n,
            n == v@.len(),
            forall|j: int| 0 <= j < i ==> (#[trigger] v@[j]).payload_id@ != id@,
        decreases n - i,
    {
        if crate::text::str_eq(v[i].payload_id.as_str(), id) {
            return true;
        }
        i = i + 1;
    }
    proof {
        if has_id(v@, id@) {
            let k = choose|k: int| 0 <= k < v@.len() && (#[trigger] v@[k]).payload_id@ == id@;
            assert(v@[k].payload_id@ != id@);
        }
    }
    false
}

/// Whether no two entries of a directory share a payload id.
fn unique_check(v: &Vec<SpoolEntry>) -> (r: bool)
    ensures
        r == unique_ids(v@),
{
    let n = v.len();
    let mut a: usize = 0;
    while a < n
        invariant
            a <= n,
            n == v@.len(),
            forall|x: int, y: int|
                0 <= x < y < n && x < a ==> (#[trigger] v@[x]).payload_id@ != (
                #[trigger] v@[y]).payload_id@,
        decreases n - a,
    {
        let mut b: usize = a + 1;
        while b < n
            invariant
                a < n,
                a < b <= n,
                n == v@.len(),
                forall|x: int, y: int|
                    0 <= x < y < n && x < a ==> (#[trigger] v@[x]).payload_id@ != (
                    #[trigger] v@[y]).payload_id@,
                forall|y: int|
                    a < y < b ==> (#[trigger] v@[y]).payload_id@ != v@[a as int].payload_id@,
            decreases n - b,
        {
            if crate::text::str_eq(v[a].payload_id.as_str(), v[b].payload_id.as_str()) {
                proof {
                    assert(v@[a as int].payload_id@ == v@[b as int].payload_id@);
                }
                return false;
            }
            b = b + 1;
        }
        a = a + 1;
    }
    true
}

/// Whether no payload id stands in both directories.
fn disjoint_check(a: &Vec<SpoolEntry>, b: &Vec<SpoolEntry>) -> (r: bool)
    ensures
        r == disjoint_ids(a@, b@),
{
    let n = a.len();
    let mut i: usize = 0;
    while i < n
        invariant
            i <= n,
            n == a@.len(),
            forall|x: int, y: int|
                0 <= x < i && 0 <= y < b@.len() ==> (#[trigger] a@[x]).payload_id@ != (
                #[trigger] b@[y]).payload_id@,
        decreases n - i,
    {
        if has_id_in(b, a[i].payload_id.as_str()) {
            proof {
                let y = choose|y: int|
                    0 <= y < b@.len() && (#[trigger] b@[y]).payload_id@ == a@[
                        i as int].payload_id@;
            }
            return false;
        }
        i = i + 1;
    }
    true
}

impl Spool {
    /// Whether some directory holds the payload id: the executable form of
    /// `holds_id`, letting a caller check that an id is fresh before
    /// enqueueing it.
    pub fn contains_id(&self, payload_id: &str) -> (r: bool)
        ensures
            r == self.holds_id(payload_id@),
    {
        has_id_in(&self.pending, payload_id) || has_id_in(&self.uploading, payload_id)
            || has_id_in(&self.failed, payload_id) || has_id_in(&self.completed, payload_id)
    }

    /// Check the queue invariant on a freshly scanned state: unique ids
    /// within each directory and no id in two directories. A caller that
    /// rebuilds the spool from disk can test this before relying on it.
    pub fn check_wf(&self) -> (r: bool)
        ensures
            r == self.wf(),
    {
        unique_check(&self.pending) && unique_check(&self.uploading) && unique_check(
            &self.failed,
        ) && unique_check(&self.completed) && disjoint_check(&self.pending, &self.uploading)
            && disjoint_check(&self.pending, &self.failed) && disjoint_check(
            &self.pending,
            &self.completed,
        ) && disjoint_check(&self.uploading, &self.failed) && disjoint_check(
            &self.uploading,
            &self.completed,
        ) && disjoint_check(&self.failed, &self.completed)
    }
}

/// Find and take the entry with the given id out of a directory, keeping
/// the order of the others.
fn take_entry(v: &mut Vec<SpoolEntry>, id: &str) -> (r: Option<SpoolEntry>)
    requires
        unique_ids(old(v)@),
    ensures
        unique_ids(final(v)@),
        match r {
            Some(e) => {
                &&& has_id(old(v)@, id@)
                &&& e == old(v)@[id_index(old(v)@, id@)]
                &&& e.payload_id@ == id@
                &&& final(v)@ == old(v)@.remove(id_index(old(v)@, id@))
            },
            None => !has_id(old(v)@, id@) && *final(v) == *old(v),
        },
{
    let n = v.len();
    let mut i: usize = 0;
    while i < n
        invariant
            i <= n,
            n == v@.len(),
            *v == *old(v),
            unique_ids(v@),
            forall|j: int| 0 <= j < i ==> (#[trigger] v@[j]).payload_id@ != id@,
        decreases n - i,
    {
        if crate::text::str_eq(v[i].payload_id.as_str(), id) {
            proof {
                let ch = id_index(v@, id@);
                assert(0 <= ch < v@.len() && v@[ch].payload_id@ == id@);
                if ch < i as int {
                    assert(v@[ch].payload_id@ != id@);
                }
                if (i as int) < ch {
                    assert(v@[i as int].payload_id@ != v@[ch].payload_id@);
                }
            }
            let e = v.remove(i);
            proof {
                assert forall|a: int, b: int|
                    0 <= a < b < v@.len() implies (#[trigger] v@[a]).payload_id@ != (
                #[trigger] v@[b]).payload_id@ by {
                    let oa: int = if a < i as int { a } else { a + 1 };
                    let ob: int = if b < i as int { b } else { b + 1 };
                    assert(v@[a] == old(v)@[oa]);
                    assert(v@[b] == old(v)@[ob]);
                }
            }
            return Some(e);
        }
        i = i + 1;
    }
    proof {
        if has_id(v@, id@) {
            let k = choose|k: int| 0 <= k < v@.len() && (#[trigger] v@[k]).payload_id@ == id@;
            assert(v@[k].payload_id@ != id@);
        }
    }
    None
}

impl Spool {
    /// Move the payload from `pending/` to `uploading/`: the uploader
    /// claims it. Fails, changing nothing, when the payload is not pending.
    pub fn mark_uploading(&mut self, payload_id: &str) -> (r: Result<(), SpoolError>)
        requires
            old(self).wf(),
        ensures
            final(self).wf(),
            final(self).config == old(self).config,
            final(self).agent_id == old(self).agent_id,
            final(self).failed@ == old(self).failed@,
            final(self).completed@ == old(self).completed@,
            match r {
                Ok(()) => {
                    &&& has_id(old(self).pending@, payload_id@)
                    &&& final(self).pending@ == old(self).pending@.remove(
                        id_index(old(self).pending@, payload_id@),
                    )
                    &&& final(self).uploading@ == old(self).uploading@.push(
                        old(self).pending@[id_index(old(self).pending@, payload_id@)],
                    )
                },
                Err(e) => {
                    &&& !has_id(old(self).pending@, payload_id@)
                    &&& *final(self) == *old(self)
                    &&& e is FileOperation
                },
            },
    {
        let taken = take_entry(&mut self.pending, payload_id);
        match taken {
            Some(e) => {
                self.uploading.push(e);
                proof {
                    self.lemma_after_move(*old(self), SpoolDir::Pending, SpoolDir::Uploading,
                        payload_id@);
                }
                Ok(())
            },
            None => Err(SpoolError::FileOperation(
                String::from_str("no such pending payload: ").concat(payload_id),
            )),
        }
    }

    /// Move the payload from `uploading/` to `completed/` after a delivery
    /// the server acknowledged. Fails, changing nothing, when the payload is
    /// not uploading. Trimming the completed directory is a separate step.
    pub fn mark_completed(&mut self, payload_id: &str) -> (r: Result<(), SpoolError>)
        requires
            old(self).wf(),
        ensures
            final(self).wf(),
            final(self).config == old(self).config,
            final(self).agent_id == old(self).agent_id,
            final(self).failed@ == old(self).failed@,
            final(self).pending@ == old(self).pending@,
            match r {
                Ok(()) => {
                    &&& has_id(old(self).uploading@, payload_id@)
                    &&& final(self).uploading@ == old(self).uploading@.remove(
                        id_index(old(self).uploading@, payload_id@),
                    )
                    &&& final(self).completed@ == old(self).completed@.push(
                        old(self).uploading@[id_index(old(self).uploading@, payload_id@)],
                    )
                },
                Err(e) => {
                    &&& !has_id(old(self).uploading@, payload_id@)
                    &&& *final(self) == *old(self)
                    &&& e is FileOperation
                },
            },
    {
        let taken = take_entry(&mut self.uploading, payload_id);
        match taken {
            Some(e) => {
                self.completed.push(e);
                proof {
                    self.lemma_after_move(*old(self), SpoolDir::Uploading, SpoolDir::Completed,
                        payload_id@);
                }
                Ok(())
            },
            None => Err(SpoolError::FileOperation(
                String::from_str("no such uploading payload: ").concat(payload_id),
            )),
        }
    }

    /// Move the payload from `uploading/` to `failed/` after the retry
    /// ladder is exhausted. Fails, changing nothing, when the payload is not
    /// uploading.
    pub fn mark_failed(&mut self, payload_id: &str) -> (r: Result<(), SpoolError>)
        requires
            old(self).wf(),
        ensures
            final(self).wf(),
            final(self).config == old(self).config,
            final(self).agent_id == old(self).agent_id,
            final(self).completed@ == old(self).completed@,
            final(self).pending@ == old(self).pending@,
            match r {
                Ok(()) => {
                    &&& has_id(old(self).uploading@, payload_id@)
                    &&& final(self).uploading@ == old(self).uploading@.remove(
                        id_index(old(self).uploading@, payload_id@),
                    )
                    &&& final(self).failed@ == old(self).failed@.push(
                        old(self).uploading@[id_index(old(self).uploading@, payload_id@)],
                    )
                },
                Err(e) => {
                    &&& !has_id(old(self).uploading@, payload_id@)
                    &&& *final(self) == *old(self)
                    &&& e is FileOperation
                },
            },
    {
        let taken = take_entry(&mut self.uploading, payload_id);
        match taken {
            Some(e) => {
                self.failed.push(e);
                proof {
                    self.lemma_after_move(*old(self), SpoolDir::Uploading, SpoolDir::Failed,
                        payload_id@);
                }
                Ok(())
            },
            None => Err(SpoolError::FileOperation(
                String::from_str("no such uploading payload: ").concat(payload_id),
            )),
        }
    }

    /// Move the payload from `uploading/` back to `pending/` for another
    /// try. Fails, changing nothing, when the payload is not uploading.
    pub fn mark_pending(&mut self, payload_id: &str) -> (r: Result<(), SpoolError>)
        requires
            old(self).wf(),
        ensures
            final(self).wf(),
            final(self).config == old(self).config,
            final(self).agent_id == old(self).agent_id,
            final(self).completed@ == old(self).completed@,
            final(self).failed@ == old(self).failed@,
            match r {
                Ok(()) => {
                    &&& has_id(old(self).uploading@, payload_id@)
                    &&& final(self).uploading@ == old(self).uploading@.remove(
                        id_index(old(self).uploading@, payload_id@),
                    )
                    &&& final(self).pending@ == old(self).pending@.push(
                        old(self).uploading@[id_index(old(self).uploading@, payload_id@)],
                    )
                },
                Err(e) => {
                    &&& !has_id(old(self).uploading@, payload_id@)
                    &&& *final(self) == *old(self)
                    &&& e is FileOperation
                },
            },
    {
        let taken = take_entry(&mut self.uploading, payload_id);
        match taken {
            Some(e) => {
                self.pending.push(e);
                proof {
                    self.lemma_after_move(*old(self), SpoolDir::Uploading, SpoolDir::Pending,
                        payload_id@);
                }
                Ok(())
            },
            None => Err(SpoolError::FileOperation(
                String::from_str("no such uploading payload: ").concat(payload_id),
            )),
        }
    }

    /// Crash recovery at startup: every payload in `uploading/` goes back to
    /// `pending/`, so an interrupted upload is retried rather than lost.
    /// Afterwards `uploading/` is empty and `pending/` holds its old entries
    /// followed by everything recovered.
    pub fn recover(&mut self)
        requires
            old(self).wf(),
        ensures
            final(self).wf(),
            final(self).config == old(self).config,
            final(self).agent_id == old(self).agent_id,
            final(self).completed@ == old(self).completed@,
            final(self).failed@ == old(self).failed@,
            final(self).uploading@.len() == 0,
            final(self).pending@ == old(self).pending@ + old(self).uploading@,
    {
        let n = self.uploading.len();
        let mut i: usize = 0;
        while i < n
            invariant
                i <= n,
                n == old(self).uploading@.len(),
                old(self).wf(),
                self.config == old(self).config,
                self.agent_id == old(self).agent_id,
                self.completed@ == old(self).completed@,
                self.failed@ == old(self).failed@,
                self.uploading@ == old(self).uploading@,
                self.pending@ == old(self).pending@ + old(self).uploading@.subrange(0, i as int),
                self.wf_except_overlap(i as int),
            decreases n - i,
        {
            let e = self.uploading[i].clone_entry();
            self.pending.push(e);
            proof {
                assert(self.pending@ =~= old(self).pending@ + old(self).uploading@.subrange(
                    0,
                    i + 1,
                ));
                self.lemma_recover_step(*old(self), i as int);
            }
            i = i + 1;
        }
        self.uploading.clear();
        proof {
            assert(self.pending@ =~= old(self).pending@ + old(self).uploading@);
            self.lemma_recover_done(*old(self));
        }
    }

    /// During recovery, ids moved so far stand in both `pending/` and
    /// `uploading/`; well-formedness holds apart from that overlap.
    pub open spec fn wf_except_overlap(self, moved: int) -> bool {
        &&& unique_ids(self.pending@)
        &&& unique_ids(self.uploading@)
        &&& unique_ids(self.failed@)
        &&& unique_ids(self.completed@)
        &&& forall|a: int, b: int|
            0 <= a < self.pending@.len() && moved <= b < self.uploading@.len() ==> (
            #[trigger] self.pending@[a]).payload_id@ != (#[trigger] self.uploading@[b]).payload_id@
        &&& disjoint_ids(self.pending@, self.failed@)
        &&& disjoint_ids(self.pending@, self.completed@)
        &&& disjoint_ids(self.uploading@, self.failed@)
        &&& disjoint_ids(self.uploading@, self.completed@)
        &&& disjoint_ids(self.failed@, self.completed@)
    }

    proof fn lemma_recover_step(self, orig: Spool, i: int)
        requires
            orig.wf(),
            0 <= i < orig.uploading@.len(),
            self.uploading@ == orig.uploading@,
            self.failed@ == orig.failed@,
            self.completed@ == orig.completed@,
            self.pending@ == orig.pending@ + orig.uploading@.subrange(0, i + 1),
        ensures
            self.wf_except_overlap(i + 1),
    {
        assert forall|a: int, b: int|
            0 <= a < b < self.pending@.len() implies (#[trigger] self.pending@[a]).payload_id@ != (
        #[trigger] self.pending@[b]).payload_id@ by {
            let plen = orig.pending@.len() as int;
            if b < plen {
                assert(self.pending@[a] == orig.pending@[a]);
                assert(self.pending@[b] == orig.pending@[b]);
            } else if a < plen {
                assert(self.pending@[a] == orig.pending@[a]);
                assert(self.pending@[b] == orig.uploading@[b - plen]);
            } else {
                assert(self.pending@[a] == orig.uploading@[a - plen]);
                assert(self.pending@[b] == orig.uploading@[b - plen]);
            }
        }
        assert forall|a: int, b: int|
            0 <= a < self.pending@.len() && i + 1 <= b < self.uploading@.len() implies (
        #[trigger] self.pending@[a]).payload_id@ != (#[trigger] self.uploading@[b]).payload_id@ by {
            let plen = orig.pending@.len() as int;
            if a < plen {
                assert(self.pending@[a] == orig.pending@[a]);
            } else {
                assert(self.pending@[a] == orig.uploading@[a - plen]);
            }
        }
        assert forall|a: int, b: int|
            0 <= a < self.pending@.len() && 0 <= b < self.failed@.len() implies (
        #[trigger] self.pending@[a]).payload_id@ != (#[trigger] self.failed@[b]).payload_id@ by {
            let plen = orig.pending@.len() as int;
            if a < plen {
                assert(self.pending@[a] == orig.pending@[a]);
            } else {
                assert(self.pending@[a] == orig.uploading@[a - plen]);
            }
        }
        assert forall|a: int, b: int|
            0 <= a < self.pending@.len() && 0 <= b < self.completed@.len() implies (
        #[trigger] self.pending@[a]).payload_id@ != (#[trigger] self.completed@[b]).payload_id@ by {
            let plen = orig.pending@.len() as int;
            if a < plen {
                assert(self.pending@[a] == orig.pending@[a]);
            } else {
                assert(self.pending@[a] == orig.uploading@[a - plen]);
            }
        }
    }

    proof fn lemma_recover_done(self, orig: Spool)
        requires
            orig.wf(),
            self.uploading@.len() == 0,
            self.failed@ == orig.failed@,
            self.completed@ == orig.completed@,
            self.pending@ == orig.pending@ + orig.uploading@,
        ensures
            self.wf(),
    {
        assert(unique_ids(self.pending@)) by {
            if orig.uploading@.len() == 0 {
                assert(self.pending@ =~= orig.pending@);
            } else {
                let moved = Spool {
                    pending: self.pending,
                    uploading: orig.uploading,
                    failed: self.failed,
                    completed: self.completed,
                    config: self.config,
                    agent_id: self.agent_id,
                };
                assert(orig.pending@ + orig.uploading@.subrange(
                    0,
                    orig.uploading@.len() as int,
                ) =~= orig.pending@ + orig.uploading@);
                moved.lemma_recover_step(orig, orig.uploading@.len() as int - 1);
            }
        }
        assert forall|a: int, b: int|
            0 <= a < self.pending@.len() && 0 <= b < self.failed@.len() implies (
        #[trigger] self.pending@[a]).payload_id@ != (#[trigger] self.failed@[b]).payload_id@ by {
            let plen = orig.pending@.len() as int;
            if a < plen {
                assert(self.pending@[a] == orig.pending@[a]);
            } else {
                assert(self.pending@[a] == orig.uploading@[a - plen]);
            }
        }
        assert forall|a: int, b: int|
            0 <= a < self.pending@.len() && 0 <= b < self.completed@.len() implies (
        #[trigger] self.pending@[a]).payload_id@ != (#[trigger] self.completed@[b]).payload_id@ by {
            let plen = orig.pending@.len() as int;
            if a < plen {
                assert(self.pending@[a] == orig.pending@[a]);
            } else {
                assert(self.pending@[a] == orig.uploading@[a - plen]);
            }
        }
    }

    /// After a move of one id from `from` to `to`, the spool is well-formed
    /// again.
    proof fn lemma_after_move(self, orig: Spool, from: SpoolDir, to: SpoolDir, id: Seq<char>)
        requires
            orig.wf(),
            from != to,
            has_id(orig.dir_seq(from), id),
            self.config == orig.config,
            self.agent_id == orig.agent_id,
            self.dir_seq(from) == orig.dir_seq(from).remove(id_index(orig.dir_seq(from), id)),
            self.dir_seq(to) == orig.dir_seq(to).push(
                orig.dir_seq(from)[id_index(orig.dir_seq(from), id)],
            ),
            SpoolDir::Pending != from && SpoolDir::Pending != to ==> self.pending@
                == orig.pending@,
            SpoolDir::Uploading != from && SpoolDir::Uploading != to ==> self.uploading@
                == orig.uploading@,
            SpoolDir::Failed != from && SpoolDir::Failed != to ==> self.failed@ == orig.failed@,
            SpoolDir::Completed != from && SpoolDir::Completed != to ==> self.completed@
                == orig.completed@,
        ensures
            self.wf(),
    {
        let fi = id_index(orig.dir_seq(from), id);
        assert(0 <= fi < orig.dir_seq(from).len() && orig.dir_seq(from)[fi].payload_id@ == id);
        let moved = orig.dir_seq(from)[fi];
        // The shrunk source keeps unique ids.
        assert forall|a: int, b: int|
            0 <= a < b < self.dir_seq(from).len() implies (
        #[trigger] self.dir_seq(from)[a]).payload_id@ != (
        #[trigger] self.dir_seq(from)[b]).payload_id@ by {
            let oa: int = if a < fi { a } else { a + 1 };
            let ob: int = if b < fi { b } else { b + 1 };
            assert(self.dir_seq(from)[a] == orig.dir_seq(from)[oa]);
            assert(self.dir_seq(from)[b] == orig.dir_seq(from)[ob]);
        }
        // The grown destination keeps unique ids: the moved entry's id was
        // in the source, so not in the destination.
        assert forall|a: int, b: int|
            0 <= a < b < self.dir_seq(to).len() implies (
        #[trigger] self.dir_seq(to)[a]).payload_id@ != (
        #[trigger] self.dir_seq(to)[b]).payload_id@ by {
            if b == self.dir_seq(to).len() - 1 {
                assert(self.dir_seq(to)[a] == orig.dir_seq(to)[a]);
                assert(self.dir_seq(to)[b] == moved);
                lemma_orig_disjoint(orig, to, from, a, fi);
            } else {
                assert(self.dir_seq(to)[a] == orig.dir_seq(to)[a]);
                assert(self.dir_seq(to)[b] == orig.dir_seq(to)[b]);
            }
        }
        // Cross-directory disjointness, pair by pair.
        assert(disjoint_ids(self.pending@, self.uploading@)) by {
            assert forall|a: int, b: int|
                0 <= a < self.pending@.len() && 0 <= b < self.uploading@.len() implies (
            #[trigger] self.pending@[a]).payload_id@ != (
            #[trigger] self.uploading@[b]).payload_id@ by {
                self.lemma_pair_disjoint(orig, from, to, fi, SpoolDir::Pending,
                    SpoolDir::Uploading, a, b);
            }
        }
        assert(disjoint_ids(self.pending@, self.failed@)) by {
            assert forall|a: int, b: int|
                0 <= a < self.pending@.len() && 0 <= b < self.failed@.len() implies (
            #[trigger] self.pending@[a]).payload_id@ != (#[trigger] self.failed@[b]).payload_id@ by {
                self.lemma_pair_disjoint(orig, from, to, fi, SpoolDir::Pending, SpoolDir::Failed,
                    a, b);
            }
        }
        assert(disjoint_ids(self.pending@, self.completed@)) by {
            assert forall|a: int, b: int|
                0 <= a < self.pending@.len() && 0 <= b < self.completed@.len() implies (
            #[trigger] self.pending@[a]).payload_id@ != (
            #[trigger] self.completed@[b]).payload_id@ by {
                self.lemma_pair_disjoint(orig, from, to, fi, SpoolDir::Pending,
                    SpoolDir::Completed, a, b);
            }
        }
        assert(disjoint_ids(self.uploading@, self.failed@)) by {
            assert forall|a: int, b: int|
                0 <= a < self.uploading@.len() && 0 <= b < self.failed@.len() implies (
            #[trigger] self.uploading@[a]).payload_id@ != (
            #[trigger] self.failed@[b]).payload_id@ by {
                self.lemma_pair_disjoint(orig, from, to, fi, SpoolDir::Uploading,
                    SpoolDir::Failed, a, b);
            }
        }
        assert(disjoint_ids(self.uploading@, self.completed@)) by {
            assert forall|a: int, b: int|
                0 <= a < self.uploading@.len() && 0 <= b < self.completed@.len() implies (
            #[trigger] self.uploading@[a]).payload_id@ != (
            #[trigger] self.completed@[b]).payload_id@ by {
                self.lemma_pair_disjoint(orig, from, to, fi, SpoolDir::Uploading,
                    SpoolDir::Completed, a, b);
            }
        }
        assert(disjoint_ids(self.failed@, self.completed@)) by {
            assert forall|a: int, b: int|
                0 <= a < self.failed@.len() && 0 <= b < self.completed@.len() implies (
            #[trigger] self.failed@[a]).payload_id@ != (
            #[trigger] self.completed@[b]).payload_id@ by {
                self.lemma_pair_disjoint(orig, from, to, fi, SpoolDir::Failed,
                    SpoolDir::Completed, a, b);
            }
        }
    }

    /// Two entries in different directories after a move have different ids.
    proof fn lemma_pair_disjoint(
        self,
        orig: Spool,
        from: SpoolDir,
        to: SpoolDir,
        fi: int,
        d1: SpoolDir,
        d2: SpoolDir,
        a: int,
        b: int,
    )
        requires
            orig.wf(),
            from != to,
            d1 != d2,
            0 <= fi < orig.dir_seq(from).len(),
            self.dir_seq(from) == orig.dir_seq(from).remove(fi),
            self.dir_seq(to) == orig.dir_seq(to).push(orig.dir_seq(from)[fi]),
            SpoolDir::Pending != from && SpoolDir::Pending != to ==> self.pending@
                == orig.pending@,
            SpoolDir::Uploading != from && SpoolDir::Uploading != to ==> self.uploading@
                == orig.uploading@,
            SpoolDir::Failed != from && SpoolDir::Failed != to ==> self.failed@ == orig.failed@,
            SpoolDir::Completed != from && SpoolDir::Completed != to ==> self.completed@
                == orig.completed@,
            0 <= a < self.dir_seq(d1).len(),
            0 <= b < self.dir_seq(d2).len(),
        ensures
            self.dir_seq(d1)[a].payload_id@ != self.dir_seq(d2)[b].payload_id@,
    {
        lemma_entry_origin(self, orig, from, to, fi, d1, a);
        lemma_entry_origin(self, orig, from, to, fi, d2, b);
        let od1: SpoolDir = if d1 == to && a == self.dir_seq(d1).len() - 1 {
            from
        } else {
            d1
        };
        let oa: int = if d1 == from {
            if a < fi {
                a
            } else {
                a + 1
            }
        } else if d1 == to && a == self.dir_seq(d1).len() - 1 {
            fi
        } else {
            a
        };
        let od2: SpoolDir = if d2 == to && b == self.dir_seq(d2).len() - 1 {
            from
        } else {
            d2
        };
        let ob: int = if d2 == from {
            if b < fi {
                b
            } else {
                b + 1
            }
        } else if d2 == to && b == self.dir_seq(d2).len() - 1 {
            fi
        } else {
            b
        };
        assert(self.dir_seq(d1)[a] == orig.dir_seq(od1)[oa]);
        assert(self.dir_seq(d2)[b] == orig.dir_seq(od2)[ob]);
        if od1 == od2 {
            lemma_orig_unique(orig.dir_seq(od1), oa, ob);
        } else {
            lemma_orig_disjoint(orig, od1, od2, oa, ob);
        }
    }
}

/// A civil UTC instant, as both epoch seconds and calendar fields. The
/// clock is read outside the library and handed in as plain values.
#[derive(Debug, Clone, Copy, PartialEq, Eq, Structural)]
pub struct UtcTime {
    pub epoch_secs: i64,
    pub year: u64,
    pub month: u64,
    pub day: u64,
    pub hour: u64,
    pub minute: u64,
    pub second: u64,
}

/// A plausible civil instant: fields in range, with a four-digit year.
pub open spec fn spec_wf_time(t: UtcTime) -> bool {
    &&& t.epoch_secs >= 0
    &&& t.year <= 9999
    &&& 1 <= t.month <= 12
    &&& 1 <= t.day <= 31
    &&& t.hour <= 23
    &&& t.minute <= 59
    &&& t.second <= 59
}

/// The compact `YYYYMMDDHHMMSS` rendering of an instant.
pub open spec fn spec_compact_timestamp(t: UtcTime) -> Seq<char> {
    spec_padded_dec(t.year as int, 4) + spec_padded_dec(t.month as int, 2) + spec_padded_dec(
        t.day as int,
        2,
    ) + spec_padded_dec(t.hour as int, 2) + spec_padded_dec(t.minute as int, 2) + spec_padded_dec(
        t.second as int,
        2,
    )
}

/// Render an instant as `YYYYMMDDHHMMSS`.
pub fn compact_timestamp(t: &UtcTime) -> (r: String)
    requires
        spec_wf_time(*t),
    ensures
        r@ == spec_compact_timestamp(*t),
{
    let r = padded_dec(t.year, 4).concat(padded_dec(t.month, 2).as_str()).concat(
        padded_dec(t.day, 2).as_str(),
    ).concat(padded_dec(t.hour, 2).as_str()).concat(padded_dec(t.minute, 2).as_str()).concat(
        padded_dec(t.second, 2).as_str(),
    );
    r
}

/// The correlation id of one enqueue:
/// `{agent_id}-{YYYYMMDDHHMMSS}-{8 hex digits}`.
pub open spec fn spec_correlation_id(agent_id: Seq<char>, t: UtcTime, random: u32) -> Seq<char> {
    agent_id + "-"@ + spec_compact_timestamp(t) + "-"@ + spec_hex_fixed(random as int, 8)
}

/// The file name a payload lives under: `{run_id}_payload.json`.
pub fn payload_file_name(run_id: &str) -> (r: String)
    ensures
        r@ == run_id@ + "_payload.json"@,
{
    run_id.to_owned().concat("_payload.json")
}

impl Spool {
    /// Build the correlation id for one enqueue from the instant and a
    /// random tag, under the spool's agent identity.
    pub fn generate_correlation_id(&self, t: &UtcTime, random: u32) -> (r: String)
        requires
            spec_wf_time(*t),
        ensures
            r@ == spec_correlation_id(self.agent_id@, *t, random),
    {
        self.agent_id.clone().concat("-").concat(compact_timestamp(t).as_str()).concat(
            "-",
        ).concat(hex8(random).as_str())
    }
}

/// The total size of the entries, in bytes.
pub open spec fn spec_size_sum(s: Seq<SpoolEntry>) -> int
    decreases s.len(),
{
    if s.len() == 0 {
        0
    } else {
        spec_size_sum(s.drop_last()) + s.last().size
    }
}

/// The size of the pending directory in whole MB, saturated to the `u64`
/// range.
pub open spec fn spec_pending_mb(s: Spool) -> int {
    let mb = spec_size_sum(s.pending@) / 0x100000;
    if mb > u64::MAX {
        u64::MAX as int
    } else {
        mb
    }
}

proof fn lemma_size_sum_bound(s: Seq<SpoolEntry>)
    ensures
        0 <= spec_size_sum(s) <= s.len() * (u64::MAX as int),
    decreases s.len(),
{
    if s.len() > 0 {
        lemma_size_sum_bound(s.drop_last());
        assert((s.len() - 1) * (u64::MAX as int) + (u64::MAX as int) == s.len() * (
        u64::MAX as int)) by (nonlinear_arith);
    }
}

/// The pending directory's size in whole MB, saturated to `u64`.
fn pending_used_mb(v: &Vec<SpoolEntry>) -> (r: u64)
    ensures
        r as int == ({
            let mb = spec_size_sum(v@) / 0x100000;
            if mb > u64::MAX {
                u64::MAX as int
            } else {
                mb
            }
        }),
{
    let n = v.len();
    let mut total: u128 = 0;
    let mut i: usize = 0;
    proof {
        assert(v@.subrange(0, 0) =~= Seq::<SpoolEntry>::empty());
    }
    while i < n
        invariant
            i <= n,
            n == v@.len(),
            total == spec_size_sum(v@.subrange(0, i as int)),
            total <= i * (u64::MAX as int),
        decreases n - i,
    {
        proof {
            assert(v@.subrange(0, i + 1).drop_last() =~= v@.subrange(0, i as int));
            assert(v@.subrange(0, i + 1).last() == v@[i as int]);
            assert(i * (u64::MAX as int) + (u64::MAX as int) == (i + 1) * (u64::MAX as int))
                by (nonlinear_arith);
            assert((i + 1) * (u64::MAX as int) <= (u64::MAX as int) * (u64::MAX as int))
                by (nonlinear_arith)
                requires
                    0 <= i,
                    i + 1 <= u64::MAX,
            ;
        }
        total = total + v[i].size as u128;
        i = i + 1;
    }
    proof {
        assert(v@.subrange(0, n as int) =~= v@);
    }
    let mb = total / 0x100000;
    if mb > u64::MAX as u128 {
        u64::MAX
    } else {
        mb as u64
    }
}

/// The entries young enough to survive an age sweep at the given cutoff.
pub open spec fn spec_fresh(s: Seq<SpoolEntry>, cutoff: int) -> Seq<SpoolEntry>
    decreases s.len(),
{
    if s.len() == 0 {
        s
    } else if s.last().mtime >= cutoff {
        spec_fresh(s.drop_last(), cutoff).push(s.last())
    } else {
        spec_fresh(s.drop_last(), cutoff)
    }
}

/// The file names of the entries an age sweep removes.
pub open spec fn spec_stale_names(s: Seq<SpoolEntry>, cutoff: int) -> Seq<Seq<char>>
    decreases s.len(),
{
    if s.len() == 0 {
        Seq::<Seq<char>>::empty()
    } else if s.last().mtime >= cutoff {
        spec_stale_names(s.drop_last(), cutoff)
    } else {
        spec_stale_names(s.drop_last(), cutoff).push(s.last().name@)
    }
}

/// What survives an age sweep was there before.
pub proof fn lemma_fresh_subset(s: Seq<SpoolEntry>, cutoff: int)
    ensures
        forall|e: SpoolEntry| spec_fresh(s, cutoff).contains(e) ==> s.contains(e),
    decreases s.len(),
{
    if s.len() > 0 {
        lemma_fresh_subset(s.drop_last(), cutoff);
        assert forall|e: SpoolEntry| spec_fresh(s, cutoff).contains(e) implies s.contains(e) by {
            if s.last().mtime >= cutoff {
                let f = spec_fresh(s.drop_last(), cutoff);
                let k = choose|k: int| 0 <= k < f.push(s.last()).len() && f.push(s.last())[k] == e;
                if k < f.len() {
                    assert(f[k] == e);
                    assert(f.contains(e));
                    assert(s.drop_last().contains(e));
                    let o = choose|o: int| 0 <= o < s.drop_last().len() && s.drop_last()[o] == e;
                    assert(s.drop_last()[o] == s[o]);
                    assert(s[o] == e);
                } else {
                    assert(s[s.len() - 1] == e);
                }
            } else {
                assert(spec_fresh(s.drop_last(), cutoff).contains(e));
                assert(s.drop_last().contains(e));
                let o = choose|o: int| 0 <= o < s.drop_last().len() && s.drop_last()[o] == e;
                assert(s.drop_last()[o] == s[o]);
                assert(s[o] == e);
            }
        }
    }
}

/// An age sweep keeps ids unique.
pub proof fn lemma_fresh_unique(s: Seq<SpoolEntry>, cutoff: int)
    requires
        unique_ids(s),
    ensures
        unique_ids(spec_fresh(s, cutoff)),
    decreases s.len(),
{
    if s.len() > 0 {
        let t = s.drop_last();
        assert(unique_ids(t)) by {
            assert forall|i: int, j: int|
                0 <= i < j < t.len() implies (#[trigger] t[i]).payload_id@ != (
            #[trigger] t[j]).payload_id@ by {
                assert(t[i] == s[i] && t[j] == s[j]);
            }
        }
        lemma_fresh_unique(t, cutoff);
        lemma_fresh_subset(t, cutoff);
        if s.last().mtime >= cutoff {
            let f = spec_fresh(t, cutoff);
            assert forall|i: int, j: int|
                0 <= i < j < f.push(s.last()).len() implies (
            #[trigger] f.push(s.last())[i]).payload_id@ != (
            #[trigger] f.push(s.last())[j]).payload_id@ by {
                if j == f.len() {
                    assert(f.push(s.last())[i] == f[i]);
                    assert(f.contains(f[i]));
                    assert(t.contains(f[i]));
                    let o = choose|o: int| 0 <= o < t.len() && t[o] == f[i];
                    assert(t[o] == s[o]);
                    assert(s[o] == f[i]);
                    assert(s[o].payload_id@ != s[s.len() - 1].payload_id@);
                } else {
                    assert(f.push(s.last())[i] == f[i]);
                    assert(f.push(s.last())[j] == f[j]);
                }
            }
        }
    }
}

/// No-loss under the age sweep: an entry at or above the cutoff survives
/// it. Together with the transition contracts — which move entries between
/// directories and delete nothing — no pending or uploading payload is ever
/// dropped except to `completed/`, to `failed/`, or by this sweep.
pub proof fn lemma_no_loss_fresh(s: Seq<SpoolEntry>, cutoff: int, i: int)
    requires
        0 <= i < s.len(),
        s[i].mtime >= cutoff,
    ensures
        spec_fresh(s, cutoff).contains(s[i]),
    decreases s.len(),
{
    if i == s.len() - 1 {
        assert(s.last() == s[i]);
        let f = spec_fresh(s.drop_last(), cutoff);
        assert(f.push(s.last())[f.len() as int] == s[i]);
    } else {
        lemma_no_loss_fresh(s.drop_last(), cutoff, i);
        assert(s.drop_last()[i] == s[i]);
        let f = spec_fresh(s.drop_last(), cutoff);
        let o = choose|o: int| 0 <= o < f.len() && f[o] == s[i];
        if s.last().mtime >= cutoff {
            assert(f.push(s.last())[o] == s[i]);
        }
    }
}

/// Sweep a directory: drop every entry older than the cutoff, keeping the
/// order of the survivors, and report the dropped file names.
fn retain_fresh(v: &mut Vec<SpoolEntry>, cutoff: i128) -> (removed: Vec<String>)
    ensures
        final(v)@ == spec_fresh(old(v)@, cutoff as int),
        removed.deep_view() == spec_stale_names(old(v)@, cutoff as int),
{
    let n = v.len();
    let mut kept: Vec<SpoolEntry> = Vec::new();
    let mut removed: Vec<String> = Vec::new();
    let mut i: usize = 0;
    proof {
        assert(old(v)@.subrange(0, 0) =~= Seq::<SpoolEntry>::empty());
        assert(removed.deep_view() =~= spec_stale_names(old(v)@.subrange(0, 0), cutoff as int));
    }
    while i < n
        invariant
            i <= n,
            n == v@.len(),
            v@ == old(v)@,
            kept@ == spec_fresh(old(v)@.subrange(0, i as int), cutoff as int),
            removed.deep_view() == spec_stale_names(old(v)@.subrange(0, i as int), cutoff as int),
        decreases n - i,
    {
        proof {
            assert(old(v)@.subrange(0, i + 1).drop_last() =~= old(v)@.subrange(0, i as int));
            assert(old(v)@.subrange(0, i + 1).last() == old(v)@[i as int]);
        }
        let e = v[i].clone_entry();
        if e.mtime as i128 >= cutoff {
            kept.push(e);
        } else {
            removed.push(e.name);
            proof {
                assert(removed.deep_view() =~= spec_stale_names(old(v)@.subrange(0, i + 1),
                    cutoff as int));
            }
        }
        i = i + 1;
    }
    proof {
        assert(old(v)@.subrange(0, n as int) =~= old(v)@);
    }
    *v = kept;
    removed
}

/// Within one directory of a well-formed spool, different indices carry
/// different ids.
proof fn lemma_orig_unique(s: Seq<SpoolEntry>, i: int, j: int)
    requires
        unique_ids(s),
        0 <= i < s.len(),
        0 <= j < s.len(),
        i != j,
    ensures
        s[i].payload_id@ != s[j].payload_id@,
{
    if i < j {
        assert(s[i].payload_id@ != s[j].payload_id@);
    } else {
        assert(s[j].payload_id@ != s[i].payload_id@);
    }
}

/// Across two different directories of a well-formed spool, ids differ.
proof fn lemma_orig_disjoint(orig: Spool, d1: SpoolDir, d2: SpoolDir, i: int, j: int)
    requires
        orig.wf(),
        d1 != d2,
        0 <= i < orig.dir_seq(d1).len(),
        0 <= j < orig.dir_seq(d2).len(),
    ensures
        orig.dir_seq(d1)[i].payload_id@ != orig.dir_seq(d2)[j].payload_id@,
{
}

/// An entry of the spool after a move came either from the same place in
/// the old spool, or is the moved entry itself.
proof fn lemma_entry_origin(
    new: Spool,
    orig: Spool,
    from: SpoolDir,
    to: SpoolDir,
    fi: int,
    d: SpoolDir,
    k: int,
)
    requires
        orig.wf(),
        from != to,
        0 <= fi < orig.dir_seq(from).len(),
        new.dir_seq(from) == orig.dir_seq(from).remove(fi),
        new.dir_seq(to) == orig.dir_seq(to).push(orig.dir_seq(from)[fi]),
        SpoolDir::Pending != from && SpoolDir::Pending != to ==> new.pending@ == orig.pending@,
        SpoolDir::Uploading != from && SpoolDir::Uploading != to ==> new.uploading@
            == orig.uploading@,
        SpoolDir::Failed != from && SpoolDir::Failed != to ==> new.failed@ == orig.failed@,
        SpoolDir::Completed != from && SpoolDir::Completed != to ==> new.completed@
            == orig.completed@,
        0 <= k < new.dir_seq(d).len(),
    ensures
        d == from ==> new.dir_seq(d)[k] == orig.dir_seq(from)[if k < fi {
            k
        } else {
            k + 1
        }] && (if k < fi {
            k
        } else {
            k + 1
        }) != fi,
        d == to && k == new.dir_seq(d).len() - 1 ==> new.dir_seq(d)[k] == orig.dir_seq(from)[fi],
        d == to && k < new.dir_seq(d).len() - 1 ==> new.dir_seq(d)[k] == orig.dir_seq(to)[k],
        d != from && d != to ==> new.dir_seq(d)[k] == orig.dir_seq(d)[k],
{
    if d == from {
        let o: int = if k < fi { k } else { k + 1 };
        assert(new.dir_seq(d)[k] == orig.dir_seq(from)[o]);
    } else if d == to {
        if k == new.dir_seq(d).len() - 1 {
            assert(new.dir_seq(d)[k] == orig.dir_seq(from)[fi]);
        } else {
            assert(new.dir_seq(d)[k] == orig.dir_seq(d)[k]);
        }
    } else {
        assert(new.dir_seq(d)[k] == orig.dir_seq(d)[k]);
    }
}

/// What one successful enqueue hands back: the correlation id baked into
/// the payload, the file name to write under, and the file names the age
/// sweep dropped from `pending/` and `failed/`, to be deleted on disk.
#[derive(Debug)]
pub struct EnqueueReceipt {
    pub correlation_id: String,
    pub file_name: String,
    pub expired_pending: Vec<String>,
    pub expired_failed: Vec<String>,
}

impl Spool {
    /// Queue a freshly produced payload. The payload id must be new to the
    /// spool — ids are freshly minted for every extraction. When the pending
    /// directory is at or over its size cap the enqueue is refused. Otherwise
    /// pending and failed entries older than the age cap are swept, and the
    /// payload enters `pending/` under `{run_id}_payload.json` with a
    /// correlation id of `{agent_id}-{YYYYMMDDHHMMSS}-{8 hex digits}`.
    pub fn enqueue(&mut self, run_id: &str, size: u64, now: &UtcTime, random: u32) -> (r: Result<
        EnqueueReceipt,
        SpoolError,
    >)
        requires
            old(self).wf(),
            spec_wf_time(*now),
            !old(self).holds_id(run_id@),
        ensures
            final(self).wf(),
            final(self).config == old(self).config,
            final(self).agent_id == old(self).agent_id,
            final(self).uploading@ == old(self).uploading@,
            final(self).completed@ == old(self).completed@,
            match r {
                Ok(receipt) => {
                    let cutoff = now.epoch_secs - old(self).config.max_age_days * 86400;
                    &&& spec_pending_mb(*old(self)) < old(self).config.max_pending_mb
                    &&& final(self).pending@ == spec_fresh(old(self).pending@, cutoff).push(
                        final(self).pending@.last(),
                    )
                    &&& final(self).pending@.last().payload_id@ == run_id@
                    &&& final(self).pending@.last().name@ == run_id@ + "_payload.json"@
                    &&& final(self).pending@.last().size == size
                    &&& final(self).pending@.last().mtime == now.epoch_secs
                    &&& final(self).failed@ == spec_fresh(old(self).failed@, cutoff)
                    &&& receipt.correlation_id@ == spec_correlation_id(
                        old(self).agent_id@,
                        *now,
                        random,
                    )
                    &&& receipt.file_name@ == run_id@ + "_payload.json"@
                    &&& receipt.expired_pending.deep_view() == spec_stale_names(
                        old(self).pending@,
                        cutoff,
                    )
                    &&& receipt.expired_failed.deep_view() == spec_stale_names(
                        old(self).failed@,
                        cutoff,
                    )
                },
                Err(e) => {
                    &&& spec_pending_mb(*old(self)) >= old(self).config.max_pending_mb
                    &&& *final(self) == *old(self)
                    &&& (e matches SpoolError::Full(used, cap) && used as int == spec_pending_mb(
                        *old(self),
                    ) && cap == old(self).config.max_pending_mb)
                },
            },
    {
        let used_mb = pending_used_mb(&self.pending);
        if used_mb >= self.config.max_pending_mb {
            return Err(SpoolError::Full(used_mb, self.config.max_pending_mb));
        }
        let cutoff: i128 = now.epoch_secs as i128 - self.config.max_age_days as i128 * 86400;
        let expired_pending = retain_fresh(&mut self.pending, cutoff);
        let expired_failed = retain_fresh(&mut self.failed, cutoff);
        let correlation_id = self.generate_correlation_id(now, random);
        let file_name = payload_file_name(run_id);
        let entry = SpoolEntry {
            payload_id: run_id.to_owned(),
            name: file_name.clone(),
            size,
            mtime: now.epoch_secs,
        };
        self.pending.push(entry);
        proof {
            let c = cutoff as int;
            lemma_fresh_unique(old(self).pending@, c);
            lemma_fresh_subset(old(self).pending@, c);
            lemma_fresh_unique(old(self).failed@, c);
            lemma_fresh_subset(old(self).failed@, c);
            let fp = spec_fresh(old(self).pending@, c);
            let ff = spec_fresh(old(self).failed@, c);
            assert(self.pending@ == fp.push(self.pending@.last()));
            // The new entry's id is nowhere in the old spool.
            assert(!has_id(old(self).pending@, run_id@));
            // Unique ids in the grown pending directory.
            assert forall|a: int, b: int|
                0 <= a < b < self.pending@.len() implies (#[trigger] self.pending@[a]).payload_id@
                != (#[trigger] self.pending@[b]).payload_id@ by {
                if b == self.pending@.len() - 1 {
                    assert(self.pending@[a] == fp[a]);
                    assert(fp.contains(fp[a]));
                    assert(old(self).pending@.contains(fp[a]));
                    let o = choose|o: int|
                        0 <= o < old(self).pending@.len() && old(self).pending@[o] == fp[a];
                    if old(self).pending@[o].payload_id@ == run_id@ {
                        assert(has_id(old(self).pending@, run_id@));
                    }
                } else {
                    assert(self.pending@[a] == fp[a]);
                    assert(self.pending@[b] == fp[b]);
                }
            }
            lemma_enqueue_disjoint(fp, old(self).pending@, run_id@, self.pending@,
                old(self).uploading@, c);
            lemma_enqueue_disjoint(fp, old(self).pending@, run_id@, self.pending@,
                old(self).completed@, c);
            // Pending versus the swept failed directory.
            lemma_fresh_to_fresh_disjoint(fp, old(self).pending@, run_id@, self.pending@, ff,
                old(self).failed@, c);
            // The swept failed directory versus the untouched directories.
            lemma_fresh_left_disjoint(ff, old(self).failed@, old(self).uploading@, c);
            lemma_fresh_left_disjoint(ff, old(self).failed@, old(self).completed@, c);
            assert(disjoint_ids(self.uploading@, self.failed@)) by {
                assert forall|x: int, y: int|
                    0 <= x < self.uploading@.len() && 0 <= y < self.failed@.len() implies (
                #[trigger] self.uploading@[x]).payload_id@ != (
                #[trigger] self.failed@[y]).payload_id@ by {
                    assert(self.failed@[y].payload_id@ != self.uploading@[x].payload_id@);
                }
            }
        }
        Ok(EnqueueReceipt { correlation_id, file_name, expired_pending, expired_failed })
    }
}

/// After an enqueue, the grown pending directory stays disjoint from an
/// untouched directory: the swept survivors were pending before, and the
/// new id is new to the whole spool.
proof fn lemma_enqueue_disjoint(
    fp: Seq<SpoolEntry>,
    old_pending: Seq<SpoolEntry>,
    run_id: Seq<char>,
    new_pending: Seq<SpoolEntry>,
    other: Seq<SpoolEntry>,
    c: int,
)
    requires
        fp == spec_fresh(old_pending, c),
        new_pending.len() == fp.len() + 1,
        forall|k: int| 0 <= k < fp.len() ==> new_pending[k] == fp[k],
        new_pending.last().payload_id@ == run_id,
        disjoint_ids(old_pending, other),
        !has_id(other, run_id),
    ensures
        disjoint_ids(new_pending, other),
{
    lemma_fresh_subset(old_pending, c);
    assert forall|a: int, b: int|
        0 <= a < new_pending.len() && 0 <= b < other.len() implies (
    #[trigger] new_pending[a]).payload_id@ != (#[trigger] other[b]).payload_id@ by {
        if a == new_pending.len() - 1 {
            if other[b].payload_id@ == run_id {
                assert(has_id(other, run_id));
            }
        } else {
            assert(new_pending[a] == fp[a]);
            assert(fp.contains(fp[a]));
            assert(old_pending.contains(fp[a]));
            let o = choose|o: int| 0 <= o < old_pending.len() && old_pending[o] == fp[a];
            assert(old_pending[o].payload_id@ != other[b].payload_id@);
        }
    }
}

/// A swept directory stays disjoint from an untouched one.
proof fn lemma_fresh_left_disjoint(
    ff: Seq<SpoolEntry>,
    old_dir: Seq<SpoolEntry>,
    other: Seq<SpoolEntry>,
    c: int,
)
    requires
        ff == spec_fresh(old_dir, c),
        disjoint_ids(old_dir, other),
    ensures
        disjoint_ids(ff, other),
        disjoint_ids(other, ff),
{
    lemma_fresh_subset(old_dir, c);
    assert forall|a: int, b: int|
        0 <= a < ff.len() && 0 <= b < other.len() implies (#[trigger] ff[a]).payload_id@ != (
    #[trigger] other[b]).payload_id@ by {
        assert(ff.contains(ff[a]));
        assert(old_dir.contains(ff[a]));
        let o = choose|o: int| 0 <= o < old_dir.len() && old_dir[o] == ff[a];
        assert(old_dir[o].payload_id@ != other[b].payload_id@);
    }
    assert forall|b: int, a: int|
        0 <= b < other.len() && 0 <= a < ff.len() implies (#[trigger] other[b]).payload_id@ != (
    #[trigger] ff[a]).payload_id@ by {
        assert(ff[a].payload_id@ != other[b].payload_id@);
    }
}

/// The grown pending directory stays disjoint from the swept failed
/// directory.
proof fn lemma_fresh_to_fresh_disjoint(
    fp: Seq<SpoolEntry>,
    old_pending: Seq<SpoolEntry>,
    run_id: Seq<char>,
    new_pending: Seq<SpoolEntry>,
    ff: Seq<SpoolEntry>,
    old_failed: Seq<SpoolEntry>,
    c: int,
)
    requires
        fp == spec_fresh(old_pending, c),
        ff == spec_fresh(old_failed, c),
        new_pending.len() == fp.len() + 1,
        forall|k: int| 0 <= k < fp.len() ==> new_pending[k] == fp[k],
        new_pending.last().payload_id@ == run_id,
        disjoint_ids(old_pending, old_failed),
        !has_id(old_failed, run_id),
    ensures
        disjoint_ids(new_pending, ff),
{
    lemma_fresh_subset(old_pending, c);
    lemma_fresh_subset(old_failed, c);
    assert forall|a: int, b: int|
        0 <= a < new_pending.len() && 0 <= b < ff.len() implies (
    #[trigger] new_pending[a]).payload_id@ != (#[trigger] ff[b]).payload_id@ by {
        assert(ff.contains(ff[b]));
        assert(old_failed.contains(ff[b]));
        let ob = choose|o: int| 0 <= o < old_failed.len() && old_failed[o] == ff[b];
        if a == new_pending.len() - 1 {
            if old_failed[ob].payload_id@ == run_id {
                assert(has_id(old_failed, run_id));
            }
        } else {
            assert(new_pending[a] == fp[a]);
            assert(fp.contains(fp[a]));
            assert(old_pending.contains(fp[a]));
            let oa = choose|o: int| 0 <= o < old_pending.len() && old_pending[o] == fp[a];
            assert(old_pending[oa].payload_id@ != old_failed[ob].payload_id@);
        }
    }
}

/// Entries in mtime order: oldest first.
pub open spec fn sorted_by_mtime(s: Seq<SpoolEntry>) -> bool {
    forall|i: int, j: int| 0 <= i < j < s.len() ==> (#[trigger] s[i]).mtime <= (#[trigger] s[j]).mtime
}

/// Take the oldest entry (the first of the oldest, on ties) out of a
/// directory.
fn take_oldest(v: &mut Vec<SpoolEntry>) -> (e: SpoolEntry)
    requires
        old(v)@.len() > 0,
    ensures
        old(v)@.contains(e),
        forall|k: int| 0 <= k < old(v)@.len() ==> e.mtime <= (#[trigger] old(v)@[k]).mtime,
        final(v)@.to_multiset() == old(v)@.to_multiset().remove(e),
        final(v)@.len() == old(v)@.len() - 1,
        forall|k: int| 0 <= k < final(v)@.len() ==> old(v)@.contains(#[trigger] final(v)@[k]),
        unique_ids(old(v)@) ==> unique_ids(final(v)@),
{
    broadcast use vstd::seq_lib::group_to_multiset_ensures;

    let n = v.len();
    let mut mi: usize = 0;
    let mut i: usize = 1;
    while i < n
        invariant
            1 <= i <= n,
            mi < i,
            n == v@.len(),
            *v == *old(v),
            forall|k: int| 0 <= k < i ==> v@[mi as int].mtime <= (#[trigger] v@[k]).mtime,
        decreases n - i,
    {
        if v[i].mtime < v[mi].mtime {
            mi = i;
        }
        i = i + 1;
    }
    let e = v.remove(mi);
    proof {
        assert(old(v)@.contains(e)) by {
            assert(old(v)@[mi as int] == e);
        }
        assert forall|k: int| 0 <= k < v@.len() implies old(v)@.contains(#[trigger] v@[k]) by {
            let o: int = if k < mi as int { k } else { k + 1 };
            assert(v@[k] == old(v)@[o]);
        }
        if unique_ids(old(v)@) {
            assert forall|a: int, b: int|
                0 <= a < b < v@.len() implies (#[trigger] v@[a]).payload_id@ != (
            #[trigger] v@[b]).payload_id@ by {
                let oa: int = if a < mi as int { a } else { a + 1 };
                let ob: int = if b < mi as int { b } else { b + 1 };
                assert(v@[a] == old(v)@[oa]);
                assert(v@[b] == old(v)@[ob]);
            }
        }
    }
    e
}

impl Spool {
    /// Trim `completed/` to the configured retention count, dropping the
    /// oldest entries first. Returns the dropped entries so their files can
    /// be deleted; every dropped entry is at least as old as every kept one.
    pub fn cleanup_completed(&mut self) -> (removed: Vec<SpoolEntry>)
        requires
            old(self).wf(),
        ensures
            final(self).wf(),
            final(self).config == old(self).config,
            final(self).agent_id == old(self).agent_id,
            final(self).pending@ == old(self).pending@,
            final(self).uploading@ == old(self).uploading@,
            final(self).failed@ == old(self).failed@,
            final(self).completed@.len() == if old(self).completed@.len() <= old(
                self,
            ).config.completed_retention_count {
                old(self).completed@.len() as int
            } else {
                old(self).config.completed_retention_count as int
            },
            final(self).completed@.to_multiset().add(removed@.to_multiset()) == old(
                self,
            ).completed@.to_multiset(),
            forall|a: int, b: int|
                0 <= a < removed@.len() && 0 <= b < final(self).completed@.len() ==> (
                #[trigger] removed@[a]).mtime <= (#[trigger] final(self).completed@[b]).mtime,
    {
        broadcast use vstd::seq_lib::group_to_multiset_ensures;

        let mut removed: Vec<SpoolEntry> = Vec::new();
        let retention = self.config.completed_retention_count;
        proof {
            assert(self.completed@.to_multiset().add(removed@.to_multiset())
                =~= old(self).completed@.to_multiset());
        }
        while self.completed.len() > retention
            invariant
                old(self).wf(),
                retention == old(self).config.completed_retention_count,
                self.config == old(self).config,
                self.agent_id == old(self).agent_id,
                self.pending@ == old(self).pending@,
                self.uploading@ == old(self).uploading@,
                self.failed@ == old(self).failed@,
                self.completed@.len() >= retention || self.completed@ == old(self).completed@,
                self.completed@.len() <= old(self).completed@.len(),
                self.completed@.to_multiset().add(removed@.to_multiset()) == old(
                    self,
                ).completed@.to_multiset(),
                unique_ids(self.completed@),
                forall|k: int|
                    0 <= k < self.completed@.len() ==> old(self).completed@.contains(
                        #[trigger] self.completed@[k],
                    ),
                forall|a: int, b: int|
                    0 <= a < removed@.len() && 0 <= b < self.completed@.len() ==> (
                    #[trigger] removed@[a]).mtime <= (#[trigger] self.completed@[b]).mtime,
            decreases self.completed@.len(),
        {
            let ghost before = self.completed@;
            let ghost removed_before = removed@;
            let e = take_oldest(&mut self.completed);
            removed.push(e);
            proof {
                assert(self.completed@.to_multiset().add(removed@.to_multiset()) =~= old(
                    self,
                ).completed@.to_multiset()) by {
                    removed_before.to_multiset_ensures();
                    before.to_multiset_ensures();
                    assert(removed@ == removed_before.push(e));
                    assert(removed_before.push(e).to_multiset() =~= removed_before.to_multiset().insert(e));
                    assert(self.completed@.to_multiset() =~= before.to_multiset().remove(e));
                    assert(before.contains(e));
                    assert(before.to_multiset().count(e) > 0);
                    assert(before.to_multiset().remove(e).add(
                        removed_before.to_multiset().insert(e),
                    ) =~= before.to_multiset().add(removed_before.to_multiset()));
                }
                assert forall|k: int|
                    0 <= k < self.completed@.len() implies old(self).completed@.contains(
                    #[trigger] self.completed@[k],
                ) by {
                    assert(before.contains(self.completed@[k]));
                    let o = choose|o: int| 0 <= o < before.len() && before[o] == self.completed@[k];
                }
                assert forall|a: int, b: int|
                    0 <= a < removed@.len() && 0 <= b < self.completed@.len() implies (
                #[trigger] removed@[a]).mtime <= (#[trigger] self.completed@[b]).mtime by {
                    assert(before.contains(self.completed@[b]));
                    let o = choose|o: int| 0 <= o < before.len() && before[o] == self.completed@[b];
                    if a < removed@.len() - 1 {
                        assert(removed@[a] == removed_before[a]);
                        assert(removed_before[a].mtime <= before[o].mtime);
                    } else {
                        assert(removed@[a] == e);
                        assert(e.mtime <= before[o].mtime);
                    }
                }
            }
        }
        proof {
            // Disjointness against the shrunk completed directory.
            assert forall|a: int, b: int|
                0 <= a < self.pending@.len() && 0 <= b < self.completed@.len() implies (
            #[trigger] self.pending@[a]).payload_id@ != (
            #[trigger] self.completed@[b]).payload_id@ by {
                assert(old(self).completed@.contains(self.completed@[b]));
                let o = choose|o: int|
                    0 <= o < old(self).completed@.len() && old(self).completed@[o]
                        == self.completed@[b];
                assert(self.pending@[a].payload_id@ != old(self).completed@[o].payload_id@);
            }
            assert forall|a: int, b: int|
                0 <= a < self.uploading@.len() && 0 <= b < self.completed@.len() implies (
            #[trigger] self.uploading@[a]).payload_id@ != (
            #[trigger] self.completed@[b]).payload_id@ by {
                assert(old(self).completed@.contains(self.completed@[b]));
                let o = choose|o: int|
                    0 <= o < old(self).completed@.len() && old(self).completed@[o]
                        == self.completed@[b];
                assert(self.uploading@[a].payload_id@ != old(self).completed@[o].payload_id@);
            }
            assert forall|a: int, b: int|
                0 <= a < self.failed@.len() && 0 <= b < self.completed@.len() implies (
            #[trigger] self.failed@[a]).payload_id@ != (
            #[trigger] self.completed@[b]).payload_id@ by {
                assert(old(self).completed@.contains(self.completed@[b]));
                let o = choose|o: int|
                    0 <= o < old(self).completed@.len() && old(self).completed@[o]
                        == self.completed@[b];
                assert(self.failed@[a].payload_id@ != old(self).completed@[o].payload_id@);
            }
        }
        removed
    }

    /// The pending payloads, oldest first by the instant they entered the
    /// directory: the order the uploader drains them in.
    pub fn get_pending(&self) -> (r: Vec<SpoolEntry>)
        ensures
            r@.to_multiset() == self.pending@.to_multiset(),
            sorted_by_mtime(r@),
    {
        broadcast use vstd::seq_lib::group_to_multiset_ensures;

        let n = self.pending.len();
        let mut scratch: Vec<SpoolEntry> = Vec::new();
        let mut i: usize = 0;
        proof {
            assert(scratch@ =~= self.pending@.subrange(0, 0));
        }
        while i < n
            invariant
                i <= n,
                n == self.pending@.len(),
                scratch@ == self.pending@.subrange(0, i as int),
            decreases n - i,
        {
            scratch.push(self.pending[i].clone_entry());
            proof {
                assert(scratch@ =~= self.pending@.subrange(0, i + 1));
            }
            i = i + 1;
        }
        proof {
            assert(self.pending@.subrange(0, n as int) =~= self.pending@);
        }
        let mut out: Vec<SpoolEntry> = Vec::new();
        proof {
            assert(out@.to_multiset().add(scratch@.to_multiset())
                =~= self.pending@.to_multiset());
        }
        while scratch.len() > 0
            invariant
                out@.to_multiset().add(scratch@.to_multiset()) == self.pending@.to_multiset(),
                sorted_by_mtime(out@),
                forall|a: int, b: int|
                    0 <= a < out@.len() && 0 <= b < scratch@.len() ==> (
                    #[trigger] out@[a]).mtime <= (#[trigger] scratch@[b]).mtime,
            decreases scratch@.len(),
        {
            let ghost scratch_before = scratch@;
            let ghost out_before = out@;
            let e = take_oldest(&mut scratch);
            out.push(e);
            proof {
                assert(out@.to_multiset().add(scratch@.to_multiset())
                    =~= self.pending@.to_multiset()) by {
                    out_before.to_multiset_ensures();
                    scratch_before.to_multiset_ensures();
                    assert(out@ == out_before.push(e));
                    assert(out_before.push(e).to_multiset() =~= out_before.to_multiset().insert(e));
                    assert(scratch@.to_multiset() =~= scratch_before.to_multiset().remove(e));
                    assert(scratch_before.contains(e));
                    assert(scratch_before.to_multiset().count(e) > 0);
                    assert(out_before.to_multiset().insert(e).add(
                        scratch_before.to_multiset().remove(e),
                    ) =~= out_before.to_multiset().add(scratch_before.to_multiset()));
                }
                assert forall|a: int, b: int|
                    0 <= a < b < out@.len() implies (#[trigger] out@[a]).mtime <= (
                #[trigger] out@[b]).mtime by {
                    if b == out@.len() - 1 {
                        assert(out@[a] == out_before[a]);
                        assert(scratch_before.contains(e));
                        let o = choose|o: int|
                            0 <= o < scratch_before.len() && scratch_before[o] == e;
                        assert(out_before[a].mtime <= scratch_before[o].mtime);
                    } else {
                        assert(out@[a] == out_before[a]);
                        assert(out@[b] == out_before[b]);
                    }
                }
                assert forall|a: int, b: int|
                    0 <= a < out@.len() && 0 <= b < scratch@.len() implies (
                #[trigger] out@[a]).mtime <= (#[trigger] scratch@[b]).mtime by {
                    assert(scratch_before.contains(scratch@[b]));
                    let o = choose|o: int|
                        0 <= o < scratch_before.len() && scratch_before[o] == scratch@[b];
                    if a < out@.len() - 1 {
                        assert(out@[a] == out_before[a]);
                        assert(out_before[a].mtime <= scratch_before[o].mtime);
                    } else {
                        assert(out@[a] == e);
                        assert(e.mtime <= scratch_before[o].mtime);
                    }
                }
            }
        }
        out
    }
}

/// Exactly-one-location: in a well-formed spool, a payload id names at most
/// one entry, in one directory — two entries with the same id are the same
/// entry of the same directory.
pub proof fn lemma_exactly_one_location(s: Spool, d1: SpoolDir, i: int, d2: SpoolDir, j: int)
    requires
        s.wf(),
        0 <= i < s.dir_seq(d1).len(),
        0 <= j < s.dir_seq(d2).len(),
        s.dir_seq(d1)[i].payload_id@ == s.dir_seq(d2)[j].payload_id@,
    ensures
        d1 == d2 && i == j,
{
    if d1 != d2 {
        lemma_orig_disjoint(s, d1, d2, i, j);
    } else if i != j {
        lemma_orig_unique(s.dir_seq(d1), i, j);
    }
}


} // verus!
