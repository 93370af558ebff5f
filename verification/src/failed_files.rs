//! The failed-file registry: a small durable record, separate from the
//! spool, of artifacts that failed before producing a payload. It exists so
//! an operator can see what failed and retry it; the pipeline itself never
//! consults it. Persistence to disk happens outside the library.

use vstd::prelude::*;

verus! {

/// The registry never holds more than this many entries.
pub const MAX_FAILED_FILES: usize = 100;

/// One failed artifact. Instants are UTC seconds.
#[derive(Debug, Clone)]
pub struct FailedFile {
    pub path: String,
    pub instrument_id: String,
    pub reason: String,
    pub failed_at: i64,
    pub retry_count: u32,
}

impl FailedFile {
    /// Clone one record.
    pub fn clone_record(&self) -> (r: FailedFile)
        ensures
            r == *self,
    {
        FailedFile {
            path: self.path.clone(),
            instrument_id: self.instrument_id.clone(),
            reason: self.reason.clone(),
            failed_at: self.failed_at,
            retry_count: self.retry_count,
        }
    }
}

/// No two records of the sequence share a path.
pub open spec fn unique_paths(s: Seq<FailedFile>) -> bool {
    forall|i: int, j: int|
        0 <= i < j < s.len() ==> (#[trigger] s[i]).path@ != (#[trigger] s[j]).path@
}

/// Some record of the sequence has the given path.
pub open spec fn has_file(s: Seq<FailedFile>, path: Seq<char>) -> bool {
    exists|i: int| 0 <= i < s.len() && (#[trigger] s[i]).path@ == path
}

/// The index of the record with the given path.
pub open spec fn file_index(s: Seq<FailedFile>, path: Seq<char>) -> int {
    choose|i: int| 0 <= i < s.len() && (#[trigger] s[i]).path@ == path
}

/// The registry: one record per failed path, capped.
#[derive(Debug)]
pub struct FailedFilesStore {
    pub files: Vec<FailedFile>,
}

impl FailedFilesStore {
    /// A well-formed registry: one record per path, within the cap.
    pub open spec fn wf(self) -> bool {
        unique_paths(self.files@) && self.files@.len() <= 100
    }

    /// An empty registry.
    pub fn new() -> (r: FailedFilesStore)
        ensures
            r.wf(),
            r.files@.len() == 0,
    {
        FailedFilesStore { files: Vec::new() }
    }

    fn find(&self, path: &str) -> (r: Option<usize>)
        ensures
            match r {
                Some(i) => i < self.files@.len() && self.files@[i as int].path@ == path@,
                None => !has_file(self.files@, path@),
            },
    {
        let n = self.files.len();
        let mut i: usize = 0;
        while i < n
            invariant
                i <= n,
                n == self.files@.len(),
                forall|j: int| 0 <= j < i ==> (#[trigger] self.files@[j]).path@ != path@,
            decreases n - i,
        {
            if crate::text::str_eq(self.files[i].path.as_str(), path) {
                return Some(i);
            }
            i = i + 1;
        }
        proof {
            if has_file(self.files@, path@) {
                let k = choose|k: int|
                    0 <= k < self.files@.len() && (#[trigger] self.files@[k]).path@ == path@;
                assert(self.files@[k].path@ != path@);
            }
        }
        None
    }

    /// Record a failure: any previous record of the path is replaced by a
    /// fresh one with a zero retry counter, and when the registry would pass
    /// its cap, the record with the oldest failure instant is evicted first.
    pub fn add(&mut self, path: String, instrument_id: String, reason: String, now: i64)
        requires
            old(self).wf(),
        ensures
            final(self).wf(),
            has_file(final(self).files@, path@),
            ({
                let i = file_index(final(self).files@, path@);
                &&& final(self).files@[i].instrument_id@ == instrument_id@
                &&& final(self).files@[i].reason@ == reason@
                &&& final(self).files@[i].failed_at == now
                &&& final(self).files@[i].retry_count == 0
            }),
            final(self).files@.len() <= 100,
            forall|k: int|
                0 <= k < final(self).files@.len() ==> old(self).files@.contains(
                    #[trigger] final(self).files@[k],
                ) || final(self).files@[k].path@ == path@,
            // Oldest-first eviction: a record of another path that was
            // dropped is no newer than any other record of another path.
            forall|k: int, j: int|
                0 <= k < old(self).files@.len() && 0 <= j < old(self).files@.len() && (
                #[trigger] old(self).files@[k]).path@ != path@ && (
                #[trigger] old(self).files@[j]).path@ != path@ && !final(self).files@.contains(
                    old(self).files@[k],
                ) ==> old(self).files@[k].failed_at <= old(self).files@[j].failed_at,
    {
        let found = self.find(path.as_str());
        let ghost same_idx: Option<int> = match found {
            Some(i) => Option::Some(i as int),
            None => Option::None,
        };
        match found {
            Some(i) => {
                let _ = self.files.remove(i);
                proof {
                    assert forall|a: int, b: int|
                        0 <= a < b < self.files@.len() implies (#[trigger] self.files@[a]).path@
                        != (#[trigger] self.files@[b]).path@ by {
                        let oa: int = if a < i as int { a } else { a + 1 };
                        let ob: int = if b < i as int { b } else { b + 1 };
                        assert(self.files@[a] == old(self).files@[oa]);
                        assert(self.files@[b] == old(self).files@[ob]);
                    }
                    assert forall|k: int|
                        0 <= k < self.files@.len() implies old(self).files@.contains(
                        #[trigger] self.files@[k],
                    ) by {
                        let o: int = if k < i as int { k } else { k + 1 };
                        assert(self.files@[k] == old(self).files@[o]);
                    }
                }
            },
            None => {},
        }
        let ghost pruned = self.files@;
        let ghost mut evict_idx: int = 0;
        let ghost mut evicted = false;
        if self.files.len() >= MAX_FAILED_FILES {
            let dropped = take_oldest_record(&mut self.files);
            proof {
                evicted = true;
                evict_idx = choose|i: int|
                    0 <= i < pruned.len() && pruned[i] == dropped && self.files@ == pruned.remove(
                        i,
                    );
                assert forall|k: int|
                    0 <= k < self.files@.len() implies old(self).files@.contains(
                    #[trigger] self.files@[k],
                ) || self.files@[k].path@ == path@ by {
                    assert(pruned.contains(self.files@[k]));
                    let o = choose|o: int| 0 <= o < pruned.len() && pruned[o] == self.files@[k];
                }
            }
        }
        let ghost trimmed = self.files@;
        let entry = FailedFile { path, instrument_id, reason, failed_at: now, retry_count: 0 };
        self.files.push(entry);
        proof {
            assert(self.files@.last().path@ == path@);
            assert(has_file(self.files@, path@)) by {
                assert(self.files@[self.files@.len() - 1].path@ == path@);
            }
            let fi = file_index(self.files@, path@);
            assert(0 <= fi < self.files@.len() && self.files@[fi].path@ == path@);
            assert forall|a: int, b: int|
                0 <= a < b < self.files@.len() implies (#[trigger] self.files@[a]).path@ != (
            #[trigger] self.files@[b]).path@ by {
                if b == self.files@.len() - 1 {
                    assert(trimmed.contains(self.files@[a]) || self.files@[a].path@ == path@);
                }
            }
            assert(fi == self.files@.len() - 1) by {
                if fi < self.files@.len() - 1 {
                    assert(self.files@[fi].path@ != self.files@[self.files@.len() - 1].path@);
                }
            }
            // Oldest-first eviction. A dropped record of another path can
            // only be the one the trim removed, which was the oldest of the
            // pruned registry.
            assert forall|k: int, j: int|
                0 <= k < old(self).files@.len() && 0 <= j < old(self).files@.len() && (
            #[trigger] old(self).files@[k]).path@ != path@ && (
            #[trigger] old(self).files@[j]).path@ != path@ && !self.files@.contains(
                old(self).files@[k],
            ) implies old(self).files@[k].failed_at <= old(self).files@[j].failed_at by {
                // Both records survive the same-path pruning.
                let pk: int = match same_idx {
                    Option::Some(si) => if k < si {
                        k
                    } else {
                        k - 1
                    },
                    Option::None => k,
                };
                let pj: int = match same_idx {
                    Option::Some(si) => if j < si {
                        j
                    } else {
                        j - 1
                    },
                    Option::None => j,
                };
                proof_pruned_index(old(self).files@, pruned, same_idx, path@, k, pk);
                proof_pruned_index(old(self).files@, pruned, same_idx, path@, j, pj);
                // The dropped record is not the pushed entry, so it is
                // missing from the trimmed registry too.
                assert(!trimmed.contains(old(self).files@[k])) by {
                    if trimmed.contains(old(self).files@[k]) {
                        let t = choose|t: int|
                            0 <= t < trimmed.len() && trimmed[t] == old(self).files@[k];
                        assert(self.files@[t] == old(self).files@[k]);
                    }
                }
                if evicted {
                    assert(trimmed == pruned.remove(evict_idx));
                    if pk != evict_idx {
                        let t: int = if pk < evict_idx {
                            pk
                        } else {
                            pk - 1
                        };
                        assert(trimmed[t] == pruned[pk]);
                        assert(trimmed.contains(old(self).files@[k]));
                    }
                    assert(pk == evict_idx);
                    // The min property of the trim, over the pruned registry.
                    assert(pruned[pk].failed_at <= pruned[pj].failed_at);
                } else {
                    assert(trimmed == pruned);
                    assert(trimmed[pk] == old(self).files@[k]);
                    assert(trimmed.contains(old(self).files@[k]));
                }
            }
        }
    }

    /// Drop a path's record, if present.
    pub fn remove(&mut self, path: &str)
        requires
            old(self).wf(),
        ensures
            final(self).wf(),
            !has_file(final(self).files@, path@),
            forall|k: int|
                0 <= k < final(self).files@.len() ==> old(self).files@.contains(
                    #[trigger] final(self).files@[k],
                ),
    {
        match self.find(path) {
            Some(i) => {
                let _ = self.files.remove(i);
                proof {
                    assert forall|a: int, b: int|
                        0 <= a < b < self.files@.len() implies (#[trigger] self.files@[a]).path@
                        != (#[trigger] self.files@[b]).path@ by {
                        let oa: int = if a < i as int { a } else { a + 1 };
                        let ob: int = if b < i as int { b } else { b + 1 };
                        assert(self.files@[a] == old(self).files@[oa]);
                        assert(self.files@[b] == old(self).files@[ob]);
                    }
                    assert forall|k: int|
                        0 <= k < self.files@.len() implies old(self).files@.contains(
                        #[trigger] self.files@[k],
                    ) by {
                        let o: int = if k < i as int { k } else { k + 1 };
                        assert(self.files@[k] == old(self).files@[o]);
                    }
                    if has_file(self.files@, path@) {
                        let k = choose|k: int|
                            0 <= k < self.files@.len() && (#[trigger] self.files@[k]).path@
                                == path@;
                        let o: int = if k < i as int { k } else { k + 1 };
                        assert(self.files@[k] == old(self).files@[o]);
                        assert(o != i as int);
                        if o < i as int {
                            assert(old(self).files@[o].path@ != old(self).files@[i as int].path@);
                        } else {
                            assert(old(self).files@[i as int].path@ != old(self).files@[o].path@);
                        }
                    }
                }
            },
            None => {},
        }
    }

    /// Bump a path's retry counter, saturating; absent paths are left alone.
    pub fn increment_retry(&mut self, path: &str)
        requires
            old(self).wf(),
        ensures
            final(self).wf(),
            final(self).files@.len() == old(self).files@.len(),
            has_file(old(self).files@, path@) ==> {
                let i = file_index(old(self).files@, path@);
                &&& final(self).files@ == old(self).files@.update(
                    i,
                    final(self).files@[i],
                )
                &&& final(self).files@[i].path@ == old(self).files@[i].path@
                &&& final(self).files@[i].retry_count as int == if old(self).files@[i].retry_count
                    == u32::MAX {
                    u32::MAX as int
                } else {
                    old(self).files@[i].retry_count + 1
                }
            },
            !has_file(old(self).files@, path@) ==> *final(self) == *old(self),
    {
        match self.find(path) {
            Some(i) => {
                proof {
                    let ch = file_index(self.files@, path@);
                    if ch < i as int {
                        assert(self.files@[ch].path@ != self.files@[i as int].path@);
                    }
                    if (i as int) < ch {
                        assert(self.files@[i as int].path@ != self.files@[ch].path@);
                    }
                }
                let old_rec = &self.files[i];
                let bumped = if old_rec.retry_count == u32::MAX {
                    u32::MAX
                } else {
                    old_rec.retry_count + 1
                };
                let entry = FailedFile {
                    path: old_rec.path.clone(),
                    instrument_id: old_rec.instrument_id.clone(),
                    reason: old_rec.reason.clone(),
                    failed_at: old_rec.failed_at,
                    retry_count: bumped,
                };
                self.files.set(i, entry);
                proof {
                    assert forall|a: int, b: int|
                        0 <= a < b < self.files@.len() implies (#[trigger] self.files@[a]).path@
                        != (#[trigger] self.files@[b]).path@ by {
                        assert(self.files@[a].path@ == old(self).files@[a].path@);
                        assert(self.files@[b].path@ == old(self).files@[b].path@);
                    }
                }
            },
            None => {},
        }
    }

    /// All records, most recent failure first: a permutation of the
    /// registry, sorted by descending failure instant.
    pub fn get_all(&self) -> (r: Vec<FailedFile>)
        ensures
            r@.to_multiset() == self.files@.to_multiset(),
            r@.len() == self.files@.len(),
            forall|k: int| 0 <= k < r@.len() ==> self.files@.contains(#[trigger] r@[k]),
            forall|i: int, j: int|
                0 <= i < j < r@.len() ==> (#[trigger] r@[i]).failed_at >= (
                #[trigger] r@[j]).failed_at,
    {
        broadcast use vstd::seq_lib::group_to_multiset_ensures;

        let n = self.files.len();
        let mut scratch: Vec<FailedFile> = Vec::new();
        let mut i: usize = 0;
        while i < n
            invariant
                i <= n,
                n == self.files@.len(),
                scratch@.len() == i,
                forall|k: int| 0 <= k < i ==> scratch@[k] == self.files@[k],
            decreases n - i,
        {
            scratch.push(self.files[i].clone_record());
            i = i + 1;
        }
        proof {
            assert(scratch@ =~= self.files@);
        }
        let mut out: Vec<FailedFile> = Vec::new();
        proof {
            assert(out@.to_multiset().add(scratch@.to_multiset())
                =~= self.files@.to_multiset());
        }
        while scratch.len() > 0
            invariant
                out@.len() + scratch@.len() == n,
                n == self.files@.len(),
                out@.to_multiset().add(scratch@.to_multiset()) == self.files@.to_multiset(),
                forall|k: int| 0 <= k < out@.len() ==> self.files@.contains(#[trigger] out@[k]),
                forall|k: int|
                    0 <= k < scratch@.len() ==> self.files@.contains(#[trigger] scratch@[k]),
                forall|i2: int, j2: int|
                    0 <= i2 < j2 < out@.len() ==> (#[trigger] out@[i2]).failed_at >= (
                    #[trigger] out@[j2]).failed_at,
                forall|a: int, b: int|
                    0 <= a < out@.len() && 0 <= b < scratch@.len() ==> (
                    #[trigger] out@[a]).failed_at >= (#[trigger] scratch@[b]).failed_at,
            decreases scratch@.len(),
        {
            let ghost scratch_before = scratch@;
            let ghost out_before = out@;
            let e = take_newest_record(&mut scratch);
            out.push(e);
            proof {
                assert(out@.to_multiset().add(scratch@.to_multiset())
                    =~= self.files@.to_multiset()) by {
                    out_before.to_multiset_ensures();
                    scratch_before.to_multiset_ensures();
                    assert(out@ == out_before.push(e));
                    assert(out_before.push(e).to_multiset() =~= out_before.to_multiset().insert(
                        e,
                    ));
                    assert(scratch@.to_multiset() =~= scratch_before.to_multiset().remove(e));
                    assert(scratch_before.contains(e));
                    assert(scratch_before.to_multiset().count(e) > 0);
                    assert(out_before.to_multiset().insert(e).add(
                        scratch_before.to_multiset().remove(e),
                    ) =~= out_before.to_multiset().add(scratch_before.to_multiset()));
                }
                assert(scratch_before.contains(e));
                assert(self.files@.contains(e)) by {
                    let o = choose|o: int|
                        0 <= o < scratch_before.len() && scratch_before[o] == e;
                }
                assert forall|i2: int, j2: int|
                    0 <= i2 < j2 < out@.len() implies (#[trigger] out@[i2]).failed_at >= (
                #[trigger] out@[j2]).failed_at by {
                    if j2 == out@.len() - 1 {
                        assert(out@[i2] == out_before[i2]);
                        let o = choose|o: int|
                            0 <= o < scratch_before.len() && scratch_before[o] == e;
                        assert(out_before[i2].failed_at >= scratch_before[o].failed_at);
                    } else {
                        assert(out@[i2] == out_before[i2]);
                        assert(out@[j2] == out_before[j2]);
                    }
                }
                assert forall|a: int, b: int|
                    0 <= a < out@.len() && 0 <= b < scratch@.len() implies (
                #[trigger] out@[a]).failed_at >= (#[trigger] scratch@[b]).failed_at by {
                    assert(scratch_before.contains(scratch@[b]));
                    let o = choose|o: int|
                        0 <= o < scratch_before.len() && scratch_before[o] == scratch@[b];
                    if a < out@.len() - 1 {
                        assert(out@[a] == out_before[a]);
                        assert(out_before[a].failed_at >= scratch_before[o].failed_at);
                    } else {
                        assert(out@[a] == e);
                        assert(e.failed_at >= scratch_before[o].failed_at);
                    }
                }
            }
        }
        out
    }

    /// The number of records.
    pub fn count(&self) -> (r: usize)
        ensures
            r == self.files@.len(),
    {
        self.files.len()
    }

    /// Drop every record.
    pub fn clear(&mut self)
        ensures
            final(self).wf(),
            final(self).files@.len() == 0,
    {
        self.files.clear();
    }
}

// A record of another path survives the same-path pruning at a shifted
// index.
proof fn proof_pruned_index(
    orig: Seq<FailedFile>,
    pruned: Seq<FailedFile>,
    same_idx: Option<int>,
    path: Seq<char>,
    k: int,
    pk: int,
)
    requires
        0 <= k < orig.len(),
        orig[k].path@ != path,
        match same_idx {
            Option::Some(si) => 0 <= si < orig.len() && orig[si].path@ == path && pruned
                == orig.remove(si) && pk == (if k < si {
                k
            } else {
                k - 1
            }),
            Option::None => pruned == orig && pk == k,
        },
    ensures
        0 <= pk < pruned.len(),
        pruned[pk] == orig[k],
{
    match same_idx {
        Option::Some(si) => {
            if k < si {
                assert(pruned[pk] == orig[pk]);
            } else {
                assert(k != si);
                assert(pruned[pk] == orig[pk + 1]);
            }
        },
        Option::None => {},
    }
}

/// Take the oldest record (the first of the oldest, on ties) out of the
/// registry.
fn take_oldest_record(v: &mut Vec<FailedFile>) -> (e: FailedFile)
    requires
        old(v)@.len() > 0,
    ensures
        old(v)@.contains(e),
        forall|k: int| 0 <= k < old(v)@.len() ==> e.failed_at <= (#[trigger] old(v)@[k]).failed_at,
        final(v)@.len() == old(v)@.len() - 1,
        forall|k: int| 0 <= k < final(v)@.len() ==> old(v)@.contains(#[trigger] final(v)@[k]),
        unique_paths(old(v)@) ==> unique_paths(final(v)@),
        exists|i: int|
            0 <= i < old(v)@.len() && old(v)@[i] == e && final(v)@ == old(v)@.remove(i),
{
    let n = v.len();
    let mut mi: usize = 0;
    let mut i: usize = 1;
    while i < n
        invariant
            1 <= i <= n,
            mi < i,
            n == v@.len(),
            *v == *old(v),
            forall|k: int| 0 <= k < i ==> v@[mi as int].failed_at <= (#[trigger] v@[k]).failed_at,
        decreases n - i,
    {
        if v[i].failed_at < v[mi].failed_at {
            mi = i;
        }
        i = i + 1;
    }
    let e = v.remove(mi);
    proof {
        assert(old(v)@[mi as int] == e);
        assert(0 <= (mi as int) && (mi as int) < old(v)@.len() && old(v)@[mi as int] == e && v@
            == old(v)@.remove(mi as int));
        assert forall|k: int| 0 <= k < v@.len() implies old(v)@.contains(#[trigger] v@[k]) by {
            let o: int = if k < mi as int { k } else { k + 1 };
            assert(v@[k] == old(v)@[o]);
        }
        if unique_paths(old(v)@) {
            assert forall|a: int, b: int|
                0 <= a < b < v@.len() implies (#[trigger] v@[a]).path@ != (
            #[trigger] v@[b]).path@ by {
                let oa: int = if a < mi as int { a } else { a + 1 };
                let ob: int = if b < mi as int { b } else { b + 1 };
                assert(v@[a] == old(v)@[oa]);
                assert(v@[b] == old(v)@[ob]);
            }
        }
    }
    e
}

/// Take the newest record (the first of the newest, on ties) out of the
/// registry copy.
fn take_newest_record(v: &mut Vec<FailedFile>) -> (e: FailedFile)
    requires
        old(v)@.len() > 0,
    ensures
        old(v)@.contains(e),
        forall|k: int| 0 <= k < old(v)@.len() ==> e.failed_at >= (#[trigger] old(v)@[k]).failed_at,
        final(v)@.len() == old(v)@.len() - 1,
        forall|k: int| 0 <= k < final(v)@.len() ==> old(v)@.contains(#[trigger] final(v)@[k]),
        final(v)@.to_multiset() == old(v)@.to_multiset().remove(e),
{
    broadcast use vstd::seq_lib::group_to_multiset_ensures;

    let n = v.len();
    let mut mi: usize = 0;
    let mut i: usize = 1;
    while i < n
        invariant
            1 <= i <= n,
            mi < i,
            n == v@.len(),
            *v == *old(v),
            forall|k: int| 0 <= k < i ==> v@[mi as int].failed_at >= (#[trigger] v@[k]).failed_at,
        decreases n - i,
    {
        if v[i].failed_at > v[mi].failed_at {
            mi = i;
        }
        i = i + 1;
    }
    let e = v.remove(mi);
    proof {
        assert(old(v)@[mi as int] == e);
        assert forall|k: int| 0 <= k < v@.len() implies old(v)@.contains(#[trigger] v@[k]) by {
            let o: int = if k < mi as int { k } else { k + 1 };
            assert(v@[k] == old(v)@[o]);
        }
    }
    e
}

} // verus!
