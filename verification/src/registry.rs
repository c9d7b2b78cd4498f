//! The per-project index-status registry: status lookup and update keyed
//! by the normalized project-root path.
//!
//! An absent project reads as a fresh Idle status, never as an error;
//! removing a project deletes its entry.  Persistence of the registry to
//! disk is the surrounding application's concern.

use vstd::prelude::*;

use crate::paths::normalize_path_key;
use crate::paths::normalize_spec;
use crate::status::IndexStatus;
use crate::status::ProjectIndexStatus;
use crate::status::progress_spec;
use crate::status::status_equiv;
use crate::strutil::str_eq;

verus! {

/// The index status of every tracked project.
#[derive(Debug)]
pub struct ProjectsIndexStatus {
    /// Project key (normalized root path) and its status, one pair per
    /// tracked project.
    pub projects: Vec<(String, ProjectIndexStatus)>,
}

/// The index of the first entry whose key is `k`, if any.
pub open spec fn find_key_spec(s: Seq<(String, ProjectIndexStatus)>, k: Seq<char>) -> Option<int>
    decreases s.len(),
{
    if s.len() == 0 {
        None
    } else if s[0].0@ == k {
        Some(0)
    } else {
        match find_key_spec(s.drop_first(), k) {
            None => None,
            Some(i) => Some(i + 1),
        }
    }
}

/// What `find_key_spec` returns: the first match, or nothing when no
/// entry has the key.
pub proof fn lemma_find_key_spec(s: Seq<(String, ProjectIndexStatus)>, k: Seq<char>)
    ensures
        match find_key_spec(s, k) {
            None => forall|j: int| 0 <= j < s.len() ==> (#[trigger] s[j].0@) != k,
            Some(i) => 0 <= i < s.len() && s[i].0@ == k && forall|j: int|
                0 <= j < i ==> (#[trigger] s[j].0@) != k,
        },
    decreases s.len(),
{
    if s.len() == 0 {
    } else if s[0].0@ == k {
        assert(find_key_spec(s, k) == Some(0int));
    } else {
        lemma_find_key_spec(s.drop_first(), k);
        match find_key_spec(s.drop_first(), k) {
            None => {
                assert forall|j: int| 0 <= j < s.len() implies (#[trigger] s[j].0@) != k by {
                    if j >= 1 {
                        assert(s.drop_first()[j - 1] == s[j]);
                    }
                }
            },
            Some(i) => {
                assert(find_key_spec(s, k) == Some(i + 1));
                assert(s.drop_first()[i] == s[i + 1]);
                assert forall|j: int| 0 <= j < i + 1 implies (#[trigger] s[j].0@) != k by {
                    if j >= 1 {
                        assert(s.drop_first()[j - 1] == s[j]);
                    }
                }
            },
        }
    }
}

/// Tracks one `ProjectIndexStatus` per project, keyed by the normalized
/// project-root path.
pub struct IndexStatusRegistry {
    entries: Vec<(String, ProjectIndexStatus)>,
}

impl IndexStatusRegistry {
    /// The tracked entries, in insertion order.
    pub closed spec fn entries_view(self) -> Seq<(String, ProjectIndexStatus)> {
        self.entries@
    }

    /// The status stored under key `k`, if any.
    pub open spec fn spec_get(self, k: Seq<char>) -> Option<ProjectIndexStatus> {
        match find_key_spec(self.entries_view(), k) {
            None => None,
            Some(i) => Some(self.entries_view()[i].1),
        }
    }

    /// Whether some project is tracked under key `k`.
    pub open spec fn has_key(self, k: Seq<char>) -> bool {
        find_key_spec(self.entries_view(), k) is Some
    }

    /// Well-formed: keys are unique and normalized.
    pub open spec fn wf(self) -> bool {
        &&& forall|i: int, j: int|
            0 <= i < j < self.entries_view().len() ==> (#[trigger] self.entries_view()[i].0@) != (
            #[trigger] self.entries_view()[j].0@)
        &&& forall|i: int|
            0 <= i < self.entries_view().len() ==> (#[trigger] self.entries_view()[i].0@)
                == normalize_spec(self.entries_view()[i].0@)
    }

    /// An empty registry.
    pub fn new() -> (r: IndexStatusRegistry)
        ensures
            r.wf(),
            r.entries_view() == Seq::<(String, ProjectIndexStatus)>::empty(),
    {
        let r = IndexStatusRegistry { entries: Vec::new() };
        proof {
            assert(r.entries_view() =~= Seq::<(String, ProjectIndexStatus)>::empty());
        }
        r
    }

    /// Finds the position of the entry for a normalized key.
    fn find_index(&self, key: &str) -> (r: Option<usize>)
        ensures
            match r {
                None => find_key_spec(self.entries_view(), key@) is None,
                Some(i) => find_key_spec(self.entries_view(), key@) == Some(i as int),
            },
    {
        proof {
            lemma_find_key_spec(self.entries_view(), key@);
        }
        let mut i: usize = 0;
        while i < self.entries.len()
            invariant
                i <= self.entries_view().len(),
                forall|j: int| 0 <= j < i ==> (#[trigger] self.entries_view()[j].0@) != key@,
            decreases self.entries_view().len() - i,
        {
            if str_eq(self.entries[i].0.as_str(), key) {
                proof {
                    lemma_find_key_spec(self.entries_view(), key@);
                }
                return Some(i);
            }
            i = i + 1;
        }
        None
    }

    /// Reads a project's status.  A project that is not tracked reads as
    /// a fresh Idle status carrying the normalized root, never as an
    /// error.
    pub fn get(&self, project_root: &str) -> (r: ProjectIndexStatus)
        ensures
            ({
                let k = normalize_spec(project_root@);
                match self.spec_get(k) {
                    Some(v) => status_equiv(r, v),
                    None => {
                        &&& r.project_root@ == k
                        &&& r.status == IndexStatus::Idle
                        &&& r.progress == 0
                        &&& r.total_files == 0
                        &&& r.indexed_files == 0
                        &&& r.pending_files == 0
                        &&& r.failed_files == 0
                        &&& r.last_success_time is None
                        &&& r.last_failure_time is None
                        &&& r.last_error is None
                    },
                }
            }),
    {
        let key: String = normalize_path_key(project_root);
        proof {
            lemma_find_key_spec(self.entries_view(), key@);
        }
        match self.find_index(key.as_str()) {
            Some(i) => self.entries[i].1.clone(),
            None => {
                let mut d = ProjectIndexStatus::default();
                d.project_root = key;
                d
            },
        }
    }

    /// Stores a status under the normalized project root, replacing any
    /// entry already there.
    pub fn set(&mut self, project_root: &str, st: ProjectIndexStatus)
        requires
            old(self).wf(),
        ensures
            final(self).wf(),
            ({
                let k = normalize_spec(project_root@);
                match find_key_spec(old(self).entries_view(), k) {
                    Some(i) => final(self).entries_view() == old(self).entries_view().update(
                        i,
                        (old(self).entries_view()[i].0, st),
                    ),
                    None => {
                        &&& final(self).entries_view().len() == old(self).entries_view().len() + 1
                        &&& final(self).entries_view().drop_last() == old(self).entries_view()
                        &&& final(self).entries_view().last().0@ == k
                        &&& final(self).entries_view().last().1 == st
                    },
                }
            }),
    {
        let key: String = normalize_path_key(project_root);
        proof {
            crate::paths::lemma_normalize_idempotent(project_root@);
            lemma_find_key_spec(self.entries_view(), key@);
        }
        match self.find_index(key.as_str()) {
            Some(i) => {
                let root_copy: String = self.entries[i].0.clone();
                self.entries.set(i, (root_copy, st));
            },
            None => {
                self.entries.push((key, st));
                proof {
                    assert(self.entries_view().drop_last() =~= old(self).entries_view());
                }
            },
        }
    }

    /// Removes a project's entry.  Reports whether one was there.
    pub fn remove(&mut self, project_root: &str) -> (removed: bool)
        requires
            old(self).wf(),
        ensures
            final(self).wf(),
            ({
                let k = normalize_spec(project_root@);
                &&& removed <==> old(self).has_key(k)
                &&& !final(self).has_key(k)
                &&& match find_key_spec(old(self).entries_view(), k) {
                    Some(i) => final(self).entries_view() == old(self).entries_view().remove(i),
                    None => final(self).entries_view() == old(self).entries_view(),
                }
            }),
    {
        let key: String = normalize_path_key(project_root);
        proof {
            lemma_find_key_spec(self.entries_view(), key@);
        }
        match self.find_index(key.as_str()) {
            Some(i) => {
                self.entries.remove(i);
                proof {
                    lemma_find_key_spec(self.entries_view(), key@);
                    lemma_find_key_spec(old(self).entries_view(), key@);
                }
                true
            },
            None => false,
        }
    }

    /// A snapshot of every tracked project and its status.
    pub fn get_all(&self) -> (r: ProjectsIndexStatus)
        ensures
            r.projects@.len() == self.entries_view().len(),
            forall|i: int|
                0 <= i < r.projects@.len() ==> (#[trigger] r.projects@[i]).0
                    == self.entries_view()[i].0 && status_equiv(
                    r.projects@[i].1,
                    self.entries_view()[i].1,
                ),
    {
        let mut out: Vec<(String, ProjectIndexStatus)> = Vec::new();
        let mut i: usize = 0;
        while i < self.entries.len()
            invariant
                i <= self.entries_view().len(),
                out@.len() == i,
                forall|j: int|
                    0 <= j < i ==> (#[trigger] out@[j]).0 == self.entries_view()[j].0
                        && status_equiv(out@[j].1, self.entries_view()[j].1),
            decreases self.entries_view().len() - i,
        {
            let root_copy: String = self.entries[i].0.clone();
            let st_copy: ProjectIndexStatus = self.entries[i].1.clone();
            out.push((root_copy, st_copy));
            i = i + 1;
        }
        ProjectsIndexStatus { projects: out }
    }

    /// Records indexing progress for a project: the entry is created if
    /// absent, put into the Indexing state if it was not there, and its
    /// counts and progress are advanced.  Within one Indexing run the
    /// progress never decreases.
    pub fn record_progress(
        &mut self,
        project_root: &str,
        indexed: usize,
        pending: usize,
        failed: usize,
    )
        requires
            old(self).wf(),
            indexed + pending + failed <= usize::MAX,
        ensures
            final(self).wf(),
            ({
                let k = normalize_spec(project_root@);
                let prior = old(self).spec_get(k);
                let now = final(self).spec_get(k);
                &&& now is Some
                &&& now->0.status == IndexStatus::Indexing
                &&& now->0.indexed_files == indexed
                &&& now->0.pending_files == pending
                &&& now->0.failed_files == failed
                &&& now->0.total_files == indexed + pending + failed
                &&& now->0.progress <= 100
                &&& (match prior {
                    Some(v) => (v.status == IndexStatus::Indexing && v.wf()) ==> now->0.progress
                        >= v.progress,
                    None => now->0.progress == progress_spec(
                        indexed as int,
                        pending as int,
                        failed as int,
                    ),
                })
            }),
    {
        proof {
            crate::status::lemma_progress_spec_bounds(
                indexed as int,
                pending as int,
                failed as int,
            );
        }
        let mut st: ProjectIndexStatus = self.get(project_root);
        if !matches!(st.status, IndexStatus::Indexing) {
            st.begin_indexing();
        } else if st.progress > 100 {
            // A stored status is only trusted as far as it is well formed;
            // clamp a corrupt percentage before advancing it.
            st.progress = 100;
        }
        st.record_progress(indexed, pending, failed);
        let ghost k = normalize_spec(project_root@);
        proof {
            lemma_find_key_spec(self.entries_view(), k);
        }
        self.set(project_root, st);
        proof {
            lemma_find_key_spec(old(self).entries_view(), k);
            lemma_find_key_spec(self.entries_view(), k);
            let ov = old(self).entries_view();
            let nv = self.entries_view();
            match find_key_spec(ov, k) {
                Some(i) => {
                    assert(nv[i].0@ == k);
                    assert(nv[i].1 == st);
                    match find_key_spec(nv, k) {
                        None => {
                            assert(false);
                        },
                        Some(j) => {
                            if j != i {
                                assert(false);
                            }
                        },
                    }
                },
                None => {
                    match find_key_spec(nv, k) {
                        None => {
                            assert(false);
                        },
                        Some(j) => {
                            if j < nv.len() - 1 {
                                assert(nv.drop_last()[j] == nv[j]);
                                assert(false);
                            }
                        },
                    }
                },
            }
        }
    }
}

/// The index of the first blob record whose key, once normalized,
/// equals `k`, if any.  Persisted records may carry keys written before
/// normalization, so each key is normalized for the comparison.
pub open spec fn find_record_spec(s: Seq<(String, Vec<String>)>, k: Seq<char>) -> Option<int>
    decreases s.len(),
{
    if s.len() == 0 {
        None
    } else if normalize_spec(s[0].0@) == k {
        Some(0)
    } else {
        match find_record_spec(s.drop_first(), k) {
            None => None,
            Some(i) => Some(i + 1),
        }
    }
}

/// What `find_record_spec` returns: the first normalized match, or
/// nothing when no record matches.
pub proof fn lemma_find_record_spec(s: Seq<(String, Vec<String>)>, k: Seq<char>)
    ensures
        match find_record_spec(s, k) {
            None => forall|j: int|
                0 <= j < s.len() ==> normalize_spec((#[trigger] s[j].0@)) != k,
            Some(i) => 0 <= i < s.len() && normalize_spec(s[i].0@) == k && forall|j: int|
                0 <= j < i ==> normalize_spec((#[trigger] s[j].0@)) != k,
        },
    decreases s.len(),
{
    if s.len() == 0 {
    } else if normalize_spec(s[0].0@) == k {
    } else {
        lemma_find_record_spec(s.drop_first(), k);
        match find_record_spec(s.drop_first(), k) {
            None => {
                assert forall|j: int|
                    0 <= j < s.len() implies normalize_spec((#[trigger] s[j].0@)) != k by {
                    if j >= 1 {
                        assert(s.drop_first()[j - 1] == s[j]);
                    }
                }
            },
            Some(i) => {
                assert(s.drop_first()[i] == s[i + 1]);
                assert forall|j: int|
                    0 <= j < i + 1 implies normalize_spec((#[trigger] s[j].0@)) != k by {
                    if j >= 1 {
                        assert(s.drop_first()[j - 1] == s[j]);
                    }
                }
            },
        }
    }
}

/// Removes a project's entry from the persisted blob-list records.  The
/// stored keys may predate normalization, so each is normalized before
/// the comparison; the first match is removed.  Reports whether one was
/// found — a missing record is not an error, the project may simply be
/// gone already.
pub fn remove_blob_record(records: &mut Vec<(String, Vec<String>)>, project_root: &str) -> (removed:
    bool)
    ensures
        ({
            let k = normalize_spec(project_root@);
            match find_record_spec(old(records)@, k) {
                Some(i) => removed && final(records)@ == old(records)@.remove(i),
                None => !removed && final(records)@ == old(records)@,
            }
        }),
{
    let key: String = normalize_path_key(project_root);
    let ghost k = key@;
    proof {
        lemma_find_record_spec(records@, k);
    }
    let mut i: usize = 0;
    while i < records.len()
        invariant
            i <= records@.len(),
            k == normalize_spec(project_root@),
            key@ == k,
            records@ == old(records)@,
            forall|j: int| 0 <= j < i ==> normalize_spec((#[trigger] records@[j].0@)) != k,
        decreases records@.len() - i,
    {
        let cand: String = normalize_path_key(records[i].0.as_str());
        if str_eq(cand.as_str(), key.as_str()) {
            proof {
                lemma_find_record_spec(records@, k);
            }
            records.remove(i);
            return true;
        }
        i = i + 1;
    }
    false
}

} // verus!
