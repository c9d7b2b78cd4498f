//! Per-project index status: the state machine, progress computation,
//! and the per-file status snapshot types.

use vstd::prelude::*;
use vstd::arithmetic::div_mod::lemma_div_is_ordered;
use vstd::arithmetic::div_mod::lemma_div_multiples_vanish;
use vstd::arithmetic::div_mod::lemma_div_pos_is_pos;
use vstd::arithmetic::mul::lemma_mul_inequality;

verus! {

/// The indexing state of one project.
#[derive(Clone, Copy, Debug, PartialEq, Eq, Structural)]
pub enum IndexStatus {
    /// No indexing has started.
    Idle,
    /// An indexing pass is running.
    Indexing,
    /// The last pass completed successfully.
    Synced,
    /// The last pass failed.
    Failed,
}

/// The allowed status transitions: Idle goes to Indexing; Indexing ends
/// in Synced or Failed; a finished project starts Indexing again on the
/// next trigger.
pub open spec fn valid_transition(a: IndexStatus, b: IndexStatus) -> bool {
    ||| (a == IndexStatus::Idle && b == IndexStatus::Indexing)
    ||| (a == IndexStatus::Indexing && (b == IndexStatus::Synced || b == IndexStatus::Failed))
    ||| ((a == IndexStatus::Synced || a == IndexStatus::Failed) && b == IndexStatus::Indexing)
}

/// Aggregated counts for one directory of a project.
#[derive(Debug, PartialEq)]
pub struct DirectoryStat {
    /// The directory path, relative to the project root.
    pub dir: String,
    /// Files under it already indexed.
    pub indexed: usize,
    /// Files under it still pending.
    pub pending: usize,
}

impl Clone for DirectoryStat {
    /// Cloning keeps every field.
    fn clone(&self) -> (r: Self)
        ensures
            r == *self,
    {
        DirectoryStat { dir: self.dir.clone(), indexed: self.indexed, pending: self.pending }
    }
}

/// The index progress a set of counts amounts to, as a percentage:
/// `indexed / (indexed + pending + failed) * 100`, and zero when there
/// are no files at all.
pub open spec fn progress_spec(indexed: int, pending: int, failed: int) -> int {
    let total = indexed + pending + failed;
    if total == 0 {
        0
    } else {
        indexed * 100 / total
    }
}

/// The progress percentage always lies in `[0, 100]`.
pub proof fn lemma_progress_spec_bounds(indexed: int, pending: int, failed: int)
    requires
        indexed >= 0,
        pending >= 0,
        failed >= 0,
    ensures
        0 <= progress_spec(indexed, pending, failed) <= 100,
{
    let total = indexed + pending + failed;
    if total != 0 {
        lemma_div_pos_is_pos(indexed * 100, total);
        lemma_mul_inequality(indexed, total, 100);
        lemma_div_is_ordered(indexed * 100, total * 100, total);
        lemma_div_multiples_vanish(100, total);
    }
}

/// Computes the progress percentage for the given counts.
pub fn compute_progress(indexed: usize, pending: usize, failed: usize) -> (r: u8)
    ensures
        r == progress_spec(indexed as int, pending as int, failed as int),
        r <= 100,
{
    proof {
        lemma_progress_spec_bounds(indexed as int, pending as int, failed as int);
    }
    let total: u128 = indexed as u128 + pending as u128 + failed as u128;
    if total == 0 {
        0
    } else {
        ((indexed as u128) * 100 / total) as u8
    }
}

/// The index status of one project: state, progress, counts, and the
/// last success and failure.  Times are Unix epoch milliseconds.
#[derive(Debug, PartialEq)]
#[verifier::ext_equal]
pub struct ProjectIndexStatus {
    /// The normalized project-root path.
    pub project_root: String,
    /// The current state.
    pub status: IndexStatus,
    /// Progress percentage, always in `[0, 100]`.
    pub progress: u8,
    /// Total files considered.
    pub total_files: usize,
    /// Files already indexed.
    pub indexed_files: usize,
    /// Files waiting to be indexed.
    pub pending_files: usize,
    /// Files whose indexing failed.
    pub failed_files: usize,
    /// When the last pass succeeded, if ever.
    pub last_success_time: Option<i64>,
    /// When the last pass failed, if ever.
    pub last_failure_time: Option<i64>,
    /// The last error message, if any.
    pub last_error: Option<String>,
    /// Per-directory counts.
    pub directory_stats: Vec<DirectoryStat>,
}

/// Whether two project statuses carry the same information: every field
/// agrees, with the directory statistics compared by contents.
pub open spec fn status_equiv(a: ProjectIndexStatus, b: ProjectIndexStatus) -> bool {
    &&& a.project_root == b.project_root
    &&& a.status == b.status
    &&& a.progress == b.progress
    &&& a.total_files == b.total_files
    &&& a.indexed_files == b.indexed_files
    &&& a.pending_files == b.pending_files
    &&& a.failed_files == b.failed_files
    &&& a.last_success_time == b.last_success_time
    &&& a.last_failure_time == b.last_failure_time
    &&& a.last_error == b.last_error
    &&& a.directory_stats@ == b.directory_stats@
}

impl Clone for ProjectIndexStatus {
    /// Cloning keeps every field.
    fn clone(&self) -> (r: Self)
        ensures
            status_equiv(r, *self),
    {
        let mut stats: Vec<DirectoryStat> = Vec::new();
        let mut i: usize = 0;
        while i < self.directory_stats.len()
            invariant
                i <= self.directory_stats@.len(),
                stats@ == self.directory_stats@.subrange(0, i as int),
            decreases self.directory_stats@.len() - i,
        {
            stats.push(self.directory_stats[i].clone());
            proof {
                assert(self.directory_stats@.subrange(0, i + 1 as int) =~= self.directory_stats@
                    .subrange(0, i as int).push(self.directory_stats@[i as int]));
            }
            i = i + 1;
        }
        proof {
            assert(self.directory_stats@.subrange(0, self.directory_stats@.len() as int)
                =~= self.directory_stats@);
        }
        let r = ProjectIndexStatus {
            project_root: self.project_root.clone(),
            status: self.status,
            progress: self.progress,
            total_files: self.total_files,
            indexed_files: self.indexed_files,
            pending_files: self.pending_files,
            failed_files: self.failed_files,
            last_success_time: self.last_success_time,
            last_failure_time: self.last_failure_time,
            last_error: match &self.last_error {
                Some(e) => Some(e.clone()),
                None => None,
            },
            directory_stats: stats,
        };
        r
    }
}

impl ProjectIndexStatus {
    /// A status is well formed when its progress is a percentage.
    pub open spec fn wf(self) -> bool {
        self.progress <= 100
    }

    /// Starts a new indexing run: the state becomes Indexing and the
    /// progress of the new run begins at zero.  Every other field keeps
    /// its value.
    pub fn begin_indexing(&mut self)
        requires
            old(self).status != IndexStatus::Indexing,
        ensures
            final(self).wf(),
            valid_transition(old(self).status, final(self).status) || old(self).status
                == IndexStatus::Indexing,
            final(self).status == IndexStatus::Indexing,
            final(self).progress == 0,
            *final(self) == (ProjectIndexStatus {
                status: IndexStatus::Indexing,
                progress: 0,
                ..*old(self)
            }),
    {
        self.status = IndexStatus::Indexing;
        self.progress = 0;
    }

    /// Records progress during an indexing run: the counts are replaced,
    /// the total is their sum, and the progress percentage is recomputed,
    /// never decreasing within the run.
    pub fn record_progress(&mut self, indexed: usize, pending: usize, failed: usize)
        requires
            old(self).wf(),
            old(self).status == IndexStatus::Indexing,
            indexed + pending + failed <= usize::MAX,
        ensures
            final(self).wf(),
            final(self).status == IndexStatus::Indexing,
            final(self).indexed_files == indexed,
            final(self).pending_files == pending,
            final(self).failed_files == failed,
            final(self).total_files == indexed + pending + failed,
            final(self).progress == (if progress_spec(
                indexed as int,
                pending as int,
                failed as int,
            ) >= old(self).progress {
                progress_spec(indexed as int, pending as int, failed as int)
            } else {
                old(self).progress as int
            }),
            final(self).progress >= old(self).progress,
            final(self).project_root == old(self).project_root,
            final(self).last_success_time == old(self).last_success_time,
            final(self).last_failure_time == old(self).last_failure_time,
            final(self).last_error == old(self).last_error,
            final(self).directory_stats == old(self).directory_stats,
    {
        let p: u8 = compute_progress(indexed, pending, failed);
        self.indexed_files = indexed;
        self.pending_files = pending;
        self.failed_files = failed;
        self.total_files = indexed + pending + failed;
        if p >= self.progress {
            self.progress = p;
        }
    }

    /// Ends an indexing run successfully: the state becomes Synced, the
    /// progress reaches 100, and the success time is recorded.
    pub fn complete_success(&mut self, timestamp_millis: i64)
        requires
            old(self).status == IndexStatus::Indexing,
        ensures
            final(self).wf(),
            valid_transition(old(self).status, final(self).status),
            final(self).status == IndexStatus::Synced,
            final(self).progress == 100,
            final(self).last_success_time == Some(timestamp_millis),
            final(self).last_error is None,
            final(self).project_root == old(self).project_root,
            final(self).total_files == old(self).total_files,
            final(self).indexed_files == old(self).indexed_files,
            final(self).pending_files == old(self).pending_files,
            final(self).failed_files == old(self).failed_files,
            final(self).last_failure_time == old(self).last_failure_time,
            final(self).directory_stats == old(self).directory_stats,
    {
        self.status = IndexStatus::Synced;
        self.progress = 100;
        self.last_success_time = Some(timestamp_millis);
        self.last_error = None;
    }

    /// Ends an indexing run in failure: the state becomes Failed and the
    /// failure time and message are recorded.  The progress keeps the
    /// value it had reached.
    pub fn complete_failure(&mut self, timestamp_millis: i64, error: String)
        requires
            old(self).wf(),
            old(self).status == IndexStatus::Indexing,
        ensures
            final(self).wf(),
            valid_transition(old(self).status, final(self).status),
            final(self).status == IndexStatus::Failed,
            final(self).progress == old(self).progress,
            final(self).last_failure_time == Some(timestamp_millis),
            final(self).last_error == Some(error),
            final(self).project_root == old(self).project_root,
            final(self).total_files == old(self).total_files,
            final(self).indexed_files == old(self).indexed_files,
            final(self).pending_files == old(self).pending_files,
            final(self).failed_files == old(self).failed_files,
            final(self).last_success_time == old(self).last_success_time,
            final(self).directory_stats == old(self).directory_stats,
    {
        self.status = IndexStatus::Failed;
        self.last_failure_time = Some(timestamp_millis);
        self.last_error = Some(error);
    }
}

impl Default for ProjectIndexStatus {
    /// A fresh status: Idle, no progress, no counts, no history.
    fn default() -> (r: Self)
        ensures
            r.wf(),
            r.status == IndexStatus::Idle,
            r.progress == 0,
            r.total_files == 0,
            r.indexed_files == 0,
            r.pending_files == 0,
            r.failed_files == 0,
            r.last_success_time is None,
            r.last_failure_time is None,
            r.last_error is None,
            r.directory_stats@ == Seq::<DirectoryStat>::empty(),
            r.project_root@ == Seq::<char>::empty(),
    {
        let r = ProjectIndexStatus {
            project_root: String::new(),
            status: IndexStatus::Idle,
            progress: 0,
            total_files: 0,
            indexed_files: 0,
            pending_files: 0,
            failed_files: 0,
            last_success_time: None,
            last_failure_time: None,
            last_error: None,
            directory_stats: Vec::new(),
        };
        proof {
            assert(r.directory_stats@ =~= Seq::<DirectoryStat>::empty());
        }
        r
    }
}

/// The index status of one file of a project.
#[derive(Clone, Copy, Debug, PartialEq, Eq, Structural)]
pub enum FileIndexStatusKind {
    /// Every blob of the file is uploaded and recorded.
    Indexed,
    /// The file still needs (re-)indexing.
    Pending,
}

/// One file of a project with its index status.
#[derive(Debug, PartialEq)]
pub struct FileIndexStatus {
    /// The path relative to the project root, forward-slash separated.
    pub path: String,
    /// Whether the file is indexed or pending.
    pub status: FileIndexStatusKind,
}

impl Clone for FileIndexStatus {
    /// Cloning keeps the path and the status.
    fn clone(&self) -> (r: Self)
        ensures
            r == *self,
    {
        FileIndexStatus { path: self.path.clone(), status: self.status }
    }
}

/// A point-in-time snapshot of every indexable file under a project.
#[derive(Debug, PartialEq)]
pub struct ProjectFilesStatus {
    /// The normalized project-root path.
    pub project_root: String,
    /// The files, in scan order.
    pub files: Vec<FileIndexStatus>,
}

} // verus!
