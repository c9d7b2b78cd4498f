//! File-watch coordination: one entry per watched project, a global
//! auto-index switch, and per-project debounce-and-coalesce state.
//!
//! The manager holds pure state only.  The surrounding application feeds
//! it file-change events and timer expiries and performs the re-index
//! passes it asks for; every decision — when a debounce timer fires, that
//! a burst of events coalesces into one pass, that no two passes of one
//! project overlap — is taken here.

use vstd::prelude::*;

use crate::paths::normalize_path_key;
use crate::paths::normalize_spec;
use crate::strutil::str_eq;

verus! {

/// Saturating addition on timestamps.
pub open spec fn sat_add_spec(a: u64, b: u64) -> u64 {
    if a + b > u64::MAX {
        u64::MAX
    } else {
        (a + b) as u64
    }
}

/// The watch state of one project.
#[derive(Debug)]
pub struct WatchEntry {
    /// The normalized project root.
    pub root: String,
    /// The debounce delay in milliseconds; zero re-indexes on every event.
    pub debounce_ms: u64,
    /// When the pending debounce timer fires, if one is pending.
    pub deadline: Option<u64>,
    /// Whether a re-index pass for this project is in flight.
    pub running: bool,
    /// Whether a trigger arrived while a pass was in flight.
    pub rerun_pending: bool,
}

/// A file-change event resets the project's debounce timer and nothing
/// else; it never starts a pass by itself.
pub open spec fn on_event_spec(e: WatchEntry, now: u64) -> WatchEntry {
    WatchEntry { deadline: Some(sat_add_spec(now, e.debounce_ms)), ..e }
}

/// A timer expiry at `now`: when a deadline is due, it is consumed, and
/// exactly one pass starts — unless auto-indexing is off (nothing starts) or a
/// pass is already running (the trigger is deferred).  The count is the
/// number of passes to start now.
pub open spec fn on_deadline_spec(e: WatchEntry, now: u64, enabled: bool) -> (WatchEntry, nat) {
    match e.deadline {
        Some(d) => {
            if now < d {
                (e, 0)
            } else if !enabled {
                (WatchEntry { deadline: None, ..e }, 0)
            } else if e.running {
                (WatchEntry { deadline: None, rerun_pending: true, ..e }, 0)
            } else {
                (WatchEntry { deadline: None, running: true, ..e }, 1)
            }
        },
        None => (e, 0),
    }
}

/// A pass completes: when a trigger was deferred, exactly one follow-up
/// pass starts at once; otherwise the project goes quiet.
pub open spec fn on_complete_spec(e: WatchEntry) -> (WatchEntry, nat) {
    if e.rerun_pending {
        (WatchEntry { rerun_pending: false, ..e }, 1)
    } else {
        (WatchEntry { running: false, ..e }, 0)
    }
}

/// The entry after a burst of change events.  Events only move the
/// deadline: none of them starts a pass.
pub open spec fn run_events(e: WatchEntry, ts: Seq<u64>) -> WatchEntry
    decreases ts.len(),
{
    if ts.len() == 0 {
        e
    } else {
        run_events(on_event_spec(e, ts[0]), ts.drop_first())
    }
}

/// A burst of events changes nothing but the deadline, which ends up at
/// the last event's time plus the debounce delay.
pub proof fn lemma_run_events(e: WatchEntry, ts: Seq<u64>)
    ensures
        run_events(e, ts).root == e.root,
        run_events(e, ts).debounce_ms == e.debounce_ms,
        run_events(e, ts).running == e.running,
        run_events(e, ts).rerun_pending == e.rerun_pending,
        ts.len() == 0 ==> run_events(e, ts) == e,
        ts.len() > 0 ==> run_events(e, ts).deadline == Some(
            sat_add_spec(ts.last(), e.debounce_ms),
        ),
    decreases ts.len(),
{
    if ts.len() > 0 {
        lemma_run_events(on_event_spec(e, ts[0]), ts.drop_first());
        if ts.len() > 1 {
            assert(ts.drop_first().last() == ts.last());
        }
    }
}

/// Debounce coalescing: any number of rapid change events, followed by
/// one timer expiry at or after the final deadline, starts exactly one
/// re-index pass — the events themselves start none (`run_events` only
/// moves the deadline), and the single expiry starts exactly one when the
/// switch is on and no pass is in flight.
pub proof fn lemma_debounce_coalescing(e: WatchEntry, ts: Seq<u64>, fire_at: u64)
    requires
        !e.running,
        ts.len() > 0,
        fire_at >= sat_add_spec(ts.last(), e.debounce_ms),
    ensures
        on_deadline_spec(run_events(e, ts), fire_at, true).1 == 1,
        on_deadline_spec(run_events(e, ts), fire_at, true).0.deadline is None,
{
    lemma_run_events(e, ts);
}

/// Coordinates one watch per project and the global auto-index switch.
pub struct FileWatcherManager {
    entries: Vec<WatchEntry>,
    auto_index_enabled: bool,
}

/// The index of the first entry for root `k`, if any.
pub open spec fn find_root_spec(s: Seq<WatchEntry>, k: Seq<char>) -> Option<int>
    decreases s.len(),
{
    if s.len() == 0 {
        None
    } else if s[0].root@ == k {
        Some(0)
    } else {
        match find_root_spec(s.drop_first(), k) {
            None => None,
            Some(i) => Some(i + 1),
        }
    }
}

/// What `find_root_spec` returns: the first match, or nothing when no
/// entry has the root.
pub proof fn lemma_find_root_spec(s: Seq<WatchEntry>, k: Seq<char>)
    ensures
        match find_root_spec(s, k) {
            None => forall|j: int| 0 <= j < s.len() ==> (#[trigger] s[j].root@) != k,
            Some(i) => 0 <= i < s.len() && s[i].root@ == k && forall|j: int|
                0 <= j < i ==> (#[trigger] s[j].root@) != k,
        },
    decreases s.len(),
{
    if s.len() == 0 {
    } else if s[0].root@ == k {
    } else {
        lemma_find_root_spec(s.drop_first(), k);
        match find_root_spec(s.drop_first(), k) {
            None => {
                assert forall|j: int| 0 <= j < s.len() implies (#[trigger] s[j].root@) != k by {
                    if j >= 1 {
                        assert(s.drop_first()[j - 1] == s[j]);
                    }
                }
            },
            Some(i) => {
                assert(s.drop_first()[i] == s[i + 1]);
                assert forall|j: int| 0 <= j < i + 1 implies (#[trigger] s[j].root@) != k by {
                    if j >= 1 {
                        assert(s.drop_first()[j - 1] == s[j]);
                    }
                }
            },
        }
    }
}

impl FileWatcherManager {
    /// The watch entries, in registration order.
    pub closed spec fn entries_view(self) -> Seq<WatchEntry> {
        self.entries@
    }

    /// The global auto-index switch.
    pub closed spec fn spec_auto_index_enabled(self) -> bool {
        self.auto_index_enabled
    }

    /// Whether some project is watched under key `k`.
    pub open spec fn spec_is_watching(self, k: Seq<char>) -> bool {
        find_root_spec(self.entries_view(), k) is Some
    }

    /// Well-formed: roots are unique and normalized.
    pub open spec fn wf(self) -> bool {
        &&& forall|i: int, j: int|
            0 <= i < j < self.entries_view().len() ==> (#[trigger] self.entries_view()[i].root@)
                != (#[trigger] self.entries_view()[j].root@)
        &&& forall|i: int|
            0 <= i < self.entries_view().len() ==> (#[trigger] self.entries_view()[i].root@)
                == normalize_spec(self.entries_view()[i].root@)
    }

    /// A manager with no watches.
    pub fn new(auto_index_enabled: bool) -> (r: FileWatcherManager)
        ensures
            r.wf(),
            r.entries_view() == Seq::<WatchEntry>::empty(),
            r.spec_auto_index_enabled() == auto_index_enabled,
    {
        let r = FileWatcherManager { entries: Vec::new(), auto_index_enabled };
        proof {
            assert(r.entries_view() =~= Seq::<WatchEntry>::empty());
        }
        r
    }

    /// Finds the position of the entry for a normalized root.
    fn find_index(&self, key: &str) -> (r: Option<usize>)
        ensures
            match r {
                None => find_root_spec(self.entries_view(), key@) is None,
                Some(i) => find_root_spec(self.entries_view(), key@) == Some(i as int),
            },
    {
        proof {
            lemma_find_root_spec(self.entries_view(), key@);
        }
        let mut i: usize = 0;
        while i < self.entries.len()
            invariant
                i <= self.entries_view().len(),
                forall|j: int| 0 <= j < i ==> (#[trigger] self.entries_view()[j].root@) != key@,
            decreases self.entries_view().len() - i,
        {
            if str_eq(self.entries[i].root.as_str(), key) {
                proof {
                    lemma_find_root_spec(self.entries_view(), key@);
                }
                return Some(i);
            }
            i = i + 1;
        }
        None
    }

    /// Whether the project is being watched.
    pub fn is_watching(&self, project_root: &str) -> (r: bool)
        ensures
            r == self.spec_is_watching(normalize_spec(project_root@)),
    {
        let key: String = normalize_path_key(project_root);
        self.find_index(key.as_str()).is_some()
    }

    /// Starts watching a project.  Watching an already-watched project is
    /// a no-op success, not an error; `added` reports whether a new watch
    /// was registered.
    pub fn start_watching(&mut self, project_root: &str, debounce_ms: u64) -> (added: bool)
        requires
            old(self).wf(),
        ensures
            final(self).wf(),
            final(self).spec_auto_index_enabled() == old(self).spec_auto_index_enabled(),
            final(self).spec_is_watching(normalize_spec(project_root@)),
            added == !old(self).spec_is_watching(normalize_spec(project_root@)),
            !added ==> final(self).entries_view() == old(self).entries_view(),
            added ==> {
                &&& final(self).entries_view().drop_last() == old(self).entries_view()
                &&& final(self).entries_view().last() == (WatchEntry {
                    root: final(self).entries_view().last().root,
                    debounce_ms,
                    deadline: None,
                    running: false,
                    rerun_pending: false,
                })
                &&& final(self).entries_view().last().root@ == normalize_spec(project_root@)
            },
    {
        let key: String = normalize_path_key(project_root);
        proof {
            crate::paths::lemma_normalize_idempotent(project_root@);
            lemma_find_root_spec(self.entries_view(), key@);
        }
        match self.find_index(key.as_str()) {
            Some(_) => false,
            None => {
                self.entries.push(
                    WatchEntry {
                        root: key,
                        debounce_ms,
                        deadline: None,
                        running: false,
                        rerun_pending: false,
                    },
                );
                proof {
                    assert(self.entries_view().drop_last() =~= old(self).entries_view());
                    lemma_find_root_spec(self.entries_view(), normalize_spec(project_root@));
                    match find_root_spec(self.entries_view(), normalize_spec(project_root@)) {
                        None => {
                            assert(false);
                        },
                        Some(_) => {},
                    }
                }
                true
            },
        }
    }

    /// Stops watching a project.  Reports whether a watch was there.
    pub fn stop_watching(&mut self, project_root: &str) -> (removed: bool)
        requires
            old(self).wf(),
        ensures
            final(self).wf(),
            final(self).spec_auto_index_enabled() == old(self).spec_auto_index_enabled(),
            !final(self).spec_is_watching(normalize_spec(project_root@)),
            removed == old(self).spec_is_watching(normalize_spec(project_root@)),
            ({
                match find_root_spec(old(self).entries_view(), normalize_spec(project_root@)) {
                    Some(i) => final(self).entries_view() == old(self).entries_view().remove(i),
                    None => final(self).entries_view() == old(self).entries_view(),
                }
            }),
    {
        let key: String = normalize_path_key(project_root);
        proof {
            lemma_find_root_spec(self.entries_view(), key@);
        }
        match self.find_index(key.as_str()) {
            Some(i) => {
                self.entries.remove(i);
                proof {
                    lemma_find_root_spec(self.entries_view(), key@);
                    lemma_find_root_spec(old(self).entries_view(), key@);
                }
                true
            },
            None => false,
        }
    }

    /// Stops every watch.
    pub fn stop_all(&mut self)
        ensures
            final(self).wf(),
            final(self).entries_view() == Seq::<WatchEntry>::empty(),
            final(self).spec_auto_index_enabled() == old(self).spec_auto_index_enabled(),
    {
        self.entries.clear();
        proof {
            assert(self.entries_view() =~= Seq::<WatchEntry>::empty());
        }
    }

    /// The watched project roots, in registration order.
    pub fn get_watching_projects(&self) -> (r: Vec<String>)
        ensures
            r@.len() == self.entries_view().len(),
            forall|i: int|
                0 <= i < r@.len() ==> (#[trigger] r@[i]) == self.entries_view()[i].root,
    {
        let mut out: Vec<String> = Vec::new();
        let mut i: usize = 0;
        while i < self.entries.len()
            invariant
                i <= self.entries_view().len(),
                out@.len() == i,
                forall|j: int|
                    0 <= j < i ==> (#[trigger] out@[j]) == self.entries_view()[j].root,
            decreases self.entries_view().len() - i,
        {
            out.push(self.entries[i].root.clone());
            i = i + 1;
        }
        out
    }

    /// Turns the global auto-index switch on or off.  Watches stay
    /// registered either way; only triggering is suppressed.
    pub fn set_auto_index_enabled(&mut self, enabled: bool)
        ensures
            final(self).spec_auto_index_enabled() == enabled,
            final(self).entries_view() == old(self).entries_view(),
            old(self).wf() ==> final(self).wf(),
    {
        self.auto_index_enabled = enabled;
    }

    /// Reads the global auto-index switch.
    pub fn is_auto_index_enabled(&self) -> (r: bool)
        ensures
            r == self.spec_auto_index_enabled(),
    {
        self.auto_index_enabled
    }

    /// Feeds one file-change event at time `now`: the project's debounce
    /// timer is reset, and nothing is triggered.  Reports whether the
    /// project was being watched.
    pub fn note_file_event(&mut self, project_root: &str, now: u64) -> (noted: bool)
        requires
            old(self).wf(),
        ensures
            final(self).wf(),
            final(self).spec_auto_index_enabled() == old(self).spec_auto_index_enabled(),
            noted == old(self).spec_is_watching(normalize_spec(project_root@)),
            ({
                match find_root_spec(old(self).entries_view(), normalize_spec(project_root@)) {
                    Some(i) => final(self).entries_view() == old(self).entries_view().update(
                        i,
                        on_event_spec(old(self).entries_view()[i], now),
                    ),
                    None => final(self).entries_view() == old(self).entries_view(),
                }
            }),
    {
        let key: String = normalize_path_key(project_root);
        proof {
            lemma_find_root_spec(self.entries_view(), key@);
        }
        match self.find_index(key.as_str()) {
            Some(i) => {
                let e = &self.entries[i];
                let new_deadline: u64 = if now > u64::MAX - e.debounce_ms {
                    u64::MAX
                } else {
                    now + e.debounce_ms
                };
                let updated = WatchEntry {
                    root: e.root.clone(),
                    debounce_ms: e.debounce_ms,
                    deadline: Some(new_deadline),
                    running: e.running,
                    rerun_pending: e.rerun_pending,
                };
                proof {
                    assert(updated =~= on_event_spec(old(self).entries_view()[i as int], now));
                }
                self.entries.set(i, updated);
                true
            },
            None => false,
        }
    }

    /// Feeds one timer expiry at time `now`: when the project's deadline
    /// is due and auto-indexing is on, the pass is either started (the result)
    /// or deferred behind a pass already in flight.
    pub fn fire_deadline(&mut self, project_root: &str, now: u64) -> (started: bool)
        requires
            old(self).wf(),
        ensures
            final(self).wf(),
            final(self).spec_auto_index_enabled() == old(self).spec_auto_index_enabled(),
            ({
                match find_root_spec(old(self).entries_view(), normalize_spec(project_root@)) {
                    Some(i) => {
                        let step = on_deadline_spec(
                            old(self).entries_view()[i],
                            now,
                            old(self).spec_auto_index_enabled(),
                        );
                        &&& final(self).entries_view() == old(self).entries_view().update(
                            i,
                            step.0,
                        )
                        &&& started == (step.1 == 1)
                    },
                    None => final(self).entries_view() == old(self).entries_view() && !started,
                }
            }),
    {
        let key: String = normalize_path_key(project_root);
        proof {
            lemma_find_root_spec(self.entries_view(), key@);
        }
        match self.find_index(key.as_str()) {
            Some(i) => {
                let e = &self.entries[i];
                let (new_deadline, new_running, new_rerun, started): (
                    Option<u64>,
                    bool,
                    bool,
                    bool,
                ) = match e.deadline {
                    Some(d) => {
                        if now < d {
                            (Some(d), e.running, e.rerun_pending, false)
                        } else if !self.auto_index_enabled {
                            (None, e.running, e.rerun_pending, false)
                        } else if e.running {
                            (None, e.running, true, false)
                        } else {
                            (None, true, e.rerun_pending, true)
                        }
                    },
                    None => (None, e.running, e.rerun_pending, false),
                };
                let e = &self.entries[i];
                let updated = WatchEntry {
                    root: e.root.clone(),
                    debounce_ms: e.debounce_ms,
                    deadline: new_deadline,
                    running: new_running,
                    rerun_pending: new_rerun,
                };
                proof {
                    let step = on_deadline_spec(
                        old(self).entries_view()[i as int],
                        now,
                        old(self).spec_auto_index_enabled(),
                    );
                    if old(self).entries_view()[i as int].deadline is None {
                        assert(updated =~= step.0);
                    } else {
                        assert(updated =~= step.0);
                    }
                }
                self.entries.set(i, updated);
                started
            },
            None => false,
        }
    }

    /// Notes that a re-index pass for the project has completed.  When a
    /// trigger was deferred during the pass, the result asks the caller
    /// to start the follow-up pass at once.
    pub fn complete_pass(&mut self, project_root: &str) -> (refire: bool)
        requires
            old(self).wf(),
        ensures
            final(self).wf(),
            final(self).spec_auto_index_enabled() == old(self).spec_auto_index_enabled(),
            ({
                match find_root_spec(old(self).entries_view(), normalize_spec(project_root@)) {
                    Some(i) => {
                        let step = on_complete_spec(old(self).entries_view()[i]);
                        &&& final(self).entries_view() == old(self).entries_view().update(
                            i,
                            step.0,
                        )
                        &&& refire == (step.1 == 1)
                    },
                    None => final(self).entries_view() == old(self).entries_view() && !refire,
                }
            }),
    {
        let key: String = normalize_path_key(project_root);
        proof {
            lemma_find_root_spec(self.entries_view(), key@);
        }
        match self.find_index(key.as_str()) {
            Some(i) => {
                let e = &self.entries[i];
                let (new_running, new_rerun, refire): (bool, bool, bool) = if e.rerun_pending {
                    (e.running, false, true)
                } else {
                    (false, e.rerun_pending, false)
                };
                let e = &self.entries[i];
                let updated = WatchEntry {
                    root: e.root.clone(),
                    debounce_ms: e.debounce_ms,
                    deadline: e.deadline,
                    running: new_running,
                    rerun_pending: new_rerun,
                };
                proof {
                    assert(updated =~= on_complete_spec(old(self).entries_view()[i as int]).0);
                }
                self.entries.set(i, updated);
                refire
            },
            None => false,
        }
    }
}

} // verus!
