//! The task status store and the run trigger.
//!
//! One process-wide [`TaskStatus`] value sits behind a lock; every read
//! (a status poll) and every write (a progress append, a flag or result
//! mutation) holds the lock only for that one field update, never for a
//! whole run. The run trigger is the single-flight guard: it starts a
//! new run only when none is in progress.

use vstd::prelude::*;
use vstd::rwlock::{RwLock, RwLockPredicate};
use crate::models::{LottoResultView, LottoType, TaskStatus, spec_display_name};
use crate::driver::{
    PageOutcome, RunState, apply_outcome, abort_status, finish_status, log_fetch_status,
    make_start_line, start_line, step_state,
};

verus! {

/// Invariant of the shared status: a running run always names the
/// source kind being crawled.
pub struct StatusInv {}

impl RwLockPredicate<TaskStatus> for StatusInv {
    open spec fn inv(self, v: TaskStatus) -> bool {
        v@.is_running ==> v@.lotto_type is Some
    }
}

/// What the run trigger reports: the run was started, or one was
/// already in progress and nothing changed.
#[derive(Clone, Copy, PartialEq, Eq, Structural, Debug)]
pub enum StartOutcome {
    Accepted,
    AlreadyRunning,
}

/// The single-flight transition on the status value. While a run is in
/// progress it changes nothing and reports `AlreadyRunning`; otherwise
/// it atomically marks the run as started: running flag set, source
/// kind recorded, the progress log replaced by the single starting
/// line, and the results cleared.
pub fn try_start_status(ts: &mut TaskStatus, kind: LottoType) -> (r: StartOutcome)
    ensures
        old(ts)@.is_running ==> r is AlreadyRunning && final(ts)@ == old(ts)@,
        !old(ts)@.is_running ==> {
            &&& r is Accepted
            &&& final(ts)@.is_running
            &&& final(ts)@.lotto_type == Some(spec_display_name(kind))
            &&& final(ts)@.progress == seq![start_line(kind)]
            &&& final(ts)@.results == Seq::<LottoResultView>::empty()
        },
{
    if ts.is_running {
        return StartOutcome::AlreadyRunning;
    }
    ts.is_running = true;
    ts.lotto_type = Some(kind.display_name());
    let mut progress: Vec<String> = Vec::new();
    progress.push(make_start_line(kind));
    ts.progress = progress;
    ts.results = Vec::new();
    proof {
        assert(final(ts)@.progress =~= seq![start_line(kind)]);
        assert(final(ts)@.results =~= Seq::<LottoResultView>::empty());
    }
    StartOutcome::Accepted
}

/// Shared application state: the one mutable value the foreground
/// status poller and the background crawl driver both touch.
pub struct AppState {
    pub task_status: RwLock<TaskStatus, StatusInv>,
}

impl AppState {
    /// Creates the process-wide state, with an idle status.
    pub fn new() -> (r: AppState) {
        AppState { task_status: RwLock::new(TaskStatus::new(), Ghost(StatusInv {  })) }
    }

    /// A status poll: copies the current status under a read lock,
    /// holding it only for the duration of the copy.
    pub fn status_snapshot(&self) -> (r: TaskStatus)
        ensures
            r@.is_running ==> r@.lotto_type is Some,
    {
        let handle = self.task_status.acquire_read();
        let snap = handle.borrow().duplicate();
        handle.release_read();
        snap
    }

    /// The run trigger: starts a run if and only if none is in
    /// progress, applying [`try_start_status`] under the write lock.
    /// The caller spawns the driver only on `Accepted`.
    pub fn try_start(&self, kind: LottoType) -> (r: StartOutcome) {
        let (mut ts, handle) = self.task_status.acquire_write();
        let r = try_start_status(&mut ts, kind);
        handle.release_write(ts);
        r
    }

    /// Appends the fetch progress line for `url` under the write lock.
    pub fn log_fetch(&self, url: &str) {
        let (mut ts, handle) = self.task_status.acquire_write();
        log_fetch_status(&mut ts, url);
        handle.release_write(ts);
    }

    /// Applies one page outcome to the run state, logging a failure
    /// line under the write lock. The run steps exactly as
    /// [`step_state`] says.
    pub fn apply_page_outcome(&self, run: &mut RunState, url: &str, outcome: PageOutcome)
        ensures
            final(run)@ == step_state(old(run)@, outcome@),
    {
        let (mut ts, handle) = self.task_status.acquire_write();
        apply_outcome(&mut ts, run, url, outcome);
        handle.release_write(ts);
    }

    /// Ends the run under the write lock: publishes the collected
    /// records, appends the completion line, clears the running flag.
    pub fn finish_run(&self, run: RunState, kind: LottoType) {
        let (mut ts, handle) = self.task_status.acquire_write();
        finish_status(&mut ts, run, kind);
        handle.release_write(ts);
    }

    /// Ends a run that could not begin, recording `line` and clearing
    /// the running flag under the write lock.
    pub fn abort_run(&self, line: String) {
        let (mut ts, handle) = self.task_status.acquire_write();
        abort_status(&mut ts, line);
        handle.release_write(ts);
    }
}

/// Polling is idempotent: any two snapshots taken of the same status
/// value are equal as values, so repeated polls without an intervening
/// mutation of the status return identical snapshots.
pub proof fn lemma_snapshot_idempotent(ts: TaskStatus, s1: TaskStatus, s2: TaskStatus)
    requires
        call_ensures(TaskStatus::duplicate, (&ts,), s1),
        call_ensures(TaskStatus::duplicate, (&ts,), s2),
    ensures
        s1@ == s2@,
{
}

} // verus!
