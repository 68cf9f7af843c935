//! The run registry: owner of active run handles and of the lifecycle
//! state machine `Pending -> Running -> {Succeeded, Failed, Cancelled}`.
//!
//! The registry enforces one run per id, and the cancellation-precedence
//! invariant: once a run is cancelled its handle is gone, so a later
//! observation of the process exit can no longer produce `Succeeded`.

use vstd::prelude::*;

use crate::errors::RunnerError;

verus! {

/// Status of a supervised training run.
#[derive(Clone, Copy, Debug, PartialEq, Eq, Structural)]
pub enum RunStatus {
    Pending,
    Running,
    Succeeded,
    Failed,
    Cancelled,
}

impl RunStatus {
    /// A terminal status admits no further transition.
    pub open spec fn is_terminal(self) -> bool {
        self == RunStatus::Succeeded || self == RunStatus::Failed || self == RunStatus::Cancelled
    }
}

/// Resolve the terminal status of a run from the cancellation flag and the
/// observed exit outcome.
pub open spec fn spec_resolve_terminal(cancel_signaled: bool, exit_ok: bool) -> RunStatus {
    if cancel_signaled {
        RunStatus::Cancelled
    } else if exit_ok {
        RunStatus::Succeeded
    } else {
        RunStatus::Failed
    }
}

/// Cancellation takes precedence: if the signal was raised before the exit
/// was observed, the run ends `Cancelled` even when the process happened to
/// exit successfully in the same instant.
pub fn resolve_terminal(cancel_signaled: bool, exit_ok: bool) -> (r: RunStatus)
    ensures
        r == spec_resolve_terminal(cancel_signaled, exit_ok),
        cancel_signaled ==> r == RunStatus::Cancelled,
        r.is_terminal(),
{
    if cancel_signaled {
        RunStatus::Cancelled
    } else if exit_ok {
        RunStatus::Succeeded
    } else {
        RunStatus::Failed
    }
}

/// One active training run, owned exclusively by the registry.
pub struct ManagedRun {
    pub run_id: String,
    pub project_id: String,
    pub status: RunStatus,
}

/// Mathematical image of a `ManagedRun`.
pub struct ManagedRunV {
    pub run_id: Seq<char>,
    pub project_id: Seq<char>,
    pub status: RunStatus,
}

impl View for ManagedRun {
    type V = ManagedRunV;

    open spec fn view(&self) -> ManagedRunV {
        ManagedRunV { run_id: self.run_id@, project_id: self.project_id@, status: self.status }
    }
}

/// Whether some handle in `s` carries the id.
pub open spec fn spec_contains_id(s: Seq<ManagedRunV>, id: Seq<char>) -> bool {
    exists|i: int| 0 <= i < s.len() && s[i].run_id == id
}

/// The index of the handle carrying `id` (meaningful only when present and
/// ids are distinct).
pub open spec fn spec_index_of_id(s: Seq<ManagedRunV>, id: Seq<char>) -> int {
    choose|i: int| 0 <= i < s.len() && s[i].run_id == id
}

/// Run ids are pairwise distinct.
pub open spec fn spec_distinct_ids(s: Seq<ManagedRunV>) -> bool {
    forall|i: int, j: int|
        0 <= i < s.len() && 0 <= j < s.len() && i != j ==> s[i].run_id != s[j].run_id
}

/// Registering a run: refused when the id is already present, otherwise the
/// new handle is appended in `Running` state.
pub open spec fn spec_start(s: Seq<ManagedRunV>, id: Seq<char>, pid: Seq<char>) -> Option<
    Seq<ManagedRunV>,
> {
    if spec_contains_id(s, id) {
        None
    } else {
        Some(s.push(ManagedRunV { run_id: id, project_id: pid, status: RunStatus::Running }))
    }
}

/// Cancelling a run: refused when the id is absent, otherwise the handle is
/// removed at once, so no later exit observation can find it.
pub open spec fn spec_cancel(s: Seq<ManagedRunV>, id: Seq<char>) -> Option<Seq<ManagedRunV>> {
    if spec_contains_id(s, id) {
        Some(s.remove(spec_index_of_id(s, id)))
    } else {
        None
    }
}

/// Observing a process exit: if the handle is still present it is retired
/// with the exit's terminal status; if it is gone (the run was cancelled)
/// nothing happens and no status is produced.
pub open spec fn spec_observe_exit(s: Seq<ManagedRunV>, id: Seq<char>, exit_ok: bool) -> (Seq<
    ManagedRunV,
>, Option<RunStatus>) {
    if spec_contains_id(s, id) {
        (s.remove(spec_index_of_id(s, id)), Some(spec_resolve_terminal(false, exit_ok)))
    } else {
        (s, None)
    }
}

/// The run registry. It supervises the set of active runs; the launching
/// and killing of the underlying processes is the caller's part.
pub struct RunnerManager {
    python_path: String,
    runner_script: String,
    runs: Vec<ManagedRun>,
}

impl View for RunnerManager {
    type V = Seq<ManagedRunV>;

    closed spec fn view(&self) -> Seq<ManagedRunV> {
        Seq::new(self.runs@.len(), |i: int| self.runs@[i]@)
    }
}

impl RunnerManager {
    /// Well-formed: active run ids are pairwise distinct, and every handle
    /// held by the registry is in `Running` state.
    pub open spec fn wf(&self) -> bool {
        &&& spec_distinct_ids(self@)
        &&& forall|i: int| 0 <= i < self@.len() ==> (#[trigger] self@[i]).status
            == RunStatus::Running
    }

    /// The configured trainer interpreter.
    pub closed spec fn spec_python_path(&self) -> Seq<char> {
        self.python_path@
    }

    /// The configured trainer entry script.
    pub closed spec fn spec_runner_script(&self) -> Seq<char> {
        self.runner_script@
    }

    /// A fresh registry holding no runs.
    pub fn new(python_path: String, runner_script: String) -> (r: RunnerManager)
        ensures
            r@ =~= Seq::<ManagedRunV>::empty(),
            r.wf(),
            r.spec_python_path() == python_path@,
            r.spec_runner_script() == runner_script@,
    {
        RunnerManager { python_path, runner_script, runs: Vec::new() }
    }

    /// The index of the handle carrying `run_id`, if any.
    fn find_index(&self, run_id: &str) -> (r: Option<usize>)
        requires
            self.wf(),
        ensures
            match r {
                Some(i) => i < self@.len() && self@[i as int].run_id == run_id@
                    && spec_contains_id(self@, run_id@) && i as int == spec_index_of_id(
                    self@,
                    run_id@,
                ),
                None => !spec_contains_id(self@, run_id@),
            },
    {
        let n = self.runs.len();
        let mut i: usize = 0;
        while i < n
            invariant
                self.wf(),
                n == self@.len(),
                i <= n,
                forall|k: int| 0 <= k < i ==> self@[k].run_id != run_id@,
            decreases n - i,
        {
            if crate::strutil::str_eq(self.runs[i].run_id.as_str(), run_id) {
                proof {
                    let w = spec_index_of_id(self@, run_id@);
                    assert(self@[i as int].run_id == run_id@);
                    assert(0 <= w < self@.len() && self@[w].run_id == run_id@);
                }
                return Some(i);
            }
            i = i + 1;
        }
        None
    }

    /// Register a run. Fails with `AlreadyRunning` when the id is already
    /// active; otherwise the handle enters the registry in `Running` state.
    pub fn start_run(&mut self, run_id: String, project_id: String) -> (r: Result<
        (),
        RunnerError,
    >)
        requires
            old(self).wf(),
        ensures
            final(self).wf(),
            final(self).spec_python_path() == old(self).spec_python_path(),
            final(self).spec_runner_script() == old(self).spec_runner_script(),
            match r {
                Ok(()) => spec_start(old(self)@, run_id@, project_id@) == Some(final(self)@),
                Err(e) => {
                    &&& spec_start(old(self)@, run_id@, project_id@) is None
                    &&& final(self)@ == old(self)@
                    &&& e is AlreadyRunning
                    &&& e->AlreadyRunning_0@ == run_id@
                },
            },
    {
        if let Some(_i) = self.find_index(run_id.as_str()) {
            return Err(RunnerError::AlreadyRunning(run_id));
        }
        let handle = ManagedRun { run_id, project_id, status: RunStatus::Running };
        self.runs.push(handle);
        proof {
            assert(final(self)@ =~= old(self)@.push(
                ManagedRunV {
                    run_id: run_id@,
                    project_id: project_id@,
                    status: RunStatus::Running,
                },
            ));
        }
        Ok(())
    }

    /// Cancel a run. Fails with `NotFound` when the id is not active;
    /// otherwise the handle is removed and the terminal status is
    /// `Cancelled` regardless of anything the process may still do.
    pub fn cancel_run(&mut self, run_id: &str) -> (r: Result<RunStatus, RunnerError>)
        requires
            old(self).wf(),
        ensures
            final(self).wf(),
            final(self).spec_python_path() == old(self).spec_python_path(),
            final(self).spec_runner_script() == old(self).spec_runner_script(),
            match r {
                Ok(st) => {
                    &&& st == RunStatus::Cancelled
                    &&& spec_cancel(old(self)@, run_id@) == Some(final(self)@)
                },
                Err(e) => {
                    &&& spec_cancel(old(self)@, run_id@) is None
                    &&& final(self)@ == old(self)@
                    &&& e is NotFound
                    &&& e->NotFound_0@ == run_id@
                },
            },
    {
        match self.find_index(run_id) {
            Some(i) => {
                self.runs.remove(i);
                proof {
                    assert(final(self)@ =~= old(self)@.remove(i as int));
                }
                Ok(RunStatus::Cancelled)
            },
            None => Err(RunnerError::NotFound(String::from_str(run_id))),
        }
    }

    /// Record the observed exit of a run's process. If the handle is still
    /// present it is retired and the exit decides the terminal status; if
    /// the run was cancelled meanwhile the handle is gone and `None` comes
    /// back: the exit cannot override `Cancelled`.
    pub fn observe_exit(&mut self, run_id: &str, exit_ok: bool) -> (r: Option<RunStatus>)
        requires
            old(self).wf(),
        ensures
            final(self).wf(),
            final(self).spec_python_path() == old(self).spec_python_path(),
            final(self).spec_runner_script() == old(self).spec_runner_script(),
            (final(self)@, r) == spec_observe_exit(old(self)@, run_id@, exit_ok),
            r is Some ==> r->0 == spec_resolve_terminal(false, exit_ok),
            r is None ==> final(self)@ == old(self)@,
    {
        match self.find_index(run_id) {
            Some(i) => {
                self.runs.remove(i);
                proof {
                    assert(final(self)@ =~= old(self)@.remove(i as int));
                }
                Some(resolve_terminal(false, exit_ok))
            },
            None => None,
        }
    }

    /// Whether the id names an active run.
    pub fn is_running(&self, run_id: &str) -> (r: bool)
        requires
            self.wf(),
        ensures
            r == spec_contains_id(self@, run_id@),
    {
        self.find_index(run_id).is_some()
    }

    /// The ids of all active runs, in registration order.
    pub fn active_runs(&self) -> (r: Vec<String>)
        ensures
            r@.len() == self@.len(),
            forall|i: int| 0 <= i < r@.len() ==> (#[trigger] r@[i])@ == self@[i].run_id,
    {
        let n = self.runs.len();
        let mut out: Vec<String> = Vec::new();
        let mut i: usize = 0;
        while i < n
            invariant
                n == self@.len(),
                n == self.runs@.len(),
                i <= n,
                out@.len() == i,
                forall|k: int| 0 <= k < i ==> (#[trigger] out@[k])@ == self@[k].run_id,
            decreases n - i,
        {
            out.push(self.runs[i].run_id.clone());
            i = i + 1;
        }
        out
    }
}

/// For any id not currently active, registering succeeds and the handle is
/// `Running`; a second registration of the same id before completion is
/// refused, whatever project it names.
pub proof fn lemma_start_run_exclusive(
    s: Seq<ManagedRunV>,
    id: Seq<char>,
    pid1: Seq<char>,
    pid2: Seq<char>,
)
    requires
        !spec_contains_id(s, id),
    ensures
        spec_start(s, id, pid1) is Some,
        spec_contains_id(spec_start(s, id, pid1)->0, id),
        spec_start(s, id, pid1)->0[spec_index_of_id(spec_start(s, id, pid1)->0, id)].status
            == RunStatus::Running,
        spec_start(spec_start(s, id, pid1)->0, id, pid2) is None,
{
    let s1 = spec_start(s, id, pid1)->0;
    assert(s1[s.len() as int].run_id == id);
    let w = spec_index_of_id(s1, id);
    assert(0 <= w < s1.len() && s1[w].run_id == id);
    if w < s.len() {
        assert(s[w].run_id == id);
        assert(spec_contains_id(s, id));
        assert(false);
    }
    assert(s1[w].status == RunStatus::Running);
}

/// Cancellation wins over success: cancelling an active id yields
/// `Cancelled` and removes the handle, so observing a successful exit
/// afterwards returns no status at all — the run can never end `Succeeded`.
/// On an unknown id, cancellation is refused rather than absorbed.
pub proof fn lemma_cancellation_precedence(s: Seq<ManagedRunV>, id: Seq<char>, exit_ok: bool)
    requires
        spec_distinct_ids(s),
    ensures
        spec_contains_id(s, id) ==> {
            let s1 = spec_cancel(s, id)->0;
            &&& spec_cancel(s, id) is Some
            &&& !spec_contains_id(s1, id)
            &&& spec_observe_exit(s1, id, exit_ok) == (s1, None::<RunStatus>)
        },
        !spec_contains_id(s, id) ==> spec_cancel(s, id) is None,
        spec_resolve_terminal(true, exit_ok) == RunStatus::Cancelled,
{
    if spec_contains_id(s, id) {
        let w = spec_index_of_id(s, id);
        assert(0 <= w < s.len() && s[w].run_id == id);
        let s1 = s.remove(w);
        assert forall|i: int| 0 <= i < s1.len() implies (#[trigger] s1[i]).run_id != id by {
            if i < w {
                assert(s1[i] == s[i]);
            } else {
                assert(s1[i] == s[i + 1]);
            }
        }
        assert(!spec_contains_id(s1, id));
    }
}

} // verus!
