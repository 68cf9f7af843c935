//! The execution backends' decision core.
//!
//! Both backends — local process and container — share the tail of a run:
//! spawn, read both streams, wait, and emit a terminal status. The
//! container backend additionally walks a fixed preparation order:
//! resolve the runtime, check its daemon, check the image, pull and
//! re-verify if absent, then launch. The caller performs each outside
//! action and feeds the observation back; the phase machine here decides
//! what follows, and is the only place those decisions live.

use vstd::prelude::*;

use crate::errors::RunnerError;
use crate::event::{RunnerEvent, RunnerEventV};
use crate::strutil::{i64_to_string, spec_i64_chars};

verus! {

/// How an image pull ended.
#[derive(Debug, Clone)]
pub enum PullOutcome {
    Success,
    Failure(String),
    TimedOut,
}

/// What the caller observed while driving a container run.
#[derive(Debug, Clone)]
pub enum ContainerObservation {
    /// The runtime executable, where one was found.
    RuntimeResolved(Option<String>),
    /// Whether the runtime's daemon answered.
    DaemonChecked(bool),
    /// Whether the image is present locally.
    ImageChecked(bool),
    /// How the pull ended.
    PullEnded(PullOutcome),
    /// Whether the image is present after a reported-successful pull.
    VerifyChecked(bool),
    /// The spawn error, if the launch failed.
    SpawnResult(Option<String>),
    /// The exit code; nothing when waiting itself failed.
    Exited(Option<i32>),
}

/// Where a container run stands. `Finished(Ok(()))` means the container
/// ran and exited cleanly; `Finished(Err(..))` carries the failure.
#[derive(Debug)]
pub enum ContainerPhase {
    ResolveRuntime,
    CheckDaemon,
    CheckImage,
    Pull,
    VerifyPull,
    Launch,
    Wait,
    Finished(Result<(), RunnerError>),
}

/// How one observation advances a container run: the whole step
/// relation, one clause per case.
///
/// The order is fixed: an unreachable daemon ends the run with
/// `DaemonUnavailable` at once — in particular, before any pull — and a
/// pull happens only after the image was found absent. A finished run
/// stays finished; an observation that does not belong to the current
/// phase changes nothing.
pub open spec fn spec_step_rel(
    phase: ContainerPhase,
    obs: ContainerObservation,
    image: Seq<char>,
    r: ContainerPhase,
) -> bool {
    &&& (phase is ResolveRuntime && obs is RuntimeResolved && obs->RuntimeResolved_0 is Some
            ==> r is CheckDaemon)
    &&& (phase is ResolveRuntime && obs == ContainerObservation::RuntimeResolved(
            None::<String>,
        ) ==> (r matches ContainerPhase::Finished(Err(e)) && e is RuntimeNotFound))
    &&& (phase is CheckDaemon && obs == ContainerObservation::DaemonChecked(true) ==> r
            is CheckImage)
    &&& (phase is CheckDaemon && obs == ContainerObservation::DaemonChecked(false) ==> (r matches
            ContainerPhase::Finished(Err(e)) && e is DaemonUnavailable))
    &&& (phase is CheckImage && obs == ContainerObservation::ImageChecked(true) ==> r is Launch)
    &&& (phase is CheckImage && obs == ContainerObservation::ImageChecked(false) ==> r is Pull)
    &&& (phase is Pull && obs == ContainerObservation::PullEnded(PullOutcome::Success) ==> r
            is VerifyPull)
    &&& (phase is Pull && obs is PullEnded && obs->PullEnded_0 is Failure ==> (r matches
            ContainerPhase::Finished(Err(e)) && e matches RunnerError::IoError(d) && d@
            == "Docker pull failed: "@ + (obs->PullEnded_0)->Failure_0@))
    &&& (phase is Pull && obs == ContainerObservation::PullEnded(PullOutcome::TimedOut) ==> (r
            matches ContainerPhase::Finished(Err(e)) && e matches RunnerError::Timeout(w) && w@
            == "image pull"@))
    &&& (phase is VerifyPull && obs == ContainerObservation::VerifyChecked(true) ==> r is Launch)
    &&& (phase is VerifyPull && obs == ContainerObservation::VerifyChecked(false) ==> (r matches
            ContainerPhase::Finished(Err(e)) && e matches RunnerError::ImageNotFound(im) && im@
            == image))
    &&& (phase is Launch && obs == ContainerObservation::SpawnResult(None::<String>) ==> r is Wait)
    &&& (phase is Launch && obs is SpawnResult && obs->SpawnResult_0 is Some ==> (r matches
            ContainerPhase::Finished(Err(e)) && e matches RunnerError::SpawnFailed(d) && d@
            == (obs->SpawnResult_0)->0@))
    &&& (phase is Wait && obs == ContainerObservation::Exited(Some(0i32)) ==> r
            == ContainerPhase::Finished(Ok(())))
    &&& (phase is Wait && obs is Exited && obs->Exited_0 is Some && obs->Exited_0 != Some(0i32)
            ==> (r matches ContainerPhase::Finished(Err(e)) && e matches RunnerError::IoError(d)
            && d@ == "Container exited with code: "@ + spec_i64_chars(
            (obs->Exited_0)->0 as int)))
    &&& (phase is Wait && obs == ContainerObservation::Exited(None::<i32>) ==> (r matches
            ContainerPhase::Finished(Err(e)) && e matches RunnerError::IoError(d) && d@
            == "Process terminated unexpectedly"@))
    &&& (phase is Finished ==> (r matches ContainerPhase::Finished(g) && g
            == phase->Finished_0))
    &&& (r is Pull && !(phase is Pull) ==> phase is CheckImage && obs
            == ContainerObservation::ImageChecked(false))
    &&& (r is Launch && !(phase is Launch) ==> phase is CheckImage || phase is VerifyPull)
}

/// Advance a container run by one observation.
pub fn container_step(phase: ContainerPhase, obs: ContainerObservation, image: &str) -> (r:
    ContainerPhase)
    ensures
        spec_step_rel(phase, obs, image@, r),
{
    match (phase, obs) {
        (ContainerPhase::ResolveRuntime, ContainerObservation::RuntimeResolved(found)) => {
            match found {
                Some(_p) => ContainerPhase::CheckDaemon,
                None => ContainerPhase::Finished(Err(RunnerError::RuntimeNotFound)),
            }
        },
        (ContainerPhase::CheckDaemon, ContainerObservation::DaemonChecked(up)) => {
            if up {
                ContainerPhase::CheckImage
            } else {
                ContainerPhase::Finished(Err(RunnerError::DaemonUnavailable))
            }
        },
        (ContainerPhase::CheckImage, ContainerObservation::ImageChecked(present)) => {
            if present {
                ContainerPhase::Launch
            } else {
                ContainerPhase::Pull
            }
        },
        (ContainerPhase::Pull, ContainerObservation::PullEnded(outcome)) => {
            match outcome {
                PullOutcome::Success => ContainerPhase::VerifyPull,
                PullOutcome::Failure(m) => ContainerPhase::Finished(
                    Err(
                        RunnerError::IoError(
                            String::from_str("Docker pull failed: ").concat(m.as_str()),
                        ),
                    ),
                ),
                PullOutcome::TimedOut => ContainerPhase::Finished(
                    Err(RunnerError::Timeout(String::from_str("image pull"))),
                ),
            }
        },
        (ContainerPhase::VerifyPull, ContainerObservation::VerifyChecked(present)) => {
            if present {
                ContainerPhase::Launch
            } else {
                ContainerPhase::Finished(
                    Err(RunnerError::ImageNotFound(String::from_str(image))),
                )
            }
        },
        (ContainerPhase::Launch, ContainerObservation::SpawnResult(err)) => {
            match err {
                None => ContainerPhase::Wait,
                Some(m) => ContainerPhase::Finished(Err(RunnerError::SpawnFailed(m))),
            }
        },
        (ContainerPhase::Wait, ContainerObservation::Exited(code)) => {
            match code {
                Some(c) => {
                    if c == 0 {
                        ContainerPhase::Finished(Ok(()))
                    } else {
                        ContainerPhase::Finished(
                            Err(
                                RunnerError::IoError(
                                    String::from_str("Container exited with code: ").concat(
                                        i64_to_string(c as i64).as_str(),
                                    ),
                                ),
                            ),
                        )
                    }
                },
                None => ContainerPhase::Finished(
                    Err(
                        RunnerError::IoError(String::from_str("Process terminated unexpectedly")),
                    ),
                ),
            }
        },
        (ContainerPhase::Finished(f), _) => ContainerPhase::Finished(f),
        (p, _) => p,
    }
}

/// The command-line arguments for a local trainer invocation:
/// the entry script, then the run id, the config file, the output
/// directory, and the dataset directory when there is one.
pub fn trainer_args(
    runner_script: &str,
    run_id: &str,
    config_path: &str,
    run_dir: &str,
    dataset_path: Option<&str>,
) -> (r: Vec<String>)
    ensures
        dataset_path is Some ==> r@.len() == 9,
        dataset_path is None ==> r@.len() == 7,
        r@[0]@ == runner_script@,
        r@[1]@ == "--run-id"@,
        r@[2]@ == run_id@,
        r@[3]@ == "--config"@,
        r@[4]@ == config_path@,
        r@[5]@ == "--output-dir"@,
        r@[6]@ == run_dir@,
        dataset_path is Some ==> r@[7]@ == "--dataset"@ && r@[8]@ == dataset_path->0@,
{
    let mut v: Vec<String> = Vec::new();
    v.push(String::from_str(runner_script));
    v.push(String::from_str("--run-id"));
    v.push(String::from_str(run_id));
    v.push(String::from_str("--config"));
    v.push(String::from_str(config_path));
    v.push(String::from_str("--output-dir"));
    v.push(String::from_str(run_dir));
    if let Some(d) = dataset_path {
        v.push(String::from_str("--dataset"));
        v.push(String::from_str(d));
    }
    v
}

/// The terminal status event a backend emits when the trainer process
/// exits: `SUCCEEDED` for exit code zero, else `FAILED` with the exit
/// code, or with a process-level description when waiting itself failed.
pub fn exit_status_event(exit_code: Option<i32>, ts: &str) -> (r: RunnerEvent)
    ensures
        exit_code == Some(0i32) ==> r@ == (RunnerEventV::Status {
            state: "SUCCEEDED"@,
            error: None,
            ts: ts@,
        }),
        exit_code is Some && exit_code != Some(0i32) ==> r@ == (RunnerEventV::Status {
            state: "FAILED"@,
            error: Some("Exit code: "@ + spec_i64_chars(exit_code->0 as int)),
            ts: ts@,
        }),
        exit_code is None ==> r@ == (RunnerEventV::Status {
            state: "FAILED"@,
            error: Some("Process terminated unexpectedly"@),
            ts: ts@,
        }),
{
    match exit_code {
        Some(c) => {
            if c == 0 {
                RunnerEvent::Status {
                    state: String::from_str("SUCCEEDED"),
                    error: None,
                    ts: String::from_str(ts),
                }
            } else {
                RunnerEvent::Status {
                    state: String::from_str("FAILED"),
                    error: Some(
                        String::from_str("Exit code: ").concat(i64_to_string(c as i64).as_str()),
                    ),
                    ts: String::from_str(ts),
                }
            }
        },
        None => RunnerEvent::Status {
            state: String::from_str("FAILED"),
            error: Some(String::from_str("Process terminated unexpectedly")),
            ts: String::from_str(ts),
        },
    }
}

} // verus!

verus! {

/// The interpreter names and locations probed for the trainer's
/// interpreter, in order.
pub open spec fn spec_python_candidates() -> Seq<Seq<char>> {
    seq![
        "python3"@,
        "python"@,
        "/usr/bin/python3"@,
        "/usr/local/bin/python3"@,
        "/opt/homebrew/bin/python3"@,
    ]
}

/// The interpreter candidates, executably.
pub fn python_candidates() -> (r: Vec<String>)
    ensures
        r@.len() == spec_python_candidates().len(),
        forall|i: int|
            0 <= i < r@.len() ==> (#[trigger] r@[i])@ == spec_python_candidates()[i],
{
    let mut v: Vec<String> = Vec::new();
    v.push(String::from_str("python3"));
    v.push(String::from_str("python"));
    v.push(String::from_str("/usr/bin/python3"));
    v.push(String::from_str("/usr/local/bin/python3"));
    v.push(String::from_str("/opt/homebrew/bin/python3"));
    v
}

/// The first of the given paths whose probe succeeded, if any — how both
/// the interpreter and the bundled trainer script are located. The
/// caller probes; the precedence is decided here.
pub fn first_available(paths: &Vec<String>, available: &Vec<bool>) -> (r: Option<String>)
    requires
        paths@.len() == available@.len(),
    ensures
        match crate::docker::spec_first_set(available@, 0) {
            Some(i) => r matches Some(p) && p@ == paths@[i]@,
            None => r is None,
        },
{
    let n = paths.len();
    let mut i: usize = 0;
    while i < n
        invariant
            n == paths@.len(),
            n == available@.len(),
            i <= n,
            crate::docker::spec_first_set(available@, 0) == crate::docker::spec_first_set(
                available@,
                i as int,
            ),
        decreases n - i,
    {
        if available[i] {
            proof {
                assert(crate::docker::spec_first_set(available@, i as int) == Some(i as int));
            }
            return Some(paths[i].clone());
        }
        i = i + 1;
    }
    None
}

} // verus!

verus! {

/// A run of the phase machine: each phase follows from its predecessor
/// and the observation fed in between.
pub open spec fn spec_trace_ok(
    phases: Seq<ContainerPhase>,
    obs: Seq<ContainerObservation>,
    image: Seq<char>,
) -> bool {
    &&& phases.len() == obs.len() + 1
    &&& forall|i: int|
        0 <= i < obs.len() ==> spec_step_rel(phases[i], obs[i], image, #[trigger] phases[i + 1])
}

/// An unreachable daemon decides the run at once: from the step where
/// the daemon check came back negative, every later phase is the
/// `DaemonUnavailable` failure — in particular, no pull is ever
/// attempted after it.
pub proof fn lemma_daemon_failure_is_final(
    phases: Seq<ContainerPhase>,
    obs: Seq<ContainerObservation>,
    image: Seq<char>,
    j: int,
    k: int,
)
    requires
        spec_trace_ok(phases, obs, image),
        0 <= j < obs.len(),
        phases[j] is CheckDaemon,
        obs[j] == ContainerObservation::DaemonChecked(false),
        j < k < phases.len(),
    ensures
        phases[k] matches ContainerPhase::Finished(Err(e)) && e is DaemonUnavailable,
        !(phases[k] is Pull),
    decreases k,
{
    if k == j + 1 {
        assert(spec_step_rel(phases[j], obs[j], image, phases[j + 1]));
    } else {
        lemma_daemon_failure_is_final(phases, obs, image, j, k - 1);
        assert(spec_step_rel(phases[k - 1], obs[k - 1], image, phases[(k - 1) + 1]));
        assert(spec_step_rel(phases[k - 1], obs[k - 1], image, phases[k]));
    }
}

/// A pull happens only after the image was found absent: any trace that
/// starts at the beginning and reaches the pull phase holds an earlier
/// image check that came back negative.
pub proof fn lemma_pull_needs_absent_image(
    phases: Seq<ContainerPhase>,
    obs: Seq<ContainerObservation>,
    image: Seq<char>,
    k: int,
)
    requires
        spec_trace_ok(phases, obs, image),
        phases.len() > 0,
        phases[0] is ResolveRuntime,
        0 <= k < phases.len(),
        phases[k] is Pull,
    ensures
        exists|j: int|
            0 <= j < k && #[trigger] phases[j] is CheckImage && obs[j]
                == ContainerObservation::ImageChecked(false),
    decreases k,
{
    assert(k > 0);
    assert(spec_step_rel(phases[k - 1], obs[k - 1], image, phases[(k - 1) + 1]));
    assert(spec_step_rel(phases[k - 1], obs[k - 1], image, phases[k]));
    if phases[k - 1] is Pull {
        lemma_pull_needs_absent_image(phases, obs, image, k - 1);
        let j = choose|j: int|
            0 <= j < k - 1 && #[trigger] phases[j] is CheckImage && obs[j]
                == ContainerObservation::ImageChecked(false);
        assert(0 <= j < k && phases[j] is CheckImage && obs[j]
            == ContainerObservation::ImageChecked(false));
    } else {
        assert(phases[k - 1] is CheckImage && obs[k - 1] == ContainerObservation::ImageChecked(
            false,
        ));
    }
}

} // verus!
