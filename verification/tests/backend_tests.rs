use babushkaml::backend::{
    container_step, exit_status_event, first_available, python_candidates, trainer_args,
    ContainerObservation, ContainerPhase, PullOutcome,
};
use babushkaml::errors::RunnerError;
use babushkaml::event::RunnerEvent;

const IMAGE: &str = "python:3.11";

#[test]
fn unreachable_daemon_fails_before_any_pull() {
    // The scenario: the runtime is found, its daemon does not answer.
    let p = container_step(
        ContainerPhase::ResolveRuntime,
        ContainerObservation::RuntimeResolved(Some(String::from("/usr/bin/docker"))),
        IMAGE,
    );
    assert!(matches!(p, ContainerPhase::CheckDaemon));
    let p = container_step(p, ContainerObservation::DaemonChecked(false), IMAGE);
    // The run is over with DaemonUnavailable; the image phase — and with
    // it any pull — was never reached.
    match &p {
        ContainerPhase::Finished(Err(RunnerError::DaemonUnavailable)) => {}
        other => panic!("expected DaemonUnavailable, got {:?}", other),
    }
    // Whatever is observed afterwards, the outcome stays put.
    let p = container_step(
        p,
        ContainerObservation::PullEnded(PullOutcome::Success),
        IMAGE,
    );
    assert!(matches!(
        p,
        ContainerPhase::Finished(Err(RunnerError::DaemonUnavailable))
    ));
}

#[test]
fn missing_runtime_fails_at_once() {
    let p = container_step(
        ContainerPhase::ResolveRuntime,
        ContainerObservation::RuntimeResolved(None),
        IMAGE,
    );
    assert!(matches!(
        p,
        ContainerPhase::Finished(Err(RunnerError::RuntimeNotFound))
    ));
}

#[test]
fn present_image_skips_the_pull() {
    let p = container_step(
        ContainerPhase::CheckImage,
        ContainerObservation::ImageChecked(true),
        IMAGE,
    );
    assert!(matches!(p, ContainerPhase::Launch));
}

#[test]
fn absent_image_is_pulled_verified_and_launched() {
    let p = container_step(
        ContainerPhase::CheckImage,
        ContainerObservation::ImageChecked(false),
        IMAGE,
    );
    assert!(matches!(p, ContainerPhase::Pull));
    let p = container_step(p, ContainerObservation::PullEnded(PullOutcome::Success), IMAGE);
    assert!(matches!(p, ContainerPhase::VerifyPull));
    let p = container_step(p, ContainerObservation::VerifyChecked(true), IMAGE);
    assert!(matches!(p, ContainerPhase::Launch));
    let p = container_step(p, ContainerObservation::SpawnResult(None), IMAGE);
    assert!(matches!(p, ContainerPhase::Wait));
    let p = container_step(p, ContainerObservation::Exited(Some(0)), IMAGE);
    assert!(matches!(p, ContainerPhase::Finished(Ok(()))));
}

#[test]
fn pull_timeout_is_a_timeout_failure() {
    let p = container_step(
        ContainerPhase::Pull,
        ContainerObservation::PullEnded(PullOutcome::TimedOut),
        IMAGE,
    );
    match p {
        ContainerPhase::Finished(Err(RunnerError::Timeout(w))) => assert_eq!(w, "image pull"),
        other => panic!("expected a timeout, got {:?}", other),
    }
}

#[test]
fn pull_failure_carries_the_runtime_message() {
    let p = container_step(
        ContainerPhase::Pull,
        ContainerObservation::PullEnded(PullOutcome::Failure(String::from("manifest unknown"))),
        IMAGE,
    );
    match p {
        ContainerPhase::Finished(Err(RunnerError::IoError(m))) => {
            assert_eq!(m, "Docker pull failed: manifest unknown")
        }
        other => panic!("expected a pull failure, got {:?}", other),
    }
}

#[test]
fn silently_failed_pull_is_image_not_found() {
    let p = container_step(
        ContainerPhase::VerifyPull,
        ContainerObservation::VerifyChecked(false),
        IMAGE,
    );
    match p {
        ContainerPhase::Finished(Err(RunnerError::ImageNotFound(im))) => assert_eq!(im, IMAGE),
        other => panic!("expected ImageNotFound, got {:?}", other),
    }
}

#[test]
fn nonzero_exit_fails_with_the_code() {
    let p = container_step(
        ContainerPhase::Wait,
        ContainerObservation::Exited(Some(137)),
        IMAGE,
    );
    match p {
        ContainerPhase::Finished(Err(RunnerError::IoError(m))) => {
            assert_eq!(m, "Container exited with code: 137")
        }
        other => panic!("expected a failure, got {:?}", other),
    }
}

#[test]
fn exit_status_events() {
    match exit_status_event(Some(0), "t") {
        RunnerEvent::Status { state, error, ts } => {
            assert_eq!(state, "SUCCEEDED");
            assert_eq!(error, None);
            assert_eq!(ts, "t");
        }
        other => panic!("expected a status event, got {:?}", other),
    }
    match exit_status_event(Some(3), "t") {
        RunnerEvent::Status { state, error, .. } => {
            assert_eq!(state, "FAILED");
            assert_eq!(error, Some(String::from("Exit code: 3")));
        }
        other => panic!("expected a status event, got {:?}", other),
    }
    match exit_status_event(None, "t") {
        RunnerEvent::Status { state, error, .. } => {
            assert_eq!(state, "FAILED");
            assert_eq!(error, Some(String::from("Process terminated unexpectedly")));
        }
        other => panic!("expected a status event, got {:?}", other),
    }
}

#[test]
fn trainer_invocation_arguments() {
    let args = trainer_args("runner.py", "r1", "cfg.json", "out", Some("data"));
    assert_eq!(
        args,
        vec![
            "runner.py",
            "--run-id",
            "r1",
            "--config",
            "cfg.json",
            "--output-dir",
            "out",
            "--dataset",
            "data",
        ]
    );
    let args = trainer_args("runner.py", "r1", "cfg.json", "out", None);
    assert_eq!(args.len(), 7);
    assert_eq!(args[6], "out");
}

#[test]
fn interpreter_selection_takes_the_first_available() {
    let paths = python_candidates();
    let avail = vec![false, true, true, false, false];
    assert_eq!(first_available(&paths, &avail), Some(String::from("python")));
    let none = vec![false, false, false, false, false];
    assert_eq!(first_available(&paths, &none), None);
}
