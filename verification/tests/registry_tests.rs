use babushkaml::errors::RunnerError;
use babushkaml::registry::{resolve_terminal, RunStatus, RunnerManager};

fn fresh() -> RunnerManager {
    RunnerManager::new(String::from("python3"), String::from("runner.py"))
}

#[test]
fn start_run_registers_and_refuses_duplicates() {
    let mut m = fresh();
    assert!(!m.is_running("r1"));
    assert!(m.start_run(String::from("r1"), String::from("p1")).is_ok());
    assert!(m.is_running("r1"));
    let second = m.start_run(String::from("r1"), String::from("p2"));
    match second {
        Err(RunnerError::AlreadyRunning(id)) => assert_eq!(id, "r1"),
        _ => panic!("a second start of the same id must be refused"),
    }
    assert!(m.start_run(String::from("r2"), String::from("p1")).is_ok());
    assert_eq!(m.active_runs(), vec![String::from("r1"), String::from("r2")]);
}

#[test]
fn cancel_unknown_run_is_not_found() {
    let mut m = fresh();
    match m.cancel_run("missing") {
        Err(RunnerError::NotFound(id)) => assert_eq!(id, "missing"),
        _ => panic!("cancelling an unknown id must fail with NotFound"),
    }
}

#[test]
fn cancel_wins_over_successful_exit() {
    let mut m = fresh();
    m.start_run(String::from("r1"), String::from("p1")).unwrap();
    let st = m.cancel_run("r1").unwrap();
    assert_eq!(st, RunStatus::Cancelled);
    // The process exits successfully right after the cancellation was
    // signalled: the registry no longer owns the run, so the exit cannot
    // turn it into Succeeded.
    assert_eq!(m.observe_exit("r1", true), None);
    assert!(!m.is_running("r1"));
}

#[test]
fn cancelling_twice_fails_the_second_time() {
    let mut m = fresh();
    m.start_run(String::from("r1"), String::from("p1")).unwrap();
    assert!(m.cancel_run("r1").is_ok());
    assert!(matches!(m.cancel_run("r1"), Err(RunnerError::NotFound(_))));
}

#[test]
fn observed_exit_decides_terminal_status() {
    let mut m = fresh();
    m.start_run(String::from("ok"), String::from("p")).unwrap();
    m.start_run(String::from("bad"), String::from("p")).unwrap();
    assert_eq!(m.observe_exit("ok", true), Some(RunStatus::Succeeded));
    assert_eq!(m.observe_exit("bad", false), Some(RunStatus::Failed));
    assert!(m.active_runs().is_empty());
}

#[test]
fn cancellation_has_precedence_in_resolution() {
    assert_eq!(resolve_terminal(true, true), RunStatus::Cancelled);
    assert_eq!(resolve_terminal(true, false), RunStatus::Cancelled);
    assert_eq!(resolve_terminal(false, true), RunStatus::Succeeded);
    assert_eq!(resolve_terminal(false, false), RunStatus::Failed);
}

#[test]
fn runner_error_descriptions() {
    assert_eq!(
        RunnerError::AlreadyRunning(String::from("x")).describe(),
        "Run x is already running"
    );
    assert_eq!(RunnerError::NotFound(String::from("y")).describe(), "Run y not found");
    assert_eq!(
        RunnerError::DaemonUnavailable.describe(),
        "Container daemon is not running"
    );
    assert_eq!(
        RunnerError::SpawnFailed(String::from("oops")).describe(),
        "Failed to spawn process: oops"
    );
}
