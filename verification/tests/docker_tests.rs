use babushkaml::docker::{
    bind_mount, classify_pull_failure, clean_image_line, container_name, docker_hub_url,
    docker_probe_candidates, docker_run_args, full_image_name, image_in_list, repo_of,
    select_docker_executable, PullFailureKind,
};

#[test]
fn container_name_is_deterministic_and_scrubbed() {
    assert_eq!(
        container_name("123e4567-e89b-12d3-a456-426614174000"),
        "babushkaml-train-123e4567e89b"
    );
    assert_eq!(container_name("short"), "babushkaml-train-short");
    assert_eq!(container_name("short"), container_name("short"));
}

#[test]
fn bind_mounts() {
    assert_eq!(bind_mount("/tmp/cfg.json", "/app/config.json", true), "/tmp/cfg.json:/app/config.json:ro");
    assert_eq!(bind_mount("/tmp/out", "/app/output", false), "/tmp/out:/app/output");
}

#[test]
fn full_image_names() {
    assert_eq!(full_image_name("python", "3.11"), "python:3.11");
    assert_eq!(full_image_name("python:3.12", "latest"), "python:3.12");
}

#[test]
fn image_lookup_is_exact() {
    let images = vec![String::from("python:3.11"), String::from("redis:7")];
    assert!(image_in_list(&images, "python:3.11"));
    assert!(!image_in_list(&images, "python:3.12"));
    assert!(!image_in_list(&images, "python"));
}

#[test]
fn runtime_selection_precedence() {
    let present = vec![false, false, false, false];
    // A nonempty existing `which` result wins.
    assert_eq!(
        select_docker_executable(Some(String::from("/opt/docker")), true, &present, false),
        Some(String::from("/opt/docker"))
    );
    // A `which` result that does not exist is ignored.
    let present = vec![false, true, false, false];
    assert_eq!(
        select_docker_executable(Some(String::from("/gone")), false, &present, false),
        Some(String::from("/opt/homebrew/bin/docker"))
    );
    // With nothing found, the bare name is tried only when it works.
    let none = vec![false, false, false, false];
    assert_eq!(
        select_docker_executable(None, false, &none, true),
        Some(String::from("docker"))
    );
    assert_eq!(select_docker_executable(None, false, &none, false), None);
}

#[test]
fn probe_candidates_are_the_well_known_locations() {
    let c = docker_probe_candidates();
    assert_eq!(c[0], "/usr/local/bin/docker");
    assert_eq!(c[3], "/usr/bin/docker");
    assert_eq!(c.len(), 4);
}

#[test]
fn pull_failures_are_classified() {
    assert_eq!(
        classify_pull_failure("manifest unknown: manifest tagged xyz is not found"),
        PullFailureKind::UnknownManifest
    );
    assert_eq!(
        classify_pull_failure("pull access denied for xgboost"),
        PullFailureKind::AccessDenied
    );
    assert_eq!(
        classify_pull_failure("repository does not exist or may require authorization"),
        PullFailureKind::AccessDenied
    );
    assert_eq!(classify_pull_failure("network timeout"), PullFailureKind::Other);
}

#[test]
fn repository_and_hub_url() {
    assert_eq!(repo_of("python:3.11"), "python");
    assert_eq!(repo_of("jupyter/scipy-notebook:latest"), "jupyter/scipy-notebook");
    assert_eq!(repo_of("redis"), "redis");
    assert_eq!(docker_hub_url("python"), "https://hub.docker.com/_/python");
    assert_eq!(
        docker_hub_url("jupyter/scipy-notebook"),
        "https://hub.docker.com/r/jupyter/scipy-notebook"
    );
}

#[test]
fn docker_run_arguments_plain() {
    let args = docker_run_args(
        "babushkaml-train-abc",
        "/w/cfg.json:/app/config.json:ro",
        "/w/out:/app/output",
        "/w/runner.py:/app/runner.py:ro",
        None,
        false,
        None,
        None,
        "python:3.11",
        "r1",
    );
    assert_eq!(args[0], "run");
    assert_eq!(args[1], "--rm");
    assert_eq!(args[2], "--name");
    assert_eq!(args[3], "babushkaml-train-abc");
    assert_eq!(args[4], "--memory");
    assert_eq!(args[5], "4g");
    assert_eq!(args[6], "--cpus");
    assert_eq!(args[7], "2.0");
    assert_eq!(args[16], "--workdir");
    assert_eq!(args[17], "/app");
    assert_eq!(args[18], "python:3.11");
    assert_eq!(args[19], "python3");
    assert_eq!(args[20], "/app/runner.py");
    assert_eq!(args[21], "--run-id");
    assert_eq!(args[22], "r1");
    assert_eq!(args.last().unwrap(), "/app/output");
}

#[test]
fn docker_run_arguments_with_dataset_gpu_and_requirements() {
    let args = docker_run_args(
        "babushkaml-train-abc",
        "/w/cfg.json:/app/config.json:ro",
        "/w/out:/app/output",
        "/w/runner.py:/app/runner.py:ro",
        Some("/w/data:/app/dataset:ro"),
        true,
        Some("/w/requirements.txt:/app/requirements.txt:ro"),
        None,
        "python:3.11",
        "r1",
    );
    assert!(args.contains(&String::from("/w/data:/app/dataset:ro")));
    assert!(args.contains(&String::from("--gpus")));
    assert!(args.contains(&String::from("all")));
    // With requirements mounted, the trainer is started through the
    // shell after installing the dependencies.
    let n = args.len();
    assert_eq!(args[n - 3], "sh");
    assert_eq!(args[n - 2], "-c");
    assert_eq!(
        args[n - 1],
        "pip install --quiet --no-cache-dir -r /app/requirements.txt && python3 /app/runner.py --run-id r1 --config /app/config.json --output-dir /app/output --dataset /app/dataset"
    );
}

#[test]
fn image_listing_lines_are_trimmed_and_blank_lines_dropped() {
    assert_eq!(clean_image_line("  python:3.11 \t"), Some(String::from("python:3.11")));
    assert_eq!(clean_image_line("redis:7"), Some(String::from("redis:7")));
    assert_eq!(clean_image_line("   "), None);
    assert_eq!(clean_image_line(""), None);
}
