use babushkaml::dataset::{build_manifest, manifest_to_json, resolve_data_path};
use babushkaml::errors::WorkspaceError;
use babushkaml::fingerprint::{fingerprint_entries, FileEntry};
use babushkaml::records::provenance_json;
use babushkaml::strutil::{i64_to_string, str_eq, str_has_substring, u64_to_string};
use babushkaml::workspace::Workspace;

fn ws() -> Workspace {
    Workspace { root: String::from("/data/ws") }
}

#[test]
fn workspace_paths() {
    let w = ws();
    assert_eq!(w.db_path(), "/data/ws/db");
    assert_eq!(w.sqlite_path(), "/data/ws/db/app.sqlite");
    assert_eq!(w.projects_path(), "/data/ws/projects");
    assert_eq!(w.cache_path(), "/data/ws/cache");
    assert_eq!(w.tmp_path(), "/data/ws/tmp");
    assert_eq!(w.project_path("p1"), "/data/ws/projects/p1");
    assert_eq!(w.dataset_path("p1", "d1"), "/data/ws/projects/p1/datasets/d1");
    assert_eq!(w.run_path("p1", "r1"), "/data/ws/projects/p1/runs/r1");
    assert_eq!(w.model_path("p1", "m"), "/data/ws/projects/p1/models/m");
    assert_eq!(w.export_path("p1", "e1"), "/data/ws/projects/p1/exports/e1");
}

#[test]
fn workspace_open_requires_an_existing_root() {
    let w = Workspace::open("/data/ws", true).unwrap();
    assert_eq!(w.root, "/data/ws");
    match Workspace::open("/gone", false) {
        Err(WorkspaceError::PathNotFound(p)) => assert_eq!(p, "/gone"),
        other => panic!("expected PathNotFound, got {:?}", other),
    }
}

#[test]
fn workspace_directory_lists() {
    let w = ws();
    assert_eq!(
        w.init_dirs(),
        vec!["/data/ws/db", "/data/ws/projects", "/data/ws/cache", "/data/ws/tmp"]
    );
    assert_eq!(
        w.init_project_dirs("p1"),
        vec![
            "/data/ws/projects/p1/datasets",
            "/data/ws/projects/p1/runs",
            "/data/ws/projects/p1/models",
            "/data/ws/projects/p1/exports",
        ]
    );
    assert_eq!(
        w.init_run_dirs("p1", "r1"),
        vec![
            "/data/ws/projects/p1/runs/r1",
            "/data/ws/projects/p1/runs/r1/artifacts",
            "/data/ws/projects/p1/runs/r1/model",
        ]
    );
}

#[test]
fn manifests_record_the_storage_mode() {
    let fp = fingerprint_entries(Vec::new());
    let m = build_manifest("d1", "mnist", "/src/data", true, fp.clone(), "t0");
    assert_eq!(m.storage_mode, "copy");
    assert_eq!(resolve_data_path(&m, "/data/ws/projects/p/datasets/d1"), "/data/ws/projects/p/datasets/d1/raw");
    let m = build_manifest("d1", "mnist", "/src/data", false, fp, "t0");
    assert_eq!(m.storage_mode, "reference");
    assert_eq!(resolve_data_path(&m, "/data/ws/projects/p/datasets/d1"), "/src/data");
}

#[test]
fn manifest_serialization_is_exact() {
    let fp = fingerprint_entries(vec![FileEntry {
        path: String::from("a.txt"),
        hash: String::from("aa"),
        size: 3,
    }]);
    let digest = fp.fingerprint.clone();
    let m = build_manifest("d1", "tiny \"set\"", "/src", true, fp, "t0");
    let expected = format!(
        "{{\"id\":\"d1\",\"name\":\"tiny \\\"set\\\"\",\"source_path\":\"/src\",\"storage_mode\":\"copy\",\"fingerprint\":{{\"fingerprint\":\"{}\",\"total_size\":3,\"file_count\":1,\"files\":[{{\"path\":\"a.txt\",\"hash\":\"aa\",\"size\":3}}]}},\"created_at\":\"t0\"}}",
        digest
    );
    assert_eq!(manifest_to_json(&m), expected);
}

#[test]
fn provenance_document() {
    assert_eq!(
        provenance_json("r1", "t0"),
        "{\"run_id\":\"r1\",\"registered_at\":\"t0\",\"source\":\"local_training\"}"
    );
}

#[test]
fn string_helpers() {
    assert_eq!(u64_to_string(0), "0");
    assert_eq!(u64_to_string(90210), "90210");
    assert_eq!(i64_to_string(-42), "-42");
    assert_eq!(i64_to_string(7), "7");
    assert!(str_eq("abc", "abc"));
    assert!(!str_eq("abc", "abd"));
    assert!(str_has_substring("the manifest unknown error", "manifest unknown"));
    assert!(!str_has_substring("short", "longer than short"));
    assert!(str_has_substring("anything", ""));
}

#[test]
fn emitted_manifest_is_valid_json_for_an_independent_parser() {
    let fp = fingerprint_entries(vec![FileEntry {
        path: String::from("dir/β file \"x\"\t.bin"),
        hash: String::from("00ff"),
        size: 9,
    }]);
    let m = build_manifest("d9", "tricky\nname", "/src/data", false, fp, "2024-01-01T00:00:00Z");
    let text = manifest_to_json(&m);
    let v: serde_json::Value = serde_json::from_str(&text).unwrap();
    assert_eq!(v["id"], "d9");
    assert_eq!(v["name"], "tricky\nname");
    assert_eq!(v["storage_mode"], "reference");
    assert_eq!(v["fingerprint"]["file_count"], 1);
    assert_eq!(v["fingerprint"]["total_size"], 9);
    assert_eq!(v["fingerprint"]["files"][0]["path"], "dir/β file \"x\"\t.bin");
    assert_eq!(v["fingerprint"]["files"][0]["size"], 9);
    assert_eq!(v["created_at"], "2024-01-01T00:00:00Z");
}
