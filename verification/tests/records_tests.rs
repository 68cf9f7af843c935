use babushkaml::records::ModelVersion;

fn version(id: &str, model_id: &str, stage: &str) -> ModelVersion {
    ModelVersion {
        id: String::from(id),
        model_id: String::from(model_id),
        run_id: Some(String::from("run-1")),
        version: String::from("1.0"),
        stage: String::from(stage),
        artifact_path: String::from("/artifacts"),
        provenance_json: None,
        metrics_json: None,
        created_at: String::from("t0"),
        promoted_at: None,
    }
}

#[test]
fn promoting_to_production_demotes_the_previous_holder() {
    let mut versions = vec![
        version("v1", "m1", "production"),
        version("v2", "m1", "staging"),
        version("v3", "m2", "production"),
    ];
    assert!(ModelVersion::promote(&mut versions, "v2", "production", "t1").is_ok());
    assert_eq!(versions[0].stage, "archived");
    assert_eq!(versions[0].promoted_at, Some(String::from("t1")));
    assert_eq!(versions[1].stage, "production");
    assert_eq!(versions[1].promoted_at, Some(String::from("t1")));
    // The other model's production version is untouched.
    assert_eq!(versions[2].stage, "production");
    assert_eq!(versions[2].promoted_at, None);
}

#[test]
fn promoting_to_staging_touches_only_the_target() {
    let mut versions = vec![
        version("v1", "m1", "production"),
        version("v2", "m1", "draft"),
    ];
    assert!(ModelVersion::promote(&mut versions, "v2", "staging", "t1").is_ok());
    assert_eq!(versions[0].stage, "production");
    assert_eq!(versions[1].stage, "staging");
}

#[test]
fn promoting_an_unknown_version_fails() {
    let mut versions = vec![version("v1", "m1", "draft")];
    let r = ModelVersion::promote(&mut versions, "nope", "production", "t1");
    assert_eq!(r.unwrap_err().message, "Model version not found");
    assert_eq!(versions[0].stage, "draft");
}

#[test]
fn at_most_one_production_per_model_after_repeated_promotions() {
    let mut versions = vec![
        version("v1", "m1", "draft"),
        version("v2", "m1", "draft"),
        version("v3", "m1", "draft"),
    ];
    ModelVersion::promote(&mut versions, "v1", "production", "t1").unwrap();
    ModelVersion::promote(&mut versions, "v2", "production", "t2").unwrap();
    ModelVersion::promote(&mut versions, "v3", "production", "t3").unwrap();
    let in_production: Vec<&str> = versions
        .iter()
        .filter(|v| v.stage == "production")
        .map(|v| v.id.as_str())
        .collect();
    assert_eq!(in_production, vec!["v3"]);
    assert_eq!(versions[0].stage, "archived");
    assert_eq!(versions[1].stage, "archived");
}
