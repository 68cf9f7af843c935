//! The records kept about projects, datasets, runs, models and exports,
//! and the stage rules of the model registry.
//!
//! Persistence of these records is the caller's part; the rule that needs
//! proof lives here: at most one version of a model holds the `production`
//! stage, and promotion demotes the previous holder atomically.

use vstd::prelude::*;

use crate::errors::CommandError;
use crate::strutil::str_eq;

verus! {

/// A project: the top-level grouping of datasets, runs and models.
#[derive(Debug, Clone)]
pub struct Project {
    pub id: String,
    pub name: String,
    pub root_path: String,
    pub description: Option<String>,
    pub created_at: String,
    pub updated_at: String,
}

/// An imported dataset as recorded, keyed by its content fingerprint.
#[derive(Debug, Clone)]
pub struct Dataset {
    pub id: String,
    pub project_id: String,
    pub name: String,
    pub fingerprint: String,
    pub storage_mode: String,
    pub manifest_path: String,
    pub size_bytes: Option<i64>,
    pub file_count: Option<i32>,
    pub created_at: String,
}

/// A training run as recorded.
#[derive(Debug, Clone)]
pub struct Run {
    pub id: String,
    pub project_id: String,
    pub dataset_id: Option<String>,
    pub name: Option<String>,
    pub status: String,
    pub started_at: Option<String>,
    pub ended_at: Option<String>,
    pub config_path: Option<String>,
    pub entrypoint: Option<String>,
    pub error_summary: Option<String>,
    pub device: Option<String>,
    pub created_at: String,
}

/// An artifact produced by a run.
#[derive(Debug, Clone)]
pub struct Artifact {
    pub id: String,
    pub run_id: String,
    pub kind: String,
    pub path: String,
    pub sha256: String,
    pub size_bytes: i64,
    pub created_at: String,
}

/// A named model of a project.
#[derive(Debug, Clone)]
pub struct Model {
    pub id: String,
    pub project_id: String,
    pub name: String,
    pub description: Option<String>,
    pub created_at: String,
}

/// One registered version of a model, carrying its lifecycle stage:
/// `draft`, `staging`, `production` or `archived`.
#[derive(Debug, Clone)]
pub struct ModelVersion {
    pub id: String,
    pub model_id: String,
    pub run_id: Option<String>,
    pub version: String,
    pub stage: String,
    pub artifact_path: String,
    pub provenance_json: Option<String>,
    pub metrics_json: Option<String>,
    pub created_at: String,
    pub promoted_at: Option<String>,
}

/// A recorded export of a model version.
#[derive(Debug, Clone)]
pub struct Export {
    pub id: String,
    pub project_id: String,
    pub model_version_id: String,
    pub export_type: String,
    pub path: String,
    pub created_at: String,
}

/// Mathematical image of a `ModelVersion`.
pub struct ModelVersionV {
    pub id: Seq<char>,
    pub model_id: Seq<char>,
    pub run_id: Option<Seq<char>>,
    pub version: Seq<char>,
    pub stage: Seq<char>,
    pub artifact_path: Seq<char>,
    pub provenance_json: Option<Seq<char>>,
    pub metrics_json: Option<Seq<char>>,
    pub created_at: Seq<char>,
    pub promoted_at: Option<Seq<char>>,
}

/// The view of an optional string.
pub open spec fn opt_view(o: Option<String>) -> Option<Seq<char>> {
    match o {
        Some(s) => Some(s@),
        None => None,
    }
}

impl View for ModelVersion {
    type V = ModelVersionV;

    open spec fn view(&self) -> ModelVersionV {
        ModelVersionV {
            id: self.id@,
            model_id: self.model_id@,
            run_id: opt_view(self.run_id),
            version: self.version@,
            stage: self.stage@,
            artifact_path: self.artifact_path@,
            provenance_json: opt_view(self.provenance_json),
            metrics_json: opt_view(self.metrics_json),
            created_at: self.created_at@,
            promoted_at: opt_view(self.promoted_at),
        }
    }
}

/// The views of a vector of versions, in order.
pub open spec fn versions_view(s: Seq<ModelVersion>) -> Seq<ModelVersionV> {
    Seq::new(s.len(), |i: int| s[i]@)
}

/// Whether some version in `s` carries the id.
pub open spec fn spec_contains_version(s: Seq<ModelVersionV>, id: Seq<char>) -> bool {
    exists|i: int| 0 <= i < s.len() && s[i].id == id
}

/// The index of the version carrying `id` (meaningful only when present
/// and ids are distinct).
pub open spec fn spec_version_index(s: Seq<ModelVersionV>, id: Seq<char>) -> int {
    choose|i: int| 0 <= i < s.len() && s[i].id == id
}

/// Version ids are pairwise distinct.
pub open spec fn spec_distinct_version_ids(s: Seq<ModelVersionV>) -> bool {
    forall|i: int, j: int| 0 <= i < s.len() && 0 <= j < s.len() && i != j ==> s[i].id != s[j].id
}

/// How one version changes under a promotion: the target takes the new
/// stage; when the new stage is `production`, any other version of the
/// same model that held `production` is demoted to `archived`; everything
/// else is untouched. Demotions and the promotion stamp the same instant.
pub open spec fn spec_promote_one(
    v: ModelVersionV,
    target: ModelVersionV,
    new_stage: Seq<char>,
    now: Seq<char>,
) -> ModelVersionV {
    if v.id == target.id {
        ModelVersionV { stage: new_stage, promoted_at: Some(now), ..v }
    } else if new_stage == "production"@ && v.model_id == target.model_id && v.stage
        == "production"@ {
        ModelVersionV { stage: "archived"@, promoted_at: Some(now), ..v }
    } else {
        v
    }
}

/// The whole promotion, applied to every version at once.
pub open spec fn spec_promote(
    s: Seq<ModelVersionV>,
    id: Seq<char>,
    new_stage: Seq<char>,
    now: Seq<char>,
) -> Option<Seq<ModelVersionV>> {
    if spec_contains_version(s, id) {
        let target = s[spec_version_index(s, id)];
        Some(Seq::new(s.len(), |j: int| spec_promote_one(s[j], target, new_stage, now)))
    } else {
        None
    }
}

/// At most one version of each model is in `production`.
pub open spec fn at_most_one_production(s: Seq<ModelVersionV>) -> bool {
    forall|i: int, j: int|
        0 <= i < s.len() && 0 <= j < s.len() && i != j && #[trigger] s[i].model_id
            == #[trigger] s[j].model_id && s[i].stage == "production"@ ==> s[j].stage
            != "production"@
}

impl ModelVersion {
    /// The index of the version carrying `id`, if any.
    fn find_version(versions: &Vec<ModelVersion>, id: &str) -> (r: Option<usize>)
        requires
            spec_distinct_version_ids(versions_view(versions@)),
        ensures
            match r {
                Some(i) => i < versions@.len() && versions@[i as int]@.id == id@
                    && spec_contains_version(versions_view(versions@), id@) && i as int
                    == spec_version_index(versions_view(versions@), id@),
                None => !spec_contains_version(versions_view(versions@), id@),
            },
    {
        let ghost vs = versions_view(versions@);
        let n = versions.len();
        let mut i: usize = 0;
        while i < n
            invariant
                vs == versions_view(versions@),
                spec_distinct_version_ids(vs),
                n == versions@.len(),
                i <= n,
                forall|k: int| 0 <= k < i ==> vs[k].id != id@,
            decreases n - i,
        {
            if str_eq(versions[i].id.as_str(), id) {
                proof {
                    assert(vs[i as int].id == id@);
                    let w = spec_version_index(vs, id@);
                    assert(0 <= w < vs.len() && vs[w].id == id@);
                }
                return Some(i);
            }
            i = i + 1;
        }
        None
    }

    /// Promote the version carrying `id` to `new_stage`, stamping `now`.
    /// When the new stage is `production`, every other `production`
    /// version of the same model is demoted to `archived` in the same
    /// step. Fails when the id names no version, leaving all unchanged.
    pub fn promote(
        versions: &mut Vec<ModelVersion>,
        id: &str,
        new_stage: &str,
        now: &str,
    ) -> (r: Result<(), CommandError>)
        requires
            spec_distinct_version_ids(versions_view(old(versions)@)),
        ensures
            match r {
                Ok(()) => spec_promote(versions_view(old(versions)@), id@, new_stage@, now@)
                    == Some(versions_view(final(versions)@)),
                Err(e) => {
                    &&& spec_promote(versions_view(old(versions)@), id@, new_stage@, now@)
                        is None
                    &&& final(versions)@ == old(versions)@
                    &&& e.message@ == "Model version not found"@
                },
            },
    {
        let ghost vs = versions_view(old(versions)@);
        let t = match Self::find_version(versions, id) {
            Some(t) => t,
            None => {
                return Err(
                    CommandError { message: String::from_str("Model version not found") },
                );
            },
        };
        let ghost target = vs[t as int];
        let target_model_id = versions[t].model_id.clone();
        let to_production = str_eq(new_stage, "production");
        let n = versions.len();
        let mut out: Vec<ModelVersion> = Vec::new();
        let mut j: usize = 0;
        while j < n
            invariant
                vs == versions_view(versions@),
                spec_distinct_version_ids(vs),
                n == versions@.len(),
                t < n,
                target == vs[t as int],
                target_model_id@ == target.model_id,
                to_production == (new_stage@ == "production"@),
                j <= n,
                out@.len() == j,
                forall|k: int|
                    0 <= k < j ==> (#[trigger] out@[k])@ == spec_promote_one(
                        vs[k],
                        target,
                        new_stage@,
                        now@,
                    ),
            decreases n - j,
        {
            let v = &versions[j];
            let updated: ModelVersion = if j == t {
                ModelVersion {
                    id: v.id.clone(),
                    model_id: v.model_id.clone(),
                    run_id: v.run_id.clone(),
                    version: v.version.clone(),
                    stage: String::from_str(new_stage),
                    artifact_path: v.artifact_path.clone(),
                    provenance_json: v.provenance_json.clone(),
                    metrics_json: v.metrics_json.clone(),
                    created_at: v.created_at.clone(),
                    promoted_at: Some(String::from_str(now)),
                }
            } else if to_production && v.model_id == target_model_id && str_eq(
                v.stage.as_str(),
                "production",
            ) {
                ModelVersion {
                    id: v.id.clone(),
                    model_id: v.model_id.clone(),
                    run_id: v.run_id.clone(),
                    version: v.version.clone(),
                    stage: String::from_str("archived"),
                    artifact_path: v.artifact_path.clone(),
                    provenance_json: v.provenance_json.clone(),
                    metrics_json: v.metrics_json.clone(),
                    created_at: v.created_at.clone(),
                    promoted_at: Some(String::from_str(now)),
                }
            } else {
                ModelVersion {
                    id: v.id.clone(),
                    model_id: v.model_id.clone(),
                    run_id: v.run_id.clone(),
                    version: v.version.clone(),
                    stage: v.stage.clone(),
                    artifact_path: v.artifact_path.clone(),
                    provenance_json: v.provenance_json.clone(),
                    metrics_json: v.metrics_json.clone(),
                    created_at: v.created_at.clone(),
                    promoted_at: v.promoted_at.clone(),
                }
            };
            proof {
                assert(vs[j as int].id == target.id ==> j == t) by {
                    if j != t && vs[j as int].id == target.id {
                        assert(vs[j as int].id != vs[t as int].id);
                    }
                }
                assert(updated@ == spec_promote_one(vs[j as int], target, new_stage@, now@));
            }
            out.push(updated);
            j = j + 1;
        }
        *versions = out;
        proof {
            assert(versions_view(final(versions)@) =~= Seq::new(
                vs.len(),
                |k: int| spec_promote_one(vs[k], target, new_stage@, now@),
            ));
        }
        Ok(())
    }
}

/// Promotion to `production` is atomic and exclusive: afterwards the
/// target version holds `production`, no other version of the same model
/// does (any prior holder is now `archived`), versions of other models
/// are untouched, and a registry that respected the one-production rule
/// before respects it after.
pub proof fn lemma_promote_production_atomic(s: Seq<ModelVersionV>, id: Seq<char>, now: Seq<char>)
    requires
        spec_distinct_version_ids(s),
        spec_contains_version(s, id),
        at_most_one_production(s),
    ensures
        spec_promote(s, id, "production"@, now) is Some,
        ({
            let r = spec_promote(s, id, "production"@, now)->0;
            let t = spec_version_index(s, id);
            &&& r.len() == s.len()
            &&& r[t].stage == "production"@
            &&& forall|j: int|
                0 <= j < r.len() && j != t && #[trigger] r[j].model_id == r[t].model_id ==> r[j].stage
                    != "production"@
            &&& forall|j: int|
                0 <= j < r.len() && j != t && s[j].model_id == s[t].model_id && s[j].stage
                    == "production"@ ==> (#[trigger] r[j]).stage == "archived"@
            &&& forall|j: int|
                0 <= j < r.len() && s[j].model_id != s[t].model_id ==> #[trigger] r[j] == s[j]
            &&& at_most_one_production(r)
        }),
{
    reveal_strlit("production");
    reveal_strlit("archived");
    let t = spec_version_index(s, id);
    assert(0 <= t < s.len() && s[t].id == id);
    let r = spec_promote(s, id, "production"@, now)->0;
    assert forall|j: int| 0 <= j < s.len() && j != t implies s[j].id != s[t].id by {}
    assert(r[t].stage == "production"@);
    assert forall|i: int, j: int|
        0 <= i < r.len() && 0 <= j < r.len() && i != j && #[trigger] r[i].model_id
            == #[trigger] r[j].model_id && r[i].stage == "production"@ implies r[j].stage
        != "production"@ by {
        if r[i].model_id == r[t].model_id {
            assert(i == t || r[i].stage != "production"@);
        }
    }
}

} // verus!

verus! {

/// The provenance document recorded with a freshly registered model
/// version: the run it came from, when it was registered, and that it
/// was trained locally.
pub open spec fn spec_provenance_json(run_id: Seq<char>, registered_at: Seq<char>) -> Seq<char> {
    "{\"run_id\":\""@ + crate::json::spec_escape(run_id) + "\",\"registered_at\":\""@
        + crate::json::spec_escape(registered_at) + "\",\"source\":\"local_training\"}"@
}

/// Serialize the provenance document for a model version.
pub fn provenance_json(run_id: &str, registered_at: &str) -> (r: String)
    ensures
        r@ == spec_provenance_json(run_id@, registered_at@),
{
    String::from_str("{\"run_id\":\"").concat(
        crate::json::escape_string(run_id).as_str(),
    ).concat("\",\"registered_at\":\"").concat(
        crate::json::escape_string(registered_at).as_str(),
    ).concat("\",\"source\":\"local_training\"}")
}

} // verus!
