//! The workspace directory layout: where a workspace keeps its database,
//! projects, datasets, runs, models and exports.
//!
//! Paths are plain strings joined with `/`; creating the directories is
//! the caller's part, guided by the `*_dirs` functions.

use vstd::prelude::*;

use crate::errors::WorkspaceError;

verus! {

/// A workspace rooted at a directory.
#[derive(Debug, Clone)]
pub struct Workspace {
    pub root: String,
}

impl Workspace {
    /// The database directory.
    pub open spec fn spec_db_path(&self) -> Seq<char> {
        self.root@ + "/db"@
    }

    /// The SQLite file inside the database directory.
    pub open spec fn spec_sqlite_path(&self) -> Seq<char> {
        self.spec_db_path() + "/app.sqlite"@
    }

    /// The projects directory.
    pub open spec fn spec_projects_path(&self) -> Seq<char> {
        self.root@ + "/projects"@
    }

    /// The cache directory.
    pub open spec fn spec_cache_path(&self) -> Seq<char> {
        self.root@ + "/cache"@
    }

    /// The scratch directory.
    pub open spec fn spec_tmp_path(&self) -> Seq<char> {
        self.root@ + "/tmp"@
    }

    /// A project's directory.
    pub open spec fn spec_project_path(&self, project_id: Seq<char>) -> Seq<char> {
        self.spec_projects_path() + "/"@ + project_id
    }

    /// A dataset's directory inside a project.
    pub open spec fn spec_dataset_path(&self, project_id: Seq<char>, dataset_id: Seq<char>) -> Seq<
        char,
    > {
        self.spec_project_path(project_id) + "/datasets/"@ + dataset_id
    }

    /// A run's directory inside a project.
    pub open spec fn spec_run_path(&self, project_id: Seq<char>, run_id: Seq<char>) -> Seq<char> {
        self.spec_project_path(project_id) + "/runs/"@ + run_id
    }

    /// A model's directory inside a project.
    pub open spec fn spec_model_path(&self, project_id: Seq<char>, model_name: Seq<char>) -> Seq<
        char,
    > {
        self.spec_project_path(project_id) + "/models/"@ + model_name
    }

    /// An export's directory inside a project.
    pub open spec fn spec_export_path(&self, project_id: Seq<char>, export_id: Seq<char>) -> Seq<
        char,
    > {
        self.spec_project_path(project_id) + "/exports/"@ + export_id
    }

    /// Open a workspace at `root`. The caller reports whether the root
    /// exists on disk; a missing root is refused.
    pub fn open(root: &str, root_exists: bool) -> (r: Result<Workspace, WorkspaceError>)
        ensures
            root_exists ==> (r matches Ok(w) && w.root@ == root@),
            !root_exists ==> (r matches Err(e) && e matches WorkspaceError::PathNotFound(p)
                && p@ == root@),
    {
        if root_exists {
            Ok(Workspace { root: String::from_str(root) })
        } else {
            Err(WorkspaceError::PathNotFound(String::from_str(root)))
        }
    }

    /// The database directory.
    pub fn db_path(&self) -> (r: String)
        ensures
            r@ == self.spec_db_path(),
    {
        self.root.clone().concat("/db")
    }

    /// The SQLite file inside the database directory.
    pub fn sqlite_path(&self) -> (r: String)
        ensures
            r@ == self.spec_sqlite_path(),
    {
        self.db_path().concat("/app.sqlite")
    }

    /// The projects directory.
    pub fn projects_path(&self) -> (r: String)
        ensures
            r@ == self.spec_projects_path(),
    {
        self.root.clone().concat("/projects")
    }

    /// The cache directory.
    pub fn cache_path(&self) -> (r: String)
        ensures
            r@ == self.spec_cache_path(),
    {
        self.root.clone().concat("/cache")
    }

    /// The scratch directory.
    pub fn tmp_path(&self) -> (r: String)
        ensures
            r@ == self.spec_tmp_path(),
    {
        self.root.clone().concat("/tmp")
    }

    /// A project's directory.
    pub fn project_path(&self, project_id: &str) -> (r: String)
        ensures
            r@ == self.spec_project_path(project_id@),
    {
        self.projects_path().concat("/").concat(project_id)
    }

    /// A dataset's directory inside a project.
    pub fn dataset_path(&self, project_id: &str, dataset_id: &str) -> (r: String)
        ensures
            r@ == self.spec_dataset_path(project_id@, dataset_id@),
    {
        self.project_path(project_id).concat("/datasets/").concat(dataset_id)
    }

    /// A run's directory inside a project.
    pub fn run_path(&self, project_id: &str, run_id: &str) -> (r: String)
        ensures
            r@ == self.spec_run_path(project_id@, run_id@),
    {
        self.project_path(project_id).concat("/runs/").concat(run_id)
    }

    /// A model's directory inside a project.
    pub fn model_path(&self, project_id: &str, model_name: &str) -> (r: String)
        ensures
            r@ == self.spec_model_path(project_id@, model_name@),
    {
        self.project_path(project_id).concat("/models/").concat(model_name)
    }

    /// An export's directory inside a project.
    pub fn export_path(&self, project_id: &str, export_id: &str) -> (r: String)
        ensures
            r@ == self.spec_export_path(project_id@, export_id@),
    {
        self.project_path(project_id).concat("/exports/").concat(export_id)
    }

    /// The directories a fresh workspace needs, for the caller to create.
    pub fn init_dirs(&self) -> (r: Vec<String>)
        ensures
            r@.len() == 4,
            r@[0]@ == self.spec_db_path(),
            r@[1]@ == self.spec_projects_path(),
            r@[2]@ == self.spec_cache_path(),
            r@[3]@ == self.spec_tmp_path(),
    {
        let mut v: Vec<String> = Vec::new();
        v.push(self.db_path());
        v.push(self.projects_path());
        v.push(self.cache_path());
        v.push(self.tmp_path());
        v
    }

    /// The directories a fresh project needs, for the caller to create.
    pub fn init_project_dirs(&self, project_id: &str) -> (r: Vec<String>)
        ensures
            r@.len() == 4,
            r@[0]@ == self.spec_project_path(project_id@) + "/datasets"@,
            r@[1]@ == self.spec_project_path(project_id@) + "/runs"@,
            r@[2]@ == self.spec_project_path(project_id@) + "/models"@,
            r@[3]@ == self.spec_project_path(project_id@) + "/exports"@,
    {
        let base = self.project_path(project_id);
        let mut v: Vec<String> = Vec::new();
        v.push(base.clone().concat("/datasets"));
        v.push(base.clone().concat("/runs"));
        v.push(base.clone().concat("/models"));
        v.push(base.concat("/exports"));
        v
    }

    /// The directories a fresh run needs, for the caller to create.
    pub fn init_run_dirs(&self, project_id: &str, run_id: &str) -> (r: Vec<String>)
        ensures
            r@.len() == 3,
            r@[0]@ == self.spec_run_path(project_id@, run_id@),
            r@[1]@ == self.spec_run_path(project_id@, run_id@) + "/artifacts"@,
            r@[2]@ == self.spec_run_path(project_id@, run_id@) + "/model"@,
    {
        let base = self.run_path(project_id, run_id);
        let mut v: Vec<String> = Vec::new();
        v.push(base.clone());
        v.push(base.clone().concat("/artifacts"));
        v.push(base.concat("/model"));
        v
    }
}

} // verus!
