//! The request and response shapes of the command surface. Plain data:
//! the surface itself — transport, serialization, UI — is the caller's
//! part.

use vstd::prelude::*;

verus! {

/// Where the open workspace lives.
#[derive(Debug, Clone)]
pub struct WorkspaceInfo {
    pub path: String,
    pub initialized: bool,
}

/// A request to import a dataset into a project.
#[derive(Debug, Clone)]
pub struct ImportDatasetRequest {
    pub project_id: String,
    pub name: String,
    pub source_path: String,
    pub copy: bool,
}

/// A request to register a run's model under a name and version.
#[derive(Debug, Clone)]
pub struct RegisterModelRequest {
    pub project_id: String,
    pub run_id: String,
    pub name: String,
    pub version: String,
    pub description: Option<String>,
}

/// A request to export a model version.
#[derive(Debug, Clone)]
pub struct ExportRequest {
    pub project_id: String,
    pub model_version_id: String,
    pub export_type: String,
}

/// The outcome of an export.
#[derive(Debug, Clone)]
pub struct ExportResult {
    pub id: String,
    pub path: String,
    pub export_type: String,
}

/// A model joined with its version and project, for the global listing.
#[derive(Debug, Clone)]
pub struct GlobalModel {
    pub id: String,
    pub project_id: String,
    pub project_name: String,
    pub name: String,
    pub description: Option<String>,
    pub stage: String,
    pub version: String,
    pub version_id: String,
    pub artifact_path: Option<String>,
    pub created_at: String,
}

/// A request to pull a container image.
#[derive(Debug, Clone)]
pub struct DockerPullRequest {
    pub image: String,
    pub tag: String,
}

/// Where the local callback listener is reachable.
#[derive(Debug, Clone)]
pub struct OAuthServerInfo {
    pub port: u16,
    pub callback_url: String,
}

/// What the callback carried.
#[derive(Debug, Clone)]
pub struct OAuthCallbackResult {
    pub access_token: Option<String>,
    pub refresh_token: Option<String>,
    pub code: Option<String>,
    pub error: Option<String>,
}

} // verus!
