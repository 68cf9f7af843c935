//! Error taxonomy of the run supervisor and the workspace.

use vstd::prelude::*;

verus! {

/// Failures raised while starting, supervising, or retiring a run.
///
/// `Timeout` is raised only by the image-pull phase; `DaemonUnavailable`,
/// `RuntimeNotFound` and `ImageNotFound` are raised only by the container
/// backend.
#[derive(Debug, Clone)]
pub enum RunnerError {
    SpawnFailed(String),
    AlreadyRunning(String),
    NotFound(String),
    Timeout(String),
    DaemonUnavailable,
    RuntimeNotFound,
    ImageNotFound(String),
    IoError(String),
}

impl RunnerError {
    /// The description text, as a character sequence.
    pub open spec fn spec_describe(self) -> Seq<char> {
        match self {
            RunnerError::SpawnFailed(e) => "Failed to spawn process: "@ + e@,
            RunnerError::AlreadyRunning(id) => "Run "@ + id@ + " is already running"@,
            RunnerError::NotFound(id) => "Run "@ + id@ + " not found"@,
            RunnerError::Timeout(what) => "Timed out: "@ + what@,
            RunnerError::DaemonUnavailable => "Container daemon is not running"@,
            RunnerError::RuntimeNotFound => "Container runtime not found"@,
            RunnerError::ImageNotFound(img) => "Image "@ + img@ + " not found after pull"@,
            RunnerError::IoError(e) => "IO error: "@ + e@,
        }
    }

    /// A human-readable description of the failure.
    pub fn describe(&self) -> (r: String)
        ensures
            r@ == self.spec_describe(),
    {
        match self {
            RunnerError::SpawnFailed(e) => String::from_str("Failed to spawn process: ").concat(
                e.as_str(),
            ),
            RunnerError::AlreadyRunning(id) => String::from_str("Run ").concat(id.as_str()).concat(
                " is already running",
            ),
            RunnerError::NotFound(id) => String::from_str("Run ").concat(id.as_str()).concat(
                " not found",
            ),
            RunnerError::Timeout(what) => String::from_str("Timed out: ").concat(what.as_str()),
            RunnerError::DaemonUnavailable => String::from_str("Container daemon is not running"),
            RunnerError::RuntimeNotFound => String::from_str("Container runtime not found"),
            RunnerError::ImageNotFound(img) => String::from_str("Image ").concat(
                img.as_str(),
            ).concat(" not found after pull"),
            RunnerError::IoError(e) => String::from_str("IO error: ").concat(e.as_str()),
        }
    }
}

/// Failures of workspace file management.
#[derive(Debug, Clone)]
pub enum WorkspaceError {
    Io(String),
    PathNotFound(String),
    InvalidStructure,
}

impl WorkspaceError {
    /// The description text, as a character sequence.
    pub open spec fn spec_describe(self) -> Seq<char> {
        match self {
            WorkspaceError::Io(e) => "IO error: "@ + e@,
            WorkspaceError::PathNotFound(p) => "Path not found: "@ + p@,
            WorkspaceError::InvalidStructure => "Invalid workspace structure"@,
        }
    }

    /// A human-readable description of the failure.
    pub fn describe(&self) -> (r: String)
        ensures
            r@ == self.spec_describe(),
    {
        match self {
            WorkspaceError::Io(e) => String::from_str("IO error: ").concat(e.as_str()),
            WorkspaceError::PathNotFound(p) => String::from_str("Path not found: ").concat(
                p.as_str(),
            ),
            WorkspaceError::InvalidStructure => String::from_str("Invalid workspace structure"),
        }
    }
}

/// The error shape handed to command-surface callers: a bare message.
#[derive(Debug, Clone)]
pub struct CommandError {
    pub message: String,
}

impl From<WorkspaceError> for CommandError {
    fn from(e: WorkspaceError) -> (r: CommandError)
        ensures
            r.message@ == e.spec_describe(),
    {
        CommandError { message: e.describe() }
    }
}

impl vstd::std_specs::convert::FromSpecImpl<WorkspaceError> for CommandError {
    open spec fn obeys_from_spec() -> bool {
        false
    }

    open spec fn from_spec(e: WorkspaceError) -> CommandError {
        arbitrary()
    }
}

impl From<RunnerError> for CommandError {
    fn from(e: RunnerError) -> (r: CommandError)
        ensures
            r.message@ == e.spec_describe(),
    {
        CommandError { message: e.describe() }
    }
}

impl vstd::std_specs::convert::FromSpecImpl<RunnerError> for CommandError {
    open spec fn obeys_from_spec() -> bool {
        false
    }

    open spec fn from_spec(e: RunnerError) -> CommandError {
        arbitrary()
    }
}

} // verus!
