use vstd::prelude::*;

use crate::status::StatusError;

verus! {

/// Why an operation on a workspace, a project or an action failed.
#[derive(Debug, Clone)]
pub enum WorkspaceError {
    ProjectNotFound { project: String },
    ActionNotFound { project: String, title: String },
    AlreadyExists { project: String, title: String },
    InvalidStatus(StatusError),
    NotAWorkspace { root: String },
    MissingMarker { root: String },
    MissingProjectDirectory { path: String },
    MissingActionFile { path: String },
    MissingSection { project: String, title: String, section: String },
    Io { context: String },
}

} // verus!
