//! The failures that end a run of the tool.

use vstd::prelude::*;

verus! {

#[derive(Debug)]
pub enum NajError {
    /// No profile file exists for the id; `path` is where it was looked for.
    ProfileNotFound { id: String, path: String },
    /// A switch or one-shot command was asked for outside a repository.
    NotARepository,
    /// git failed in a way that is not benign; `context` names the step.
    ExternalTool { context: String, code: Option<i32>, stderr: String },
    /// A path could not be determined.
    Io { context: String },
}

} // verus!
