//! Crash recovery decisions.
//!
//! The autosave file sits beside the project under an extension of its own
//! and the project's own file is never touched. It is written only when the
//! document changed since the last write, and offered at startup only when it
//! is newer than the project it shadows.

use vstd::prelude::*;

verus! {

/// Seconds between autosave attempts unless configured otherwise.
pub const DEFAULT_INTERVAL_SECS: u64 = 120;

/// An autosave worth offering at startup.
#[derive(Debug, Clone, PartialEq)]
pub struct Recovery {
    /// The autosave file.
    pub autosave: String,
    /// The project it belongs to, if it had one.
    pub project: Option<String>,
}

/// The autosave file name for a project file named `project_file_name`:
/// the project's own name with `.autosave` appended, so it can never be taken
/// for a project and sorts next to the thing it belongs to.
pub fn autosave_file_name(project_file_name: &str) -> (name: String)
    ensures
        name@ == project_file_name@ + ".autosave"@,
{
    let mut out = project_file_name.to_owned();
    out.append(".autosave");
    out
}

/// The autosave file name for a document never saved: one fixed name in the
/// temp directory, so crashes do not accumulate files.
pub fn unsaved_file_name() -> (name: String)
    ensures
        name@ == "untitled.ankh.autosave"@,
{
    "untitled.ankh.autosave".to_owned()
}

/// Whether a due timer should write: only if the document changed since the
/// last successful write (`None` until one happens, so an edit before the
/// first write still saves).
pub fn write_due(saved_revision: Option<u64>, revision: u64) -> (due: bool)
    ensures
        due == (saved_revision != Some(revision)),
{
    match saved_revision {
        Some(saved) => saved != revision,
        None => true,
    }
}

/// Whether to offer an autosave modified at `autosave_modified` for a project
/// last modified at `project_modified` (both on one clock). A project whose
/// time cannot be read does not supersede the autosave: the recovery is
/// offered rather than hidden.
pub fn offer_recovery(autosave_modified: u128, project_modified: Option<u128>) -> (offer: bool)
    ensures
        offer == match project_modified {
            Some(t) => t < autosave_modified,
            None => true,
        },
{
    match project_modified {
        Some(t) => t < autosave_modified,
        None => true,
    }
}

} // verus!
