//! The library's error type for registry operations.
use vstd::prelude::*;

verus! {

/// Everything a registry command can fail with. The library's own logic only
/// produces `NotFound`; the remaining variants carry the message of a failure
/// that happened outside the library (persistence, file copies, the editor),
/// so that callers can funnel every failure through one type.
#[derive(Debug)]
pub enum ConfigrsError {
    /// A name that is not in the repository was asked for.
    NotFound(String),
    /// Loading the persisted registry failed.
    LoadConfig(String),
    /// Storing the persisted registry failed.
    SaveConfig(String),
    /// A file copy failed.
    Io(String),
    /// Launching the external editor failed.
    Editor(String),
}

impl ConfigrsError {
    /// The user-facing message for this error.
    pub fn message(&self) -> (r: String)
        ensures
            self matches ConfigrsError::NotFound(n) ==> r@ == n@ + " is not in the repository"@,
            self matches ConfigrsError::LoadConfig(m) ==> r@ == m@,
            self matches ConfigrsError::SaveConfig(m) ==> r@ == m@,
            self matches ConfigrsError::Io(m) ==> r@ == m@,
            self matches ConfigrsError::Editor(m) ==> r@ == m@,
    {
        match self {
            ConfigrsError::NotFound(n) => n.clone().concat(" is not in the repository"),
            ConfigrsError::LoadConfig(m) => m.clone(),
            ConfigrsError::SaveConfig(m) => m.clone(),
            ConfigrsError::Io(m) => m.clone(),
            ConfigrsError::Editor(m) => m.clone(),
        }
    }
}

} // verus!
