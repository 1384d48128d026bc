//! What the application tells its hooks.

use vstd::prelude::*;

verus! {

/// The application stops.
#[derive(Clone, Copy, Debug, PartialEq, Eq, Structural)]
pub struct TerminateEvent {
    /// It stops in order to start again.
    pub is_restart: bool,
}

/// A backup is taken.
#[derive(Debug)]
pub struct BackupEvent {
    /// The name of the backup.
    pub name: String,
    /// What the backup leaves out.
    pub exclude: Vec<String>,
}

impl TerminateEvent {
    /// The event of a stop.
    pub fn new(is_restart: bool) -> (event: TerminateEvent)
        ensures
            event.is_restart == is_restart,
    {
        TerminateEvent { is_restart }
    }
}

impl BackupEvent {
    /// The event of a backup.
    pub fn new(name: String, exclude: Vec<String>) -> (event: BackupEvent)
        ensures
            event.name == name,
            event.exclude == exclude,
    {
        BackupEvent { name, exclude }
    }
}

} // verus!
