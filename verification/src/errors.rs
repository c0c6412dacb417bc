//! The error taxonomy shared by the store, the snapshot engines, the process
//! controller and the orchestrator.

use vstd::prelude::*;
use vstd::string::StringExecFns;

verus! {

/// Everything that can go wrong in the core workflows.
///
/// `NoProcessFound` and `PartialRestore` with at least one written key are
/// soft: callers treat them as success-equivalent outcomes.
#[derive(Clone, Debug)]
pub enum AgentError {
    /// The configuration store file does not exist.
    StoreNotFound,
    /// The configuration store exists but could not be opened or queried.
    StoreAccessDenied(String),
    /// The snapshot document could not be serialized.
    SerializationError(String),
    /// The snapshot document is not valid structured data.
    CorruptSnapshot,
    /// No snapshot exists for the requested account.
    SnapshotNotFound,
    /// No running process matched any pattern (soft outcome).
    NoProcessFound,
    /// No launch candidate succeeded; the payload lists the attempts.
    LaunchFailed(String),
    /// The store holds no readable identity to snapshot.
    NoActiveIdentity,
    /// Restore wrote `written` keys and skipped `skipped`; an error only
    /// when `written` is zero.
    PartialRestore { written: usize, skipped: usize },
}

/// The label rendered for each error variant.
pub open spec fn spec_error_label(e: AgentError) -> Seq<char> {
    match e {
        AgentError::StoreNotFound => "store not found"@,
        AgentError::StoreAccessDenied(d) => "store access denied: "@ + d@,
        AgentError::SerializationError(d) => "serialization error: "@ + d@,
        AgentError::CorruptSnapshot => "corrupt snapshot"@,
        AgentError::SnapshotNotFound => "snapshot not found"@,
        AgentError::NoProcessFound => "no matching process found"@,
        AgentError::LaunchFailed(d) => "launch failed: "@ + d@,
        AgentError::NoActiveIdentity => "no active identity in the store"@,
        AgentError::PartialRestore { written, skipped } => if written == 0 {
            "restore wrote no key"@
        } else {
            "partial restore"@
        },
    }
}

impl AgentError {
    /// Human-readable label for the error.
    pub fn message(&self) -> (r: String)
        ensures
            r@ == spec_error_label(*self),
    {
        match self {
            AgentError::StoreNotFound => String::from_str("store not found"),
            AgentError::StoreAccessDenied(d) => String::from_str("store access denied: ").concat(
                d.as_str(),
            ),
            AgentError::SerializationError(d) => String::from_str("serialization error: ").concat(
                d.as_str(),
            ),
            AgentError::CorruptSnapshot => String::from_str("corrupt snapshot"),
            AgentError::SnapshotNotFound => String::from_str("snapshot not found"),
            AgentError::NoProcessFound => String::from_str("no matching process found"),
            AgentError::LaunchFailed(d) => String::from_str("launch failed: ").concat(d.as_str()),
            AgentError::NoActiveIdentity => String::from_str("no active identity in the store"),
            AgentError::PartialRestore { written, skipped } => if *written == 0 {
                String::from_str("restore wrote no key")
            } else {
                String::from_str("partial restore")
            },
        }
    }

    /// Soft errors do not abort a workflow.
    pub open spec fn spec_is_soft(&self) -> bool {
        match *self {
            AgentError::NoProcessFound => true,
            AgentError::PartialRestore { written, skipped } => written > 0,
            _ => false,
        }
    }

    /// Whether callers may treat this error as a success-equivalent outcome.
    pub fn is_soft(&self) -> (r: bool)
        ensures
            r == self.spec_is_soft(),
    {
        match self {
            AgentError::NoProcessFound => true,
            AgentError::PartialRestore { written, skipped } => *written > 0,
            _ => false,
        }
    }
}

} // verus!
