//! Typed errors returned by the write coordinator.

use vstd::prelude::*;

verus! {

/// Everything that can go wrong while coordinating writes. Each variant
/// carries the engine's own message so the caller can surface it.
#[derive(Debug)]
pub enum WriterError {
    /// The engine could not open or create a writer at the directory.
    WriterUnavailable(String),
    /// The engine rejected a single buffered insert.
    WriteFailed(String),
    /// The field definitions handed to index creation were invalid.
    SchemaError(String),
    /// The on-disk structure could not be created.
    IoError(String),
    /// Prepare or finalize of an engine commit failed; buffered
    /// mutations remain uncommitted.
    CommitFailed(String),
    /// The engine could not roll the writer back to its last commit.
    RollbackFailed(String),
    /// Physical removal of a dropped index did not complete; files may
    /// be partially removed.
    DeletionFailed(String),
    /// Storage reclamation failed; data integrity is unaffected.
    VacuumFailed(String),
}

impl WriterError {
    /// A short stable name for the error kind, for logs and tests.
    pub fn kind_name(&self) -> (r: &'static str)
        ensures
            r@ == self.kind_name_spec(),
    {
        match self {
            WriterError::WriterUnavailable(_) => "WriterUnavailable",
            WriterError::WriteFailed(_) => "WriteFailed",
            WriterError::SchemaError(_) => "SchemaError",
            WriterError::IoError(_) => "IoError",
            WriterError::CommitFailed(_) => "CommitFailed",
            WriterError::RollbackFailed(_) => "RollbackFailed",
            WriterError::DeletionFailed(_) => "DeletionFailed",
            WriterError::VacuumFailed(_) => "VacuumFailed",
        }
    }

    pub open spec fn kind_name_spec(&self) -> Seq<char> {
        match self {
            WriterError::WriterUnavailable(_) => "WriterUnavailable"@,
            WriterError::WriteFailed(_) => "WriteFailed"@,
            WriterError::SchemaError(_) => "SchemaError"@,
            WriterError::IoError(_) => "IoError"@,
            WriterError::CommitFailed(_) => "CommitFailed"@,
            WriterError::RollbackFailed(_) => "RollbackFailed"@,
            WriterError::DeletionFailed(_) => "DeletionFailed"@,
            WriterError::VacuumFailed(_) => "VacuumFailed"@,
        }
    }
}

} // verus!
