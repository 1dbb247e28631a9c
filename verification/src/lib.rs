//! Transactional write coordination for a segment-based full-text index.
//!
//! The host database drives this crate with one operation at a time
//! (insert, delete, create-index, drop-index, commit, abort, vacuum).
//! The index engine buffers mutations in a per-directory writer; this
//! crate makes those mutations follow the host transaction: they become
//! visible only on commit and are discarded on abort, and a dropped
//! index is deleted from disk only when the drop is committed.

pub mod descriptor;
pub mod document;
pub mod engine;
pub mod error;
pub mod model;
pub mod writer;

pub use error::WriterError;
pub use writer::CommitOutcome;
pub use writer::Writer;
pub use writer::WriterDirectory;
pub use writer::WriterRequest;
