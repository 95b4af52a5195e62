//! Model acquisition: resumable, checksum-verified downloads of large model
//! artifacts, backed by a persisted per-artifact state record.
//!
//! The crate holds the decision logic of the subsystem: the download state
//! machine, the staging-file reconciliation rules, the checksum manifest
//! grammar, the finalization gate and the lifecycle commands. All file and
//! network I/O is performed by the surrounding application, which feeds the
//! observed values (file sizes, probe results, fetched bytes) into these
//! functions and carries out the actions they return.

pub mod status;
pub mod engine;
pub mod facade;
pub mod finalize;
pub mod hashing;
pub mod oracle;
pub mod sizefmt;
pub mod state;
pub mod store;
pub mod strutil;
pub mod whisper;

pub use status::DownloadStatus;
