//! The per-artifact download record kept in the persisted state document.

use vstd::prelude::*;

use crate::status::{spec_status_string, DownloadStatus};

verus! {

/// Mathematical model of one download record: the status string and the byte
/// counters, with text fields abstracted to character sequences.
pub struct StateV {
    pub status: Seq<char>,
    pub progress: u64,
    pub downloaded: u64,
    pub total: u64,
    pub error: Option<Seq<char>>,
}

/// State of one artifact's download, as persisted in the state document.
///
/// The status is kept as its string form so that the record round-trips
/// through the serialized document unchanged.
#[derive(Debug)]
pub struct ModelDownloadState {
    pub status: String,
    /// Derived percentage, recomputed from `downloaded` and `total`.
    pub progress: u64,
    /// Bytes written to the staging file so far.
    pub downloaded: u64,
    /// Expected final size in bytes; 0 means not yet learned from a server.
    pub total: u64,
    /// Human-readable failure detail, set only on error.
    pub error: Option<String>,
}

impl View for ModelDownloadState {
    type V = StateV;

    open spec fn view(&self) -> StateV {
        StateV {
            status: self.status@,
            progress: self.progress,
            downloaded: self.downloaded,
            total: self.total,
            error: match self.error {
                Some(e) => Some(e@),
                None => None,
            },
        }
    }
}

impl Clone for ModelDownloadState {
    fn clone(&self) -> (r: Self)
        ensures
            r@ == self@,
    {
        ModelDownloadState {
            status: self.status.clone(),
            progress: self.progress,
            downloaded: self.downloaded,
            total: self.total,
            error: match &self.error {
                Some(e) => Some(e.clone()),
                None => None,
            },
        }
    }
}

impl Default for ModelDownloadState {
    /// A fresh record: no status, zero counters, no error.
    fn default() -> (r: Self)
        ensures
            r@ == spec_fresh_state(),
    {
        ModelDownloadState {
            status: String::new(),
            progress: 0,
            downloaded: 0,
            total: 0,
            error: None,
        }
    }
}

/// The record `Default` produces: empty status string and zeroed counters.
pub open spec fn spec_fresh_state() -> StateV {
    StateV { status: Seq::<char>::empty(), progress: 0, downloaded: 0, total: 0, error: None }
}

/// The record written once an artifact has been finalized: the size fields
/// are no longer meaningful, so they are zeroed.
pub open spec fn spec_downloaded_state() -> StateV {
    StateV {
        status: spec_status_string(DownloadStatus::Downloaded),
        progress: 100,
        downloaded: 0,
        total: 0,
        error: None,
    }
}

impl ModelDownloadState {
    /// The record for a failed operation: status `Error` with a detail
    /// message, keeping the given byte counters.
    pub fn error_state(message: String, progress: u64, downloaded: u64, total: u64) -> (r: Self)
        ensures
            r@ == (StateV {
                status: spec_status_string(DownloadStatus::Error),
                progress,
                downloaded,
                total,
                error: Some(message@),
            }),
    {
        ModelDownloadState {
            status: DownloadStatus::Error.to_string(),
            progress,
            downloaded,
            total,
            error: Some(message),
        }
    }

    /// The record written once an artifact has been finalized.
    pub fn downloaded_state() -> (r: Self)
        ensures
            r@ == spec_downloaded_state(),
    {
        ModelDownloadState {
            status: DownloadStatus::Downloaded.to_string(),
            progress: 100,
            downloaded: 0,
            total: 0,
            error: None,
        }
    }

    /// The record for an in-flight transfer with the given counters.
    pub fn downloading_state(progress: u64, downloaded: u64, total: u64) -> (r: Self)
        ensures
            r@ == (StateV {
                status: spec_status_string(DownloadStatus::Downloading),
                progress,
                downloaded,
                total,
                error: None,
            }),
    {
        ModelDownloadState {
            status: DownloadStatus::Downloading.to_string(),
            progress,
            downloaded,
            total,
            error: None,
        }
    }

    /// The status field decoded back to the status enum.
    pub fn status_enum(&self) -> (r: DownloadStatus)
        ensures
            r == crate::status::spec_status_from(self@.status),
    {
        DownloadStatus::from_str(self.status.as_str())
    }
}

} // verus!
