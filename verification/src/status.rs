//! The per-artifact download status and its string form, as persisted in the
//! state document.

use vstd::prelude::*;

verus! {

/// Lifecycle status of one artifact download.
#[derive(Clone, Copy, Debug, PartialEq, Eq, Structural)]
pub enum DownloadStatus {
    NotStarted,
    Downloading,
    Paused,
    Error,
    Downloaded,
    Removing,
    Finalizing,
}

impl Default for DownloadStatus {
    fn default() -> (r: Self)
        ensures
            r == DownloadStatus::NotStarted,
    {
        DownloadStatus::NotStarted
    }
}

/// The canonical string form of a status, as written into the state document.
pub open spec fn spec_status_string(s: DownloadStatus) -> Seq<char> {
    match s {
        DownloadStatus::NotStarted => "none"@,
        DownloadStatus::Downloading => "downloading"@,
        DownloadStatus::Paused => "paused"@,
        DownloadStatus::Error => "error"@,
        DownloadStatus::Downloaded => "downloaded"@,
        DownloadStatus::Removing => "removing"@,
        DownloadStatus::Finalizing => "finalizing"@,
    }
}

/// The status denoted by a string; anything unrecognised denotes `NotStarted`.
pub open spec fn spec_status_from(s: Seq<char>) -> DownloadStatus {
    if s == "downloading"@ {
        DownloadStatus::Downloading
    } else if s == "paused"@ {
        DownloadStatus::Paused
    } else if s == "error"@ {
        DownloadStatus::Error
    } else if s == "downloaded"@ {
        DownloadStatus::Downloaded
    } else if s == "removing"@ {
        DownloadStatus::Removing
    } else if s == "finalizing"@ {
        DownloadStatus::Finalizing
    } else {
        DownloadStatus::NotStarted
    }
}

impl DownloadStatus {
    /// The string written into the state document for this status.
    pub fn to_string(&self) -> (r: String)
        ensures
            r@ == spec_status_string(*self),
    {
        let s: &str = match self {
            DownloadStatus::NotStarted => "none",
            DownloadStatus::Downloading => "downloading",
            DownloadStatus::Paused => "paused",
            DownloadStatus::Error => "error",
            DownloadStatus::Downloaded => "downloaded",
            DownloadStatus::Removing => "removing",
            DownloadStatus::Finalizing => "finalizing",
        };
        s.to_owned()
    }

    /// Reads a status back from its string form; unrecognised strings map to
    /// `NotStarted`, matching how an unknown entry in the state document is
    /// treated.
    pub fn from_str(s: &str) -> (r: Self)
        ensures
            r == spec_status_from(s@),
    {
        if crate::strutil::str_eq(s, "downloading") {
            DownloadStatus::Downloading
        } else if crate::strutil::str_eq(s, "paused") {
            DownloadStatus::Paused
        } else if crate::strutil::str_eq(s, "error") {
            DownloadStatus::Error
        } else if crate::strutil::str_eq(s, "downloaded") {
            DownloadStatus::Downloaded
        } else if crate::strutil::str_eq(s, "removing") {
            DownloadStatus::Removing
        } else if crate::strutil::str_eq(s, "finalizing") {
            DownloadStatus::Finalizing
        } else {
            DownloadStatus::NotStarted
        }
    }
}

/// Every status round-trips through its string form: writing a status into
/// the state document and reading it back yields the same status.
pub proof fn lemma_status_string_round_trip(s: DownloadStatus)
    ensures
        spec_status_from(spec_status_string(s)) == s,
{
    reveal_strlit("none");
    reveal_strlit("downloading");
    reveal_strlit("paused");
    reveal_strlit("error");
    reveal_strlit("downloaded");
    reveal_strlit("removing");
    reveal_strlit("finalizing");
    // "downloaded" and "finalizing" have equal length, so their distinctness
    // needs an element; every other pair of status strings differs in length.
    assert("downloaded"@ != "finalizing"@) by {
        assert("downloaded"@[0] == 'd');
        assert("finalizing"@[0] == 'f');
    }
    assert("none"@ != "downloading"@) by {
        assert("none"@.len() == 4);
        assert("downloading"@.len() == 11);
    }
    assert("none"@ != "paused"@) by {
        assert("none"@.len() == 4);
        assert("paused"@.len() == 6);
    }
    assert("none"@ != "error"@) by {
        assert("none"@.len() == 4);
        assert("error"@.len() == 5);
    }
    assert("none"@ != "downloaded"@) by {
        assert("none"@.len() == 4);
        assert("downloaded"@.len() == 10);
    }
    assert("none"@ != "removing"@) by {
        assert("none"@.len() == 4);
        assert("removing"@.len() == 8);
    }
    assert("none"@ != "finalizing"@) by {
        assert("none"@.len() == 4);
        assert("finalizing"@.len() == 10);
    }
    assert("paused"@ != "downloading"@) by {
        assert("paused"@.len() == 6);
        assert("downloading"@.len() == 11);
    }
    assert("error"@ != "downloading"@) by {
        assert("error"@.len() == 5);
        assert("downloading"@.len() == 11);
    }
    assert("error"@ != "paused"@) by {
        assert("error"@.len() == 5);
        assert("paused"@.len() == 6);
    }
    assert("downloaded"@ != "downloading"@) by {
        assert("downloaded"@.len() == 10);
        assert("downloading"@.len() == 11);
    }
    assert("downloaded"@ != "paused"@) by {
        assert("downloaded"@.len() == 10);
        assert("paused"@.len() == 6);
    }
    assert("downloaded"@ != "error"@) by {
        assert("downloaded"@.len() == 10);
        assert("error"@.len() == 5);
    }
    assert("removing"@ != "downloading"@) by {
        assert("removing"@.len() == 8);
        assert("downloading"@.len() == 11);
    }
    assert("removing"@ != "paused"@) by {
        assert("removing"@.len() == 8);
        assert("paused"@.len() == 6);
    }
    assert("removing"@ != "error"@) by {
        assert("removing"@.len() == 8);
        assert("error"@.len() == 5);
    }
    assert("removing"@ != "downloaded"@) by {
        assert("removing"@.len() == 8);
        assert("downloaded"@.len() == 10);
    }
    assert("finalizing"@ != "downloading"@) by {
        assert("finalizing"@.len() == 10);
        assert("downloading"@.len() == 11);
    }
    assert("finalizing"@ != "paused"@) by {
        assert("finalizing"@.len() == 10);
        assert("paused"@.len() == 6);
    }
    assert("finalizing"@ != "error"@) by {
        assert("finalizing"@.len() == 10);
        assert("error"@.len() == 5);
    }
    assert("finalizing"@ != "removing"@) by {
        assert("finalizing"@.len() == 10);
        assert("removing"@.len() == 8);
    }
}

} // verus!
