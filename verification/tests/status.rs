//! Tests of the status enum's string form.

use captions_models::DownloadStatus;

#[test]
fn status_strings_match_the_state_document() {
    assert_eq!(DownloadStatus::NotStarted.to_string(), "none");
    assert_eq!(DownloadStatus::Downloading.to_string(), "downloading");
    assert_eq!(DownloadStatus::Paused.to_string(), "paused");
    assert_eq!(DownloadStatus::Error.to_string(), "error");
    assert_eq!(DownloadStatus::Downloaded.to_string(), "downloaded");
    assert_eq!(DownloadStatus::Removing.to_string(), "removing");
    assert_eq!(DownloadStatus::Finalizing.to_string(), "finalizing");
}

#[test]
fn every_status_round_trips_through_its_string() {
    let all = [
        DownloadStatus::NotStarted,
        DownloadStatus::Downloading,
        DownloadStatus::Paused,
        DownloadStatus::Error,
        DownloadStatus::Downloaded,
        DownloadStatus::Removing,
        DownloadStatus::Finalizing,
    ];
    for status in all {
        assert_eq!(DownloadStatus::from_str(&status.to_string()), status);
    }
}

#[test]
fn unknown_status_strings_read_as_not_started() {
    assert_eq!(DownloadStatus::from_str(""), DownloadStatus::NotStarted);
    assert_eq!(DownloadStatus::from_str("Downloading"), DownloadStatus::NotStarted);
    assert_eq!(DownloadStatus::from_str("gibberish"), DownloadStatus::NotStarted);
}

#[test]
fn default_status_is_not_started() {
    assert_eq!(DownloadStatus::default(), DownloadStatus::NotStarted);
}
