//! Tests of the transfer-engine decision logic.

use captions_models::engine::{
    compute_progress, content_range_total, decide_next_action, on_range_not_satisfiable,
    total_from_response, ChunkStep, NextAction, RangeRetry, TransferSession, MAX_RANGE_RETRIES,
    TOLERANCE_BYTES,
};
use captions_models::DownloadStatus;

const MIB: u64 = 1024 * 1024;

#[test]
fn fresh_start_fetches_from_zero() {
    // No state, no staging file: a plain fetch from byte 0.
    assert_eq!(
        decide_next_action(0, 0, None),
        NextAction::Resume { offset: 0 }
    );
}

#[test]
fn staging_within_tolerance_routes_to_finalizer() {
    // A 10 MiB staging file against a recorded total of 10 MiB + 5 bytes:
    // within the 1 MiB tolerance, so no network request at all.
    let staging = 10 * MIB;
    let total = 10 * MIB + 5;
    assert!(total - staging <= TOLERANCE_BYTES);
    assert_eq!(decide_next_action(total, staging, None), NextAction::Finalize);
}

#[test]
fn staging_matching_server_size_routes_to_finalizer() {
    assert_eq!(
        decide_next_action(0, 12345, Some(12345)),
        NextAction::Finalize
    );
}

#[test]
fn resume_continues_at_staged_bytes() {
    // Server declares more than what is staged: resume exactly at the
    // staging file's size, never earlier.
    assert_eq!(
        decide_next_action(0, 5, Some(10)),
        NextAction::Resume { offset: 5 }
    );
    assert_eq!(
        decide_next_action(100 * MIB, 5 * MIB, Some(100 * MIB)),
        NextAction::Resume { offset: 5 * MIB }
    );
}

#[test]
fn stale_staging_restarts_from_zero() {
    // A 50 MiB staging file when the server's true size is 10 MiB: the
    // staging file is stale, delete it and start over.
    assert_eq!(
        decide_next_action(0, 50 * MIB, Some(10 * MIB)),
        NextAction::RestartFromZero
    );
}

#[test]
fn failed_probe_restarts_from_zero() {
    assert_eq!(decide_next_action(0, 12345, None), NextAction::RestartFromZero);
}

#[test]
fn range_not_satisfiable_retries_are_bounded() {
    assert_eq!(
        on_range_not_satisfiable(0),
        RangeRetry::DeleteStagingAndRestart
    );
    assert_eq!(
        on_range_not_satisfiable(MAX_RANGE_RETRIES - 1),
        RangeRetry::DeleteStagingAndRestart
    );
    assert_eq!(on_range_not_satisfiable(MAX_RANGE_RETRIES), RangeRetry::GiveUp);
}

#[test]
fn progress_rounds_to_nearest_percent() {
    assert_eq!(compute_progress(0, 5), 0);
    assert_eq!(compute_progress(1, 3), 33);
    assert_eq!(compute_progress(1, 2), 50);
    assert_eq!(compute_progress(2, 3), 67);
    assert_eq!(compute_progress(3, 3), 100);
    // An unknown total reads as no progress.
    assert_eq!(compute_progress(5, 0), 0);
    // Within the tolerance window `downloaded` may exceed `total`.
    assert_eq!(compute_progress(11, 10), 110);
}

#[test]
fn content_range_header_yields_declared_total() {
    assert_eq!(content_range_total("bytes 0-99/12345"), 12345);
    assert_eq!(content_range_total("bytes 100-199/200"), 200);
    // Unparsable or absent totals read as 0.
    assert_eq!(content_range_total("bytes 0-99/*"), 0);
    assert_eq!(content_range_total("12345"), 0);
    assert_eq!(content_range_total("bytes 0-1/99999999999999999999999999"), 0);
}

#[test]
fn total_prefers_content_range_over_length() {
    assert_eq!(total_from_response(Some("bytes 5-9/10"), Some(5), 5), 10);
    assert_eq!(total_from_response(None, Some(95), 5), 100);
    assert_eq!(total_from_response(None, None, 7), 7);
    // The sum saturates rather than wrapping.
    assert_eq!(total_from_response(None, Some(u64::MAX), 5), u64::MAX);
}

#[test]
fn chunk_is_counted_while_downloading() {
    let mut session = TransferSession { downloaded: 10, total: 100 };
    let step = session.observe_chunk(DownloadStatus::Downloading, 30, false);
    assert_eq!(step, ChunkStep::Written { persist: false });
    assert_eq!(session.downloaded, 40);
    assert_eq!(session.total, 100);
    assert_eq!(session.progress(), 40);
}

#[test]
fn chunk_persists_after_a_second_or_at_full_progress() {
    let mut session = TransferSession { downloaded: 0, total: 100 };
    let step = session.observe_chunk(DownloadStatus::Downloading, 10, true);
    assert_eq!(step, ChunkStep::Written { persist: true });
    let step = session.observe_chunk(DownloadStatus::Downloading, 90, false);
    assert_eq!(step, ChunkStep::Written { persist: true });
    assert_eq!(session.progress(), 100);
}

#[test]
fn pause_stops_streaming_without_counting() {
    let mut session = TransferSession { downloaded: 10, total: 100 };
    let step = session.observe_chunk(DownloadStatus::Paused, 30, true);
    assert_eq!(step, ChunkStep::Stopped);
    assert_eq!(session.downloaded, 10);
}

#[test]
fn remove_stops_streaming_without_counting() {
    let mut session = TransferSession { downloaded: 10, total: 100 };
    let step = session.observe_chunk(DownloadStatus::Removing, 30, false);
    assert_eq!(step, ChunkStep::Stopped);
    assert_eq!(session.downloaded, 10);
}
