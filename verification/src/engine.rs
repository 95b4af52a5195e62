//! The resumable-transfer decision logic: reconciling the staging file with
//! the server's declared size, bounded retry after a stale range, progress
//! bookkeeping and cooperative cancellation at chunk boundaries.
//!
//! These functions decide; the surrounding application observes file sizes,
//! issues the HTTP requests and streams bytes, feeding each observation back
//! in.

use vstd::prelude::*;

use crate::status::DownloadStatus;
use crate::strutil::{parse_u64, spec_parse_u64};

verus! {

/// Allowed byte-count shortfall treated as "effectively complete": crash
/// recovery can leave the staging file a few bytes short of the declared
/// length, and the finalizer's checksum is the real gate.
pub const TOLERANCE_BYTES: u64 = 1048576;

/// Cap on restart-from-zero retries after a "range not satisfiable" reply.
pub const MAX_RANGE_RETRIES: u64 = 3;

/// What one download invocation should do next, given the staging file and
/// what is known of the server's declared size.
#[derive(Clone, Copy, Debug, PartialEq, Eq, Structural)]
pub enum NextAction {
    /// Hand the staging file to the finalizer; no further fetch.
    Finalize,
    /// Fetch starting at byte `offset`, appending to the staging file
    /// (`offset` 0 means a plain fetch into a fresh staging file).
    Resume { offset: u64 },
    /// Discard the staging file and fetch again from byte 0.
    RestartFromZero,
}

/// The reconciliation rule for one invocation:
/// - a staging file within `TOLERANCE_BYTES` of a previously recorded total
///   is presumptively complete and goes to the finalizer;
/// - with nothing staged, fetch from byte 0;
/// - a failed size probe restarts from zero rather than resuming against
///   unknown state;
/// - a staging file larger than the server's declared size is stale and
///   restarts from zero;
/// - one exactly matching the declared size goes to the finalizer;
/// - otherwise the fetch resumes at the staging file's size.
pub open spec fn spec_decide_next_action(
    prior_total: u64,
    staging_size: u64,
    server_size: Option<u64>,
) -> NextAction {
    if prior_total > 0 && staging_size + TOLERANCE_BYTES >= prior_total {
        NextAction::Finalize
    } else if staging_size == 0 {
        NextAction::Resume { offset: 0 }
    } else {
        match server_size {
            Option::None => NextAction::RestartFromZero,
            Option::Some(sz) => if staging_size > sz {
                NextAction::RestartFromZero
            } else if staging_size == sz {
                NextAction::Finalize
            } else {
                NextAction::Resume { offset: staging_size }
            },
        }
    }
}

/// Decides what one download invocation does next.
///
/// `prior_total` is the total recorded by an earlier attempt (0 if unknown),
/// `staging_size` the staging file's current size (0 if absent), and
/// `server_size` the server's declared size from a metadata probe (`None` if
/// the probe failed or was not needed).
pub fn decide_next_action(prior_total: u64, staging_size: u64, server_size: Option<u64>) -> (r:
    NextAction)
    ensures
        r == spec_decide_next_action(prior_total, staging_size, server_size),
{
    if prior_total > 0 && (staging_size >= prior_total || prior_total - staging_size
        <= TOLERANCE_BYTES) {
        // `staging_size + TOLERANCE_BYTES >= prior_total`, phrased without
        // overflow: the subtraction only runs when it cannot wrap.
        NextAction::Finalize
    } else if staging_size == 0 {
        NextAction::Resume { offset: 0 }
    } else {
        match server_size {
            Option::None => NextAction::RestartFromZero,
            Option::Some(sz) => if staging_size > sz {
                NextAction::RestartFromZero
            } else if staging_size == sz {
                NextAction::Finalize
            } else {
                NextAction::Resume { offset: staging_size }
            },
        }
    }
}

/// Resuming never re-downloads bytes already on disk: with a non-empty
/// staging file and a server-declared size at least as large, the next
/// action is either a finalize or a resume at exactly the staging file's
/// size — never a fetch from an earlier offset and never a restart.
pub proof fn lemma_resume_keeps_staged_bytes(prior_total: u64, staging_size: u64, sz: u64)
    requires
        staging_size > 0,
        sz >= staging_size,
    ensures
        spec_decide_next_action(prior_total, staging_size, Some(sz)) == NextAction::Finalize
            || spec_decide_next_action(prior_total, staging_size, Some(sz))
            == (NextAction::Resume { offset: staging_size }),
{
}

/// A staging file whose size matches the server-declared size always routes
/// to the finalizer, never to a further ranged fetch.
pub proof fn lemma_size_match_routes_to_finalizer(prior_total: u64, staging_size: u64)
    requires
        staging_size > 0,
    ensures
        spec_decide_next_action(prior_total, staging_size, Some(staging_size))
            == NextAction::Finalize,
{
}

/// A staging file within the tolerance window of a previously recorded
/// total routes to the finalizer whatever a probe would say: the decision
/// needs no metadata request at all.
pub proof fn lemma_tolerance_needs_no_probe(
    prior_total: u64,
    staging_size: u64,
    server_size: Option<u64>,
)
    requires
        prior_total > 0,
        staging_size + TOLERANCE_BYTES >= prior_total,
    ensures
        spec_decide_next_action(prior_total, staging_size, server_size) == NextAction::Finalize,
{
}

/// Reaction to a "range not satisfiable" reply for a ranged fetch.
#[derive(Clone, Copy, Debug, PartialEq, Eq, Structural)]
pub enum RangeRetry {
    /// Delete the staging file and run the whole procedure again from byte 0.
    DeleteStagingAndRestart,
    /// The retry budget is exhausted; surface an error.
    GiveUp,
}

/// A stale range is retried from zero at most `MAX_RANGE_RETRIES` times;
/// `attempts` counts the restarts already made in this invocation.
pub fn on_range_not_satisfiable(attempts: u64) -> (r: RangeRetry)
    ensures
        r == if attempts < MAX_RANGE_RETRIES {
            RangeRetry::DeleteStagingAndRestart
        } else {
            RangeRetry::GiveUp
        },
{
    if attempts < MAX_RANGE_RETRIES {
        RangeRetry::DeleteStagingAndRestart
    } else {
        RangeRetry::GiveUp
    }
}

/// Percentage of `total` covered by `downloaded`, rounded to the nearest
/// whole percent (ties up), clamped to `u64`; 0 while the total is unknown.
pub open spec fn spec_progress(downloaded: u64, total: u64) -> u64 {
    if total > 0 {
        let p = (200 * (downloaded as int) + (total as int)) / (2 * (total as int));
        if p > u64::MAX {
            u64::MAX
        } else {
            p as u64
        }
    } else {
        0
    }
}

/// While the byte counter has not passed the expected total — that is,
/// outside the transient tolerance window — the derived progress is a
/// genuine percentage, and a complete transfer reads as 100. (Rounding can
/// reach 100 a few bytes early; the finalizer's checksum, not the
/// percentage, is what decides completion.)
pub proof fn lemma_progress_is_a_percentage(downloaded: u64, total: u64)
    requires
        downloaded <= total,
    ensures
        spec_progress(downloaded, total) <= 100,
        total > 0 && downloaded == total ==> spec_progress(downloaded, total) == 100,
{
    if total > 0 {
        let d = downloaded as int;
        let t = total as int;
        assert((200 * d + t) / (2 * t) <= 100 && (d == t ==> (200 * d + t) / (2 * t) == 100))
            by (nonlinear_arith)
            requires
                0 <= d <= t,
                t > 0,
        ;
    }
}

/// Recomputes the derived progress percentage.
pub fn compute_progress(downloaded: u64, total: u64) -> (r: u64)
    ensures
        r == spec_progress(downloaded, total),
{
    if total > 0 {
        let num: u128 = 200 * (downloaded as u128) + (total as u128);
        let den: u128 = 2 * (total as u128);
        let p: u128 = num / den;
        if p > u64::MAX as u128 {
            u64::MAX
        } else {
            p as u64
        }
    } else {
        0
    }
}

/// Byte bookkeeping for one in-flight transfer attempt.
pub struct TransferSession {
    /// Bytes in the staging file, including any resumed prefix.
    pub downloaded: u64,
    /// Expected final size learned from the fetch response.
    pub total: u64,
}

/// What the streaming loop does with one arrived chunk.
#[derive(Clone, Copy, Debug, PartialEq, Eq, Structural)]
pub enum ChunkStep {
    /// A pause or remove was requested: stop streaming at once, write
    /// nothing further, and do not advance the status.
    Stopped,
    /// The chunk was accounted; `persist` says whether the updated state
    /// should be persisted and broadcast now (throttled to once per second,
    /// plus unconditionally once progress reaches 100%).
    Written { persist: bool },
}

impl TransferSession {
    /// Accounts for one chunk at a chunk boundary of the streaming loop.
    ///
    /// `current` is the artifact's status as re-read from the shared state
    /// before writing; a concurrent pause or remove stops the stream
    /// cooperatively. `second_elapsed` says whether at least a second has
    /// passed since the last persisted update.
    pub fn observe_chunk(
        &mut self,
        current: DownloadStatus,
        chunk_len: u64,
        second_elapsed: bool,
    ) -> (r: ChunkStep)
        requires
            old(self).downloaded + chunk_len <= u64::MAX,
        ensures
            (current == DownloadStatus::Paused || current == DownloadStatus::Removing) ==> (r
                == ChunkStep::Stopped && *final(self) == *old(self)),
            !(current == DownloadStatus::Paused || current == DownloadStatus::Removing) ==> {
                &&& final(self).downloaded == old(self).downloaded + chunk_len
                &&& final(self).total == old(self).total
                &&& r == (ChunkStep::Written {
                    persist: second_elapsed || spec_progress(
                        (old(self).downloaded + chunk_len) as u64,
                        old(self).total,
                    ) >= 100,
                })
            },
    {
        match current {
            DownloadStatus::Paused | DownloadStatus::Removing => ChunkStep::Stopped,
            _ => {
                self.downloaded = self.downloaded + chunk_len;
                let progress = compute_progress(self.downloaded, self.total);
                ChunkStep::Written { persist: second_elapsed || progress >= 100 }
            },
        }
    }

    /// The derived progress percentage for the current counters.
    pub fn progress(&self) -> (r: u64)
        ensures
            r == spec_progress(self.downloaded, self.total),
    {
        compute_progress(self.downloaded, self.total)
    }
}

/// The expected final size, as learned from a fetch response: the total in a
/// `Content-Range` header when one is present (its value after the first
/// `/`, 0 if unparsable), otherwise the `Content-Length` plus the bytes
/// already staged. Saturates rather than wraps on overflow.
pub open spec fn spec_total_from_response(
    content_range_total: Option<u64>,
    content_length: Option<u64>,
    resumed_from: u64,
) -> u64 {
    match content_range_total {
        Option::Some(t) => t,
        Option::None => {
            let len = match content_length {
                Option::Some(l) => l as int,
                Option::None => 0,
            };
            if len + resumed_from > u64::MAX {
                u64::MAX
            } else {
                (len + resumed_from) as u64
            }
        },
    }
}

/// The total declared inside a `Content-Range` header value such as
/// `bytes 0-99/12345`: the decimal number between the first `/` and the
/// following `/` or the end; 0 when absent or unparsable.
pub open spec fn spec_content_range_total(h: Seq<char>) -> u64 {
    let piece = crate::strutil::spec_second_piece(h, '/');
    match spec_parse_u64(piece) {
        Option::Some(v) => v,
        Option::None => 0,
    }
}

/// Extracts the declared total from a `Content-Range` header value.
pub fn content_range_total(h: &str) -> (r: u64)
    ensures
        r == spec_content_range_total(h@),
{
    let piece = crate::strutil::second_piece(h, '/');
    match parse_u64(piece.as_str()) {
        Option::Some(v) => v,
        Option::None => 0,
    }
}

/// Combines the response headers into the expected final size.
///
/// `content_range` is the raw `Content-Range` header value if the response
/// carried one, `content_length` the response's `Content-Length`, and
/// `resumed_from` the staging-file bytes the ranged fetch skipped.
pub fn total_from_response(
    content_range: Option<&str>,
    content_length: Option<u64>,
    resumed_from: u64,
) -> (r: u64)
    ensures
        r == match content_range {
            Option::Some(hd) => spec_total_from_response(
                Some(spec_content_range_total(hd@)),
                content_length,
                resumed_from,
            ),
            Option::None => spec_total_from_response(None, content_length, resumed_from),
        },
{
    match content_range {
        Option::Some(hd) => content_range_total(hd),
        Option::None => {
            let len = match content_length {
                Option::Some(l) => l,
                Option::None => 0,
            };
            if len > u64::MAX - resumed_from {
                u64::MAX
            } else {
                len + resumed_from
            }
        },
    }
}

} // verus!
