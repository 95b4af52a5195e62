//! The lifecycle commands: starting or resuming a download, pausing,
//! removing, listing remote artifacts and querying state. Each command's
//! decisions live here; the surrounding application persists and broadcasts
//! snapshots, observes the file system and performs the I/O the decisions
//! direct.

use vstd::prelude::*;

use crate::sizefmt::{human_readable_size, spec_human_readable_size};
use crate::state::{ModelDownloadState, StateV};
use crate::status::{spec_status_from, spec_status_string, DownloadStatus};
use crate::store::StateStore;

verus! {

/// A remote artifact available for download, with a human-readable size.
#[derive(Debug)]
pub struct RemoteModel {
    pub name: String,
    pub url: String,
    pub size: String,
}

/// Starts or resumes one download invocation: a paused record is flipped
/// back to `Downloading` (and the caller persists that), and an invocation
/// against an artifact that is currently finalizing is rejected outright.
///
/// Returns whether the store changed and must be persisted.
pub fn download_model_begin(store: &mut StateStore, model_name: &str) -> (r: Result<
    bool,
    String,
>)
    requires
        old(store).wf(),
    ensures
        final(store).wf(),
        ({
            let had = old(store)@.contains_key(model_name@);
            let st = old(store)@[model_name@];
            if had && spec_status_from(st.status) == DownloadStatus::Paused {
                r == Result::<bool, String>::Ok(true) && final(store)@ == old(store)@.insert(
                    model_name@,
                    StateV { status: spec_status_string(DownloadStatus::Downloading), ..st },
                )
            } else if had && spec_status_from(st.status) == DownloadStatus::Finalizing {
                (r matches Result::Err(m) && m@ == "Model is currently being finalized"@)
                    && final(store)@ == old(store)@
            } else {
                r == Result::<bool, String>::Ok(false) && final(store)@ == old(store)@
            }
        }),
{
    let current = match store.get(model_name) {
        Some(st) => Some(st.clone()),
        None => None,
    };
    match current {
        Some(st) => {
            let status = st.status_enum();
            if status == DownloadStatus::Paused {
                let updated = ModelDownloadState {
                    status: DownloadStatus::Downloading.to_string(),
                    progress: st.progress,
                    downloaded: st.downloaded,
                    total: st.total,
                    error: st.error,
                };
                store.upsert(model_name, updated);
                Result::Ok(true)
            } else if status == DownloadStatus::Finalizing {
                Result::Err("Model is currently being finalized".to_owned())
            } else {
                Result::Ok(false)
            }
        },
        None => Result::Ok(false),
    }
}

/// Pauses a download: the record, if any, is marked `Paused`.
///
/// The persisted update is rate-limited, since a pause may be signalled
/// from a rapid UI callback: `millis_since_last_persist` is the time since
/// this artifact's last persisted pause update (`None` if there was none),
/// and the returned flag says whether to persist and broadcast now — at
/// most once a second.
pub fn pause_model_download(
    store: &mut StateStore,
    model_name: &str,
    millis_since_last_persist: Option<u64>,
) -> (persist: bool)
    requires
        old(store).wf(),
    ensures
        final(store).wf(),
        persist == match millis_since_last_persist {
            Some(ms) => ms >= 1000,
            None => true,
        },
        old(store)@.contains_key(model_name@) ==> final(store)@ == old(store)@.insert(
            model_name@,
            StateV {
                status: spec_status_string(DownloadStatus::Paused),
                ..old(store)@[model_name@]
            },
        ),
        !old(store)@.contains_key(model_name@) ==> final(store)@ == old(store)@,
{
    let persist = match millis_since_last_persist {
        Some(ms) => ms >= 1000,
        None => true,
    };
    let current = match store.get(model_name) {
        Some(st) => Some(st.clone()),
        None => None,
    };
    match current {
        Some(st) => {
            let updated = ModelDownloadState {
                status: DownloadStatus::Paused.to_string(),
                progress: st.progress,
                downloaded: st.downloaded,
                total: st.total,
                error: st.error,
            };
            store.upsert(model_name, updated);
        },
        None => {},
    }
    persist
}

/// First phase of a removal: a record in `Downloading` is moved to
/// `Removing`, and the caller persists that before touching any file, so
/// the streaming loop observes it at its next chunk boundary and stops.
pub fn remove_model_begin(store: &mut StateStore, model_name: &str)
    requires
        old(store).wf(),
    ensures
        final(store).wf(),
        ({
            let had = old(store)@.contains_key(model_name@);
            let st = old(store)@[model_name@];
            if had && spec_status_from(st.status) == DownloadStatus::Downloading {
                final(store)@ == old(store)@.insert(
                    model_name@,
                    StateV { status: spec_status_string(DownloadStatus::Removing), ..st },
                )
            } else {
                final(store)@ == old(store)@
            }
        }),
{
    let current = match store.get(model_name) {
        Some(st) => {
            if st.status_enum() == DownloadStatus::Downloading {
                Some(st.clone())
            } else {
                None
            }
        },
        None => None,
    };
    match current {
        Some(st) => {
            let updated = ModelDownloadState {
                status: DownloadStatus::Removing.to_string(),
                progress: st.progress,
                downloaded: st.downloaded,
                total: st.total,
                error: st.error,
            };
            store.upsert(model_name, updated);
        },
        None => {},
    }
}

/// Second phase of a removal, after the caller deleted the artifact and
/// staging files: when something was actually removed the record is dropped
/// entirely, so a fresh start begins with a clean slate; when nothing was
/// there to remove, the record (if any) turns to `Error` and the command
/// fails.
pub fn remove_model_finish(store: &mut StateStore, model_name: &str, removed: bool) -> (r: Result<
    (),
    String,
>)
    requires
        old(store).wf(),
    ensures
        final(store).wf(),
        removed ==> r is Ok && final(store)@ == old(store)@.remove(model_name@),
        !removed ==> (r matches Result::Err(m) && m@ == "Failed to remove model: not found"@),
        (!removed && old(store)@.contains_key(model_name@)) ==> final(store)@ == old(
            store,
        )@.insert(
            model_name@,
            StateV {
                status: spec_status_string(DownloadStatus::Error),
                error: Some("Failed to remove model: not found"@),
                ..old(store)@[model_name@]
            },
        ),
        (!removed && !old(store)@.contains_key(model_name@)) ==> final(store)@ == old(store)@,
{
    if removed {
        store.remove(model_name);
        Result::Ok(())
    } else {
        let msg = "Failed to remove model: not found";
        let current = match store.get(model_name) {
            Some(st) => Some(st.clone()),
            None => None,
        };
        match current {
            Some(st) => {
                let updated = ModelDownloadState {
                    status: DownloadStatus::Error.to_string(),
                    progress: st.progress,
                    downloaded: st.downloaded,
                    total: st.total,
                    error: Some(msg.to_owned()),
                };
                store.upsert(model_name, updated);
            },
            None => {},
        }
        Result::Err(msg.to_owned())
    }
}

/// Removing an artifact whose transfer is in flight: the first phase turns
/// its `Downloading` record to `Removing` — the status the streaming loop
/// watches for at every chunk boundary — and the second phase, once the
/// files are deleted, drops the record entirely rather than leaving any
/// residual status behind.
pub proof fn lemma_remove_during_download(m: Map<Seq<char>, StateV>, name: Seq<char>)
    requires
        m.contains_key(name),
        spec_status_from(m[name].status) == DownloadStatus::Downloading,
    ensures
        ({
            let marked = m.insert(
                name,
                StateV { status: spec_status_string(DownloadStatus::Removing), ..m[name] },
            );
            spec_status_from(marked[name].status) == DownloadStatus::Removing && !marked.remove(
                name,
            ).contains_key(name)
        }),
{
    crate::status::lemma_status_string_round_trip(DownloadStatus::Removing);
}

/// Whether a download can resume from what is on disk, and from how many
/// bytes. The staging file is preferred over the finished artifact;
/// `None` means the file is absent.
pub fn is_model_resumable(part_size: Option<u64>, dest_size: Option<u64>) -> (r: (bool, u64))
    ensures
        r == match part_size {
            Some(s) => (s > 0, s),
            None => match dest_size {
                Some(s) => (s > 0, s),
                None => (false, 0u64),
            },
        },
{
    match part_size {
        Some(s) => (s > 0, s),
        None => match dest_size {
            Some(s) => (s > 0, s),
            None => (false, 0),
        },
    }
}

/// A copy of the whole state mapping, as broadcast to observers.
pub fn get_model_states(store: &StateStore) -> (r: Vec<(String, ModelDownloadState)>)
    requires
        store.wf(),
    ensures
        crate::store::spec_pairs_unique(r@),
        crate::store::spec_pairs_map(r@) == store@,
{
    store.snapshot()
}

/// Whether listing a remote artifact needs a size probe: only when no
/// record holds a positive total. `known_total` is the record's total, or
/// `None` without a record.
pub fn needs_size_probe(known_total: Option<u64>) -> (r: bool)
    ensures
        r == match known_total {
            Some(t) => t == 0,
            None => true,
        },
{
    match known_total {
        Some(t) => t == 0,
        None => true,
    }
}

/// The size column for one remote artifact and the total to record, if one
/// was newly learned: a recorded positive total is displayed as it is; a
/// successful probe is displayed and recorded; otherwise the size is
/// unknown.
pub fn remote_size_decision(known_total: Option<u64>, probed: Option<u64>) -> (r: (String, Option<
    u64,
>))
    ensures
        ({
            let display = r.0;
            let learned = r.1;
            match known_total {
                Some(t) if t > 0 => display@ == spec_human_readable_size(t) && learned is None,
                _ => match probed {
                    Some(b) => display@ == spec_human_readable_size(b) && learned == Some(b),
                    None => display@ == "?"@ && learned is None,
                },
            }
        }),
{
    match known_total {
        Some(t) => {
            if t > 0 {
                (human_readable_size(t), None)
            } else {
                match probed {
                    Some(b) => (human_readable_size(b), Some(b)),
                    None => ("?".to_owned(), None),
                }
            }
        },
        None => match probed {
            Some(b) => (human_readable_size(b), Some(b)),
            None => ("?".to_owned(), None),
        },
    }
}

/// Records a size learned from a probe: an existing record keeps its other
/// fields; otherwise a fresh record is synthesized with only the total set.
pub fn record_remote_total(store: &mut StateStore, model_file: &str, bytes: u64)
    requires
        old(store).wf(),
    ensures
        final(store).wf(),
        old(store)@.contains_key(model_file@) ==> final(store)@ == old(store)@.insert(
            model_file@,
            StateV { total: bytes, ..old(store)@[model_file@] },
        ),
        !old(store)@.contains_key(model_file@) ==> final(store)@ == old(store)@.insert(
            model_file@,
            StateV {
                status: "none"@,
                progress: 0,
                downloaded: 0,
                total: bytes,
                error: None,
            },
        ),
{
    let current = match store.get(model_file) {
        Some(st) => Some(st.clone()),
        None => None,
    };
    match current {
        Some(st) => {
            let updated = ModelDownloadState {
                status: st.status,
                progress: st.progress,
                downloaded: st.downloaded,
                total: bytes,
                error: st.error,
            };
            store.upsert(model_file, updated);
        },
        None => {
            let fresh = ModelDownloadState {
                status: "none".to_owned(),
                progress: 0,
                downloaded: 0,
                total: bytes,
                error: None,
            };
            store.upsert(model_file, fresh);
        },
    }
}

/// The catalog of known remote artifacts: model names and their fetch
/// locations.
pub fn model_catalog() -> (r: Vec<(String, String)>)
    ensures
        r@.len() == 5,
        r@[0].0@ == "tiny"@,
        r@[1].0@ == "base"@,
        r@[2].0@ == "small"@,
        r@[3].0@ == "medium"@,
        r@[4].0@ == "large-v3-turbo"@,
        r@[0].1@ == "https://huggingface.co/ggerganov/whisper.cpp/resolve/main/ggml-tiny.bin"@,
        r@[1].1@ == "https://huggingface.co/ggerganov/whisper.cpp/resolve/main/ggml-base.bin"@,
        r@[2].1@ == "https://huggingface.co/ggerganov/whisper.cpp/resolve/main/ggml-small.bin"@,
        r@[3].1@ == "https://huggingface.co/ggerganov/whisper.cpp/resolve/main/ggml-medium.bin"@,
        r@[4].1@
            == "https://huggingface.co/ggerganov/whisper.cpp/resolve/main/ggml-large-v3-turbo.bin"@,
{
    let mut v: Vec<(String, String)> = Vec::new();
    v.push((
        "tiny".to_owned(),
        "https://huggingface.co/ggerganov/whisper.cpp/resolve/main/ggml-tiny.bin".to_owned(),
    ));
    v.push((
        "base".to_owned(),
        "https://huggingface.co/ggerganov/whisper.cpp/resolve/main/ggml-base.bin".to_owned(),
    ));
    v.push((
        "small".to_owned(),
        "https://huggingface.co/ggerganov/whisper.cpp/resolve/main/ggml-small.bin".to_owned(),
    ));
    v.push((
        "medium".to_owned(),
        "https://huggingface.co/ggerganov/whisper.cpp/resolve/main/ggml-medium.bin".to_owned(),
    ));
    v.push((
        "large-v3-turbo".to_owned(),
        "https://huggingface.co/ggerganov/whisper.cpp/resolve/main/ggml-large-v3-turbo.bin"
            .to_owned(),
    ));
    v
}

/// The staging filename for an artifact: its name with `.part` appended.
pub fn staging_file_name(model_name: &str) -> (r: String)
    ensures
        r@ == model_name@ + ".part"@,
{
    let mut r = model_name.to_owned();
    r.append(".part");
    r
}

/// Whether a file in the models directory is a finished artifact: staging
/// files and the state document itself are not.
pub open spec fn spec_is_artifact_file_name(name: Seq<char>) -> bool {
    !crate::strutil::spec_ends_with(name, ".part"@) && name != "model_states.json"@
}

/// Whether a file found in the models directory should be listed as a
/// local artifact.
pub fn is_artifact_file_name(name: &str) -> (r: bool)
    ensures
        r == spec_is_artifact_file_name(name@),
{
    !crate::strutil::ends_with(name, ".part") && !crate::strutil::str_eq(
        name,
        "model_states.json",
    )
}

/// No staging file is ever listed as a local artifact: a name carrying the
/// staging suffix always fails the listing filter.
pub proof fn lemma_staging_files_not_listed(model_name: Seq<char>)
    ensures
        !spec_is_artifact_file_name(model_name + ".part"@),
{
    let full = model_name + ".part"@;
    assert(full.subrange(full.len() - ".part"@.len(), full.len() as int) =~= ".part"@);
}

/// The artifact filename in the catalog for a model name: `ggml-<name>.bin`.
pub fn catalog_file_name(model_name: &str) -> (r: String)
    ensures
        r@ == "ggml-"@ + model_name@ + ".bin"@,
{
    let mut r = "ggml-".to_owned();
    r.append(model_name);
    r.append(".bin");
    r
}

} // verus!
