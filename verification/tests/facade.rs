//! Tests of the lifecycle commands.

use captions_models::facade::{
    catalog_file_name, download_model_begin, get_model_states, is_artifact_file_name,
    is_model_resumable, model_catalog, needs_size_probe, pause_model_download,
    record_remote_total, remote_size_decision, remove_model_begin, remove_model_finish,
    staging_file_name,
};
use captions_models::sizefmt::{human_readable_size, u64_to_string};
use captions_models::state::ModelDownloadState;
use captions_models::store::StateStore;
use captions_models::whisper::build_whisper_args;

fn record(status: &str, progress: u64, downloaded: u64, total: u64) -> ModelDownloadState {
    ModelDownloadState {
        status: status.to_string(),
        progress,
        downloaded,
        total,
        error: None,
    }
}

#[test]
fn starting_a_paused_download_resumes_it() {
    let mut store = StateStore::new();
    store.upsert("m.bin", record("paused", 40, 4, 10));
    let r = download_model_begin(&mut store, "m.bin");
    assert_eq!(r, Ok(true));
    assert_eq!(store.get("m.bin").unwrap().status, "downloading");
    assert_eq!(store.get("m.bin").unwrap().progress, 40);
}

#[test]
fn starting_a_finalizing_download_is_rejected() {
    let mut store = StateStore::new();
    store.upsert("m.bin", record("finalizing", 99, 9, 10));
    let r = download_model_begin(&mut store, "m.bin");
    assert_eq!(r, Err("Model is currently being finalized".to_string()));
    assert_eq!(store.get("m.bin").unwrap().status, "finalizing");
}

#[test]
fn starting_without_prior_state_changes_nothing() {
    let mut store = StateStore::new();
    let r = download_model_begin(&mut store, "m.bin");
    assert_eq!(r, Ok(false));
    assert!(store.get("m.bin").is_none());
}

#[test]
fn pause_marks_the_record_paused() {
    let mut store = StateStore::new();
    store.upsert("m.bin", record("downloading", 40, 4, 10));
    let persist = pause_model_download(&mut store, "m.bin", None);
    assert!(persist);
    assert_eq!(store.get("m.bin").unwrap().status, "paused");
}

#[test]
fn rapid_repeated_pauses_are_rate_limited() {
    let mut store = StateStore::new();
    store.upsert("m.bin", record("downloading", 40, 4, 10));
    assert!(pause_model_download(&mut store, "m.bin", Some(1500)));
    assert!(!pause_model_download(&mut store, "m.bin", Some(120)));
    // Even a swallowed persist still pauses the in-memory record.
    assert_eq!(store.get("m.bin").unwrap().status, "paused");
}

#[test]
fn remove_while_downloading_goes_through_removing() {
    let mut store = StateStore::new();
    store.upsert("m.bin", record("downloading", 40, 4, 10));
    remove_model_begin(&mut store, "m.bin");
    // The streaming loop observes this status at its next chunk boundary.
    assert_eq!(store.get("m.bin").unwrap().status, "removing");
    let r = remove_model_finish(&mut store, "m.bin", true);
    assert_eq!(r, Ok(()));
    assert!(store.get("m.bin").is_none());
}

#[test]
fn remove_of_an_idle_record_keeps_its_status_until_deletion() {
    let mut store = StateStore::new();
    store.upsert("m.bin", record("downloaded", 100, 0, 0));
    remove_model_begin(&mut store, "m.bin");
    assert_eq!(store.get("m.bin").unwrap().status, "downloaded");
    let r = remove_model_finish(&mut store, "m.bin", true);
    assert_eq!(r, Ok(()));
    assert!(store.get("m.bin").is_none());
}

#[test]
fn remove_of_a_missing_artifact_fails() {
    let mut store = StateStore::new();
    store.upsert("m.bin", record("error", 0, 0, 0));
    let r = remove_model_finish(&mut store, "m.bin", false);
    assert_eq!(r, Err("Failed to remove model: not found".to_string()));
    let state = store.get("m.bin").unwrap();
    assert_eq!(state.status, "error");
    assert_eq!(
        state.error,
        Some("Failed to remove model: not found".to_string())
    );
}

#[test]
fn resumability_prefers_the_staging_file() {
    assert_eq!(is_model_resumable(Some(42), Some(1000)), (true, 42));
    assert_eq!(is_model_resumable(Some(0), Some(1000)), (false, 0));
    assert_eq!(is_model_resumable(None, Some(1000)), (true, 1000));
    assert_eq!(is_model_resumable(None, None), (false, 0));
}

#[test]
fn states_snapshot_reflects_the_store() {
    let mut store = StateStore::new();
    store.upsert("a.bin", record("paused", 10, 1, 10));
    store.upsert("b.bin", record("downloaded", 100, 0, 0));
    let snap = get_model_states(&store);
    assert_eq!(snap.len(), 2);
}

#[test]
fn size_probe_is_needed_only_without_a_known_total() {
    assert!(needs_size_probe(None));
    assert!(needs_size_probe(Some(0)));
    assert!(!needs_size_probe(Some(77)));
}

#[test]
fn remote_size_uses_recorded_total_first() {
    let (display, learned) = remote_size_decision(Some(2048), Some(4096));
    assert_eq!(display, "2 KB");
    assert_eq!(learned, None);
}

#[test]
fn remote_size_falls_back_to_probe() {
    let (display, learned) = remote_size_decision(Some(0), Some(4096));
    assert_eq!(display, "4 KB");
    assert_eq!(learned, Some(4096));
    let (display, learned) = remote_size_decision(None, None);
    assert_eq!(display, "?");
    assert_eq!(learned, None);
}

#[test]
fn learned_total_is_recorded_without_losing_fields() {
    let mut store = StateStore::new();
    store.upsert("ggml-tiny.bin", record("paused", 10, 1, 0));
    record_remote_total(&mut store, "ggml-tiny.bin", 555);
    let state = store.get("ggml-tiny.bin").unwrap();
    assert_eq!(state.status, "paused");
    assert_eq!(state.total, 555);
    record_remote_total(&mut store, "ggml-base.bin", 777);
    let fresh = store.get("ggml-base.bin").unwrap();
    assert_eq!(fresh.status, "none");
    assert_eq!(fresh.total, 777);
    assert_eq!(fresh.downloaded, 0);
}

#[test]
fn catalog_lists_the_known_models() {
    let catalog = model_catalog();
    assert_eq!(catalog.len(), 5);
    assert_eq!(catalog[0].0, "tiny");
    assert_eq!(
        catalog[0].1,
        "https://huggingface.co/ggerganov/whisper.cpp/resolve/main/ggml-tiny.bin"
    );
    assert_eq!(catalog[4].0, "large-v3-turbo");
}

#[test]
fn file_names_are_derived_from_the_artifact_name() {
    assert_eq!(catalog_file_name("tiny"), "ggml-tiny.bin");
    assert_eq!(staging_file_name("ggml-tiny.bin"), "ggml-tiny.bin.part");
}

#[test]
fn local_listing_excludes_staging_and_state_files() {
    assert!(is_artifact_file_name("ggml-tiny.bin"));
    assert!(!is_artifact_file_name("ggml-tiny.bin.part"));
    assert!(!is_artifact_file_name(&staging_file_name("ggml-tiny.bin")));
    assert!(!is_artifact_file_name("model_states.json"));
    assert!(!is_artifact_file_name(".part"));
    assert!(is_artifact_file_name("part"));
}

#[test]
fn decimal_rendering_is_exact() {
    assert_eq!(u64_to_string(0), "0");
    assert_eq!(u64_to_string(7), "7");
    assert_eq!(u64_to_string(1048576), "1048576");
    assert_eq!(u64_to_string(u64::MAX), "18446744073709551615");
}

#[test]
fn human_readable_sizes_round_per_unit() {
    assert_eq!(human_readable_size(0), "0 B");
    assert_eq!(human_readable_size(500), "500 B");
    assert_eq!(human_readable_size(1023), "1023 B");
    assert_eq!(human_readable_size(1024), "1 KB");
    assert_eq!(human_readable_size(1536), "2 KB");
    assert_eq!(human_readable_size(10 * 1024 * 1024), "10 MB");
    assert_eq!(human_readable_size(1024 * 1024 * 1024), "1.0 GB");
    assert_eq!(human_readable_size(1610612736), "1.5 GB");
    assert_eq!(human_readable_size(2 * 1024 * 1024 * 1024 + 700 * 1024 * 1024), "2.7 GB");
}

#[test]
fn whisper_args_name_model_language_and_input() {
    let args = build_whisper_args("/models/ggml-tiny.bin", "en", "/tmp/a.wav", false);
    assert_eq!(
        args,
        vec!["-m", "/models/ggml-tiny.bin", "-l", "en", "-f", "/tmp/a.wav"]
    );
    let args = build_whisper_args("/models/ggml-tiny.bin", "auto", "ignored", true);
    assert_eq!(args[5], "-");
}
