//! Tests of the state store and its crash recovery on load.

use captions_models::state::ModelDownloadState;
use captions_models::store::StateStore;
use captions_models::DownloadStatus;

fn record(status: &str, progress: u64, downloaded: u64, total: u64) -> ModelDownloadState {
    ModelDownloadState {
        status: status.to_string(),
        progress,
        downloaded,
        total,
        error: None,
    }
}

#[test]
fn load_demotes_downloading_to_paused() {
    // Crash recovery: a record can only be Downloading while the process
    // that set it is alive.
    let disk = vec![
        ("a.bin".to_string(), record("downloading", 40, 4, 10)),
        ("b.bin".to_string(), record("paused", 20, 2, 10)),
        ("c.bin".to_string(), record("downloaded", 100, 0, 0)),
    ];
    let store = StateStore::load(disk);
    let a = store.get("a.bin").unwrap();
    assert_eq!(a.status, "paused");
    assert_eq!(a.progress, 40);
    assert_eq!(a.downloaded, 4);
    assert_eq!(a.total, 10);
    assert_eq!(store.get("b.bin").unwrap().status, "paused");
    assert_eq!(store.get("c.bin").unwrap().status, "downloaded");
}

#[test]
fn no_state_is_downloading_after_load() {
    let disk = vec![
        ("a.bin".to_string(), record("downloading", 1, 1, 100)),
        ("b.bin".to_string(), record("downloading", 2, 2, 100)),
        ("c.bin".to_string(), record("error", 3, 3, 100)),
        ("d.bin".to_string(), record("weird-unknown", 4, 4, 100)),
    ];
    let store = StateStore::load(disk);
    for (_, state) in store.snapshot() {
        assert!(DownloadStatus::from_str(&state.status) != DownloadStatus::Downloading);
    }
}

#[test]
fn get_upsert_remove_round_trip() {
    let mut store = StateStore::new();
    assert!(store.get("x.bin").is_none());
    store.upsert("x.bin", record("paused", 10, 1, 10));
    assert_eq!(store.get("x.bin").unwrap().progress, 10);
    store.upsert("x.bin", record("error", 20, 2, 10));
    assert_eq!(store.get("x.bin").unwrap().progress, 20);
    assert_eq!(store.snapshot().len(), 1);
    store.remove("x.bin");
    assert!(store.get("x.bin").is_none());
    assert_eq!(store.snapshot().len(), 0);
}

#[test]
fn snapshot_holds_every_record_once() {
    let mut store = StateStore::new();
    store.upsert("a.bin", record("none", 0, 0, 0));
    store.upsert("b.bin", record("paused", 5, 1, 20));
    store.upsert("a.bin", record("downloaded", 100, 0, 0));
    let snap = store.snapshot();
    assert_eq!(snap.len(), 2);
    let a = snap.iter().find(|(k, _)| k == "a.bin").unwrap();
    assert_eq!(a.1.status, "downloaded");
}
