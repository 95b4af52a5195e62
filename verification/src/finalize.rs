//! The finalizer: verifying a staging file's integrity and directing its
//! atomic promotion to the completed artifact, guarded by a per-artifact
//! mutual-exclusion registry so that at most one finalize runs per name.

use vstd::prelude::*;

use crate::hashing::{sha1_hex_of, Sha1Stream};
use crate::oracle::{get_expected_sha256_for_model, spec_manifest_lookup};
use crate::state::{ModelDownloadState, StateV};
use crate::status::{spec_status_string, DownloadStatus};
use crate::store::StateStore;

verus! {

/// The set of artifact names a sequence of owned strings denotes.
pub open spec fn spec_names_set(s: Seq<String>) -> Set<Seq<char>> {
    Set::new(|k: Seq<char>| exists|i: int| 0 <= i < s.len() && (#[trigger] s[i])@ == k)
}

/// One acquisition attempt on the registry: it fails iff the name is
/// already held, and holds the name afterwards either way.
pub open spec fn spec_try_acquire(held: Set<Seq<char>>, name: Seq<char>) -> (bool, Set<
    Seq<char>,
>) {
    if held.contains(name) {
        (false, held)
    } else {
        (true, held.insert(name))
    }
}

/// Two finalize attempts for the same artifact, serialized in either order:
/// the first acquisition succeeds and the second, made before the first
/// releases, is rejected — so exactly one finalize proceeds.
pub proof fn lemma_finalize_mutual_exclusion(held: Set<Seq<char>>, name: Seq<char>)
    requires
        !held.contains(name),
    ensures
        spec_try_acquire(held, name).0,
        !spec_try_acquire(spec_try_acquire(held, name).1, name).0,
        spec_try_acquire(spec_try_acquire(held, name).1, name).1 == spec_try_acquire(
            held,
            name,
        ).1,
{
}

/// The transient registry of artifact names currently finalizing.
/// Membership is never persisted; it exists only to keep two concurrent
/// finalize attempts for one name apart.
pub struct FinalizeRegistry {
    names: Vec<String>,
}

impl View for FinalizeRegistry {
    type V = Set<Seq<char>>;

    closed spec fn view(&self) -> Set<Seq<char>> {
        spec_names_set(self.names@)
    }
}

impl FinalizeRegistry {
    /// No name is held twice.
    pub closed spec fn wf(&self) -> bool {
        forall|i: int, j: int|
            0 <= i < j < self.names@.len() ==> (#[trigger] self.names@[i])@
                != (#[trigger] self.names@[j])@
    }

    /// An empty registry.
    pub fn new() -> (r: FinalizeRegistry)
        ensures
            r.wf(),
            r@ == Set::<Seq<char>>::empty(),
    {
        let r = FinalizeRegistry { names: Vec::new() };
        proof {
            assert(r@ =~= Set::<Seq<char>>::empty());
        }
        r
    }

    /// Index of `name` in the backing list, if held.
    fn find(&self, name: &str) -> (r: Option<usize>)
        ensures
            match r {
                Some(i) => i < self.names@.len() && self.names@[i as int]@ == name@,
                None => !self@.contains(name@),
            },
    {
        let n = self.names.len();
        let mut i: usize = 0;
        while i < n
            invariant
                n == self.names@.len(),
                i <= n,
                forall|j: int| 0 <= j < i ==> (#[trigger] self.names@[j])@ != name@,
            decreases n - i,
        {
            if crate::strutil::str_eq(self.names[i].as_str(), name) {
                return Some(i);
            }
            i += 1;
        }
        None
    }

    /// Tries to take the finalize lock for `name`: fails iff a finalize for
    /// the same name is already in flight.
    pub fn try_begin(&mut self, name: &str) -> (ok: bool)
        requires
            old(self).wf(),
        ensures
            final(self).wf(),
            (ok, final(self)@) == spec_try_acquire(old(self)@, name@),
    {
        match self.find(name) {
            Some(i) => {
                proof {
                    assert(self@.contains(name@));
                }
                false
            },
            None => {
                let ghost s0 = self.names@;
                self.names.push(name.to_owned());
                proof {
                    assert(forall|j: int|
                        0 <= j < s0.len() ==> (#[trigger] self.names@[j])@ == s0[j]@);
                    assert(self.names@[s0.len() as int]@ == name@);
                    assert forall|k: Seq<char>| #[trigger]
                        spec_names_set(self.names@).contains(k) implies spec_names_set(
                        s0,
                    ).insert(name@).contains(k) by {
                        let i = choose|i: int|
                            0 <= i < self.names@.len() && (#[trigger] self.names@[i])@ == k;
                        if i < s0.len() {
                            assert(s0[i]@ == k);
                        } else {
                            assert(k == name@);
                        }
                    }
                    assert forall|k: Seq<char>| #[trigger]
                        spec_names_set(s0).insert(name@).contains(k) implies spec_names_set(
                        self.names@,
                    ).contains(k) by {
                        if k == name@ {
                            assert(self.names@[s0.len() as int]@ == k);
                        } else {
                            let i = choose|i: int| 0 <= i < s0.len() && (#[trigger] s0[i])@ == k;
                            assert(self.names@[i]@ == k);
                        }
                    }
                    assert(self@ =~= spec_names_set(s0).insert(name@));
                }
                true
            },
        }
    }

    /// Releases the finalize lock for `name`; run on every exit path of a
    /// finalize, success or failure.
    pub fn release(&mut self, name: &str)
        requires
            old(self).wf(),
        ensures
            final(self).wf(),
            final(self)@ == old(self)@.remove(name@),
    {
        match self.find(name) {
            Some(i) => {
                let ghost s0 = self.names@;
                let _ = self.names.remove(i);
                proof {
                    s0.remove_ensures(i as int);
                    assert(self.names@ == s0.remove(i as int));
                    assert(forall|j: int| 0 <= j < i ==> (#[trigger] self.names@[j]) == s0[j]);
                    assert(forall|j: int|
                        i <= j < self.names@.len() ==> (#[trigger] self.names@[j]) == s0[j + 1]);
                    assert(forall|j: int|
                        0 <= j < s0.len() && j != i ==> (#[trigger] s0[j])@ != name@);
                    assert forall|k: Seq<char>| #[trigger]
                        spec_names_set(self.names@).contains(k) implies spec_names_set(
                        s0,
                    ).remove(name@).contains(k) by {
                        let j = choose|j: int|
                            0 <= j < self.names@.len() && (#[trigger] self.names@[j])@ == k;
                        if j < i {
                            assert(s0[j]@ == k);
                        } else {
                            assert(s0[j + 1]@ == k);
                        }
                    }
                    assert forall|k: Seq<char>| #[trigger]
                        spec_names_set(s0).remove(name@).contains(k) implies spec_names_set(
                        self.names@,
                    ).contains(k) by {
                        let j = choose|j: int| 0 <= j < s0.len() && (#[trigger] s0[j])@ == k;
                        if j < i {
                            assert(self.names@[j]@ == k);
                        } else {
                            assert(j != i);
                            assert(self.names@[j - 1]@ == k);
                        }
                    }
                    assert(self@ =~= spec_names_set(s0).remove(name@));
                }
            },
            None => {
                proof {
                    assert(self@ =~= self@.remove(name@));
                }
            },
        }
    }
}

/// The record written on a checksum mismatch: status `Error` with the
/// mismatch detail; the byte counters are no longer meaningful.
pub open spec fn spec_checksum_mismatch_state() -> StateV {
    StateV {
        status: spec_status_string(DownloadStatus::Error),
        progress: 100,
        downloaded: 0,
        total: 0,
        error: Some("SHA1 checksum mismatch after download"@),
    }
}

/// The record written when the checksum oracle fails — the manifest could
/// not be fetched, or the artifact is absent from its table. An existing
/// record keeps its byte counters and turns to `Error` with the failure
/// detail; without one, a fresh error record is synthesized.
pub open spec fn spec_oracle_failure_state(
    prior: Map<Seq<char>, StateV>,
    name: Seq<char>,
    msg: Seq<char>,
) -> StateV {
    if prior.contains_key(name) {
        StateV {
            status: spec_status_string(DownloadStatus::Error),
            error: Some(msg),
            ..prior[name]
        }
    } else {
        StateV {
            status: spec_status_string(DownloadStatus::Error),
            progress: 0,
            downloaded: 0,
            total: 0,
            error: Some(msg),
        }
    }
}

/// Turns the artifact's record to `Error` with the oracle failure detail.
fn record_oracle_failure(store: &mut StateStore, model_name: &str, msg: String)
    requires
        old(store).wf(),
    ensures
        final(store).wf(),
        final(store)@ == old(store)@.insert(
            model_name@,
            spec_oracle_failure_state(old(store)@, model_name@, msg@),
        ),
{
    let current = match store.get(model_name) {
        Some(st) => Some(st.clone()),
        None => None,
    };
    let updated = match current {
        Some(st) => ModelDownloadState {
            status: DownloadStatus::Error.to_string(),
            progress: st.progress,
            downloaded: st.downloaded,
            total: st.total,
            error: Some(msg),
        },
        None => ModelDownloadState::error_state(msg, 0, 0, 0),
    };
    store.upsert(model_name, updated);
}

/// Marks the artifact's record `Finalizing` before a finalize attempt, so
/// that a fresh start against it is rejected until the attempt ends; a
/// record-less artifact is left without one, as a record will be written by
/// the attempt's outcome.
pub fn finalize_begin(store: &mut StateStore, model_name: &str)
    requires
        old(store).wf(),
    ensures
        final(store).wf(),
        old(store)@.contains_key(model_name@) ==> final(store)@ == old(store)@.insert(
            model_name@,
            StateV {
                status: spec_status_string(DownloadStatus::Finalizing),
                ..old(store)@[model_name@]
            },
        ),
        !old(store)@.contains_key(model_name@) ==> final(store)@ == old(store)@,
{
    let current = match store.get(model_name) {
        Some(st) => Some(st.clone()),
        None => None,
    };
    match current {
        Some(st) => {
            let updated = ModelDownloadState {
                status: DownloadStatus::Finalizing.to_string(),
                progress: st.progress,
                downloaded: st.downloaded,
                total: st.total,
                error: st.error,
            };
            store.upsert(model_name, updated);
        },
        None => {},
    }
}

/// Verifies the staging file's integrity against the manifest.
///
/// Preconditions of a promotion: the staging file exists and the
/// destination does not (`part_exists`, `dest_exists` as the caller
/// observed them). `manifest` is the fetched manifest text or the fetch
/// error; `staging_hash` a stream fed the staging file's bytes.
///
/// `Ok` directs the caller to atomically rename the staging file onto the
/// destination and then record the result with [`finalize_commit`]. On a
/// checksum mismatch the staging file is deliberately left for inspection
/// or retry: the store records an error and no promotion is directed. An
/// oracle failure — the manifest unavailable, or the artifact missing from
/// its table — also records an error, with the failure's own message; only
/// the precondition failure leaves the store as it was.
pub fn finalize_model_download(
    store: &mut StateStore,
    model_name: &str,
    part_exists: bool,
    dest_exists: bool,
    manifest: &Result<String, String>,
    staging_hash: Sha1Stream,
) -> (r: Result<(), String>)
    requires
        old(store).wf(),
    ensures
        final(store).wf(),
        !(part_exists && !dest_exists) ==> ((r matches Result::Err(m) && m@
            == "No .part file to finalize or .bin already exists"@) && final(store)@ == old(
            store,
        )@),
        (part_exists && !dest_exists) ==> match manifest {
            Result::Err(e) => (r matches Result::Err(m) && m@ == e@) && final(store)@ == old(
                store,
            )@.insert(
                model_name@,
                spec_oracle_failure_state(old(store)@, model_name@, e@),
            ),
            Result::Ok(text) => match spec_manifest_lookup(text@, model_name@) {
                None => (r matches Result::Err(m) && m@ == "No SHA256 found for model "@
                    + model_name@ + " in README"@) && final(store)@ == old(store)@.insert(
                    model_name@,
                    spec_oracle_failure_state(
                        old(store)@,
                        model_name@,
                        "No SHA256 found for model "@ + model_name@ + " in README"@,
                    ),
                ),
                Some(expected) => if sha1_hex_of(staging_hash.bytes()) == expected {
                    r is Ok && final(store)@ == old(store)@
                } else {
                    (r matches Result::Err(m) && m@ == "SHA1 checksum mismatch after download"@)
                        && final(store)@ == old(store)@.insert(
                        model_name@,
                        spec_checksum_mismatch_state(),
                    )
                },
            },
        },
{
    if !part_exists || dest_exists {
        return Result::Err("No .part file to finalize or .bin already exists".to_owned());
    }
    let expected = match get_expected_sha256_for_model(model_name, manifest) {
        Result::Ok(h) => h,
        Result::Err(e) => {
            record_oracle_failure(store, model_name, e.clone());
            return Result::Err(e);
        },
    };
    let actual = staging_hash.finalize_hex();
    if crate::strutil::str_eq(actual.as_str(), expected.as_str()) {
        Result::Ok(())
    } else {
        let msg = "SHA1 checksum mismatch after download";
        store.upsert(
            model_name,
            ModelDownloadState::error_state(msg.to_owned(), 100, 0, 0),
        );
        Result::Err(msg.to_owned())
    }
}

/// Records a completed promotion: the artifact's record becomes
/// `Downloaded` with full progress and zeroed byte counters.
pub fn finalize_commit(store: &mut StateStore, model_name: &str)
    requires
        old(store).wf(),
    ensures
        final(store).wf(),
        final(store)@ == old(store)@.insert(model_name@, crate::state::spec_downloaded_state()),
{
    store.upsert(model_name, ModelDownloadState::downloaded_state());
}

} // verus!
