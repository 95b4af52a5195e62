//! The in-memory state store: one download record per artifact name, the
//! single source of truth for the subsystem. The surrounding application
//! serializes a snapshot to disk after every mutation and feeds the
//! deserialized document back through [`StateStore::load`] on startup, which
//! performs crash recovery.

use vstd::prelude::*;

use crate::state::{ModelDownloadState, StateV};
use crate::status::{spec_status_from, spec_status_string, DownloadStatus};

verus! {

/// The mapping a sequence of name/record pairs denotes; a later pair with
/// the same name overrides an earlier one.
pub open spec fn spec_pairs_map(s: Seq<(String, ModelDownloadState)>) -> Map<Seq<char>, StateV>
    decreases s.len(),
{
    if s.len() == 0 {
        Map::empty()
    } else {
        spec_pairs_map(s.drop_last()).insert(s.last().0@, s.last().1@)
    }
}

/// No two pairs share a name.
pub open spec fn spec_pairs_unique(s: Seq<(String, ModelDownloadState)>) -> bool {
    forall|i: int, j: int| 0 <= i < j < s.len() ==> (#[trigger] s[i]).0@ != (#[trigger] s[j]).0@
}

proof fn lemma_pairs_map_contains(s: Seq<(String, ModelDownloadState)>, k: Seq<char>)
    ensures
        spec_pairs_map(s).contains_key(k) <==> exists|j: int|
            0 <= j < s.len() && (#[trigger] s[j]).0@ == k,
    decreases s.len(),
{
    if s.len() > 0 {
        lemma_pairs_map_contains(s.drop_last(), k);
        if s.last().0@ == k {
            assert(s[s.len() - 1].0@ == k);
        } else if spec_pairs_map(s).contains_key(k) {
            let j = choose|j: int| 0 <= j < s.len() - 1 && (#[trigger] s.drop_last()[j]).0@ == k;
            assert(s[j].0@ == k);
        } else {
            assert(forall|j: int| 0 <= j < s.len() - 1 ==> (#[trigger] s[j]).0@
                == s.drop_last()[j].0@);
        }
    }
}

proof fn lemma_pairs_map_value(s: Seq<(String, ModelDownloadState)>, j: int)
    requires
        spec_pairs_unique(s),
        0 <= j < s.len(),
    ensures
        spec_pairs_map(s).contains_key(s[j].0@),
        spec_pairs_map(s)[s[j].0@] == s[j].1@,
    decreases s.len(),
{
    if j == s.len() - 1 {
        assert(s.last() == s[j]);
    } else {
        assert(spec_pairs_unique(s.drop_last())) by {
            assert(forall|a: int, b: int|
                0 <= a < b < s.len() - 1 ==> (#[trigger] s.drop_last()[a]).0@
                    != (#[trigger] s.drop_last()[b]).0@);
        }
        assert(s.drop_last()[j] == s[j]);
        lemma_pairs_map_value(s.drop_last(), j);
        assert(s.last().0@ != s[j].0@);
    }
}

/// The store: a list of name/record pairs with pairwise-distinct names,
/// modelled as a map from artifact name to record.
pub struct StateStore {
    entries: Vec<(String, ModelDownloadState)>,
}

impl View for StateStore {
    type V = Map<Seq<char>, StateV>;

    closed spec fn view(&self) -> Map<Seq<char>, StateV> {
        spec_pairs_map(self.entries@)
    }
}

impl StateStore {
    /// The store's internal shape is well formed: no artifact name occurs
    /// twice.
    pub closed spec fn wf(&self) -> bool {
        spec_pairs_unique(self.entries@)
    }

    /// An empty store.
    pub fn new() -> (r: StateStore)
        ensures
            r.wf(),
            r@ == Map::<Seq<char>, StateV>::empty(),
    {
        StateStore { entries: Vec::new() }
    }

    /// Index of the entry for `name`, if one exists.
    fn find(&self, name: &str) -> (r: Option<usize>)
        ensures
            match r {
                Some(i) => i < self.entries@.len() && self.entries@[i as int].0@ == name@,
                None => !self@.contains_key(name@),
            },
    {
        let n = self.entries.len();
        let mut i: usize = 0;
        while i < n
            invariant
                n == self.entries@.len(),
                i <= n,
                forall|j: int| 0 <= j < i ==> (#[trigger] self.entries@[j]).0@ != name@,
            decreases n - i,
        {
            if crate::strutil::str_eq(self.entries[i].0.as_str(), name) {
                return Some(i);
            }
            i += 1;
        }
        proof {
            lemma_pairs_map_contains(self.entries@, name@);
        }
        None
    }

    /// The record for `name`, if the store holds one.
    pub fn get(&self, name: &str) -> (r: Option<&ModelDownloadState>)
        requires
            self.wf(),
        ensures
            match r {
                Some(st) => self@.contains_key(name@) && st@ == self@[name@],
                None => !self@.contains_key(name@),
            },
    {
        match self.find(name) {
            Some(i) => {
                proof {
                    lemma_pairs_map_value(self.entries@, i as int);
                }
                Some(&self.entries[i].1)
            },
            None => None,
        }
    }

    /// Inserts or replaces the record for `name`.
    pub fn upsert(&mut self, name: &str, st: ModelDownloadState)
        requires
            old(self).wf(),
        ensures
            final(self).wf(),
            final(self)@ == old(self)@.insert(name@, st@),
    {
        match self.find(name) {
            Some(i) => {
                let ghost s0 = self.entries@;
                let key = self.entries[i].0.clone();
                self.entries[i] = (key, st);
                proof {
                    lemma_pairs_map_update(s0, i as int, self.entries@[i as int]);
                    assert(spec_pairs_unique(self.entries@)) by {
                        assert(forall|a: int, b: int|
                            0 <= a < b < self.entries@.len() ==> (#[trigger] self.entries@[a]).0@
                                != (#[trigger] self.entries@[b]).0@);
                    }
                }
            },
            None => {
                let ghost s0 = self.entries@;
                let key = name.to_owned();
                self.entries.push((key, st));
                proof {
                    assert(self.entries@.drop_last() =~= s0);
                    lemma_pairs_map_contains(s0, name@);
                    assert(spec_pairs_unique(self.entries@)) by {
                        assert(forall|j: int|
                            0 <= j < s0.len() ==> (#[trigger] self.entries@[j]).0@ == s0[j].0@);
                        assert(forall|j: int| 0 <= j < s0.len() ==> (#[trigger] s0[j]).0@ != name@)
                            by {
                            lemma_pairs_map_contains(s0, name@);
                        }
                    }
                }
            },
        }
    }

    /// Drops the record for `name` entirely (not just marks it); absent
    /// names are left as they are.
    pub fn remove(&mut self, name: &str)
        requires
            old(self).wf(),
        ensures
            final(self).wf(),
            final(self)@ == old(self)@.remove(name@),
    {
        match self.find(name) {
            Some(i) => {
                let ghost s0 = self.entries@;
                let _ = self.entries.remove(i);
                proof {
                    lemma_pairs_map_remove(s0, i as int);
                    assert(spec_pairs_unique(self.entries@)) by {
                        s0.remove_ensures(i as int);
                        assert(forall|a: int, b: int|
                            0 <= a < b < self.entries@.len() ==> (#[trigger] self.entries@[a]).0@
                                != (#[trigger] self.entries@[b]).0@);
                    }
                }
            },
            None => {
                proof {
                    assert(self@ =~= self@.remove(name@));
                }
            },
        }
    }

    /// A copy of the whole mapping, for broadcasting to observers.
    pub fn snapshot(&self) -> (r: Vec<(String, ModelDownloadState)>)
        requires
            self.wf(),
        ensures
            spec_pairs_unique(r@),
            spec_pairs_map(r@) == self@,
    {
        let n = self.entries.len();
        let mut out: Vec<(String, ModelDownloadState)> = Vec::new();
        let mut i: usize = 0;
        while i < n
            invariant
                n == self.entries@.len(),
                i <= n,
                out@.len() == i,
                forall|j: int| 0 <= j < i ==> (#[trigger] out@[j]).0@ == self.entries@[j].0@
                    && out@[j].1@ == self.entries@[j].1@,
            decreases n - i,
        {
            let key = self.entries[i].0.clone();
            let val = self.entries[i].1.clone();
            out.push((key, val));
            i += 1;
        }
        proof {
            assert(spec_pairs_unique(out@));
            lemma_pairs_map_congruence(out@, self.entries@);
        }
        out
    }
}

proof fn lemma_pairs_map_update(
    s: Seq<(String, ModelDownloadState)>,
    i: int,
    p: (String, ModelDownloadState),
)
    requires
        spec_pairs_unique(s),
        0 <= i < s.len(),
        s[i].0@ == p.0@,
    ensures
        spec_pairs_map(s.update(i, p)) == spec_pairs_map(s).insert(p.0@, p.1@),
    decreases s.len(),
{
    let su = s.update(i, p);
    if i == s.len() - 1 {
        assert(su.drop_last() =~= s.drop_last());
        assert(su.last() == p);
        assert(spec_pairs_map(su) == spec_pairs_map(s.drop_last()).insert(p.0@, p.1@));
        assert(spec_pairs_map(s).insert(p.0@, p.1@) =~= spec_pairs_map(s.drop_last()).insert(
            p.0@,
            p.1@,
        ));
    } else {
        assert(spec_pairs_unique(s.drop_last())) by {
            assert(forall|a: int, b: int|
                0 <= a < b < s.len() - 1 ==> (#[trigger] s.drop_last()[a]).0@
                    != (#[trigger] s.drop_last()[b]).0@);
        }
        assert(s.drop_last()[i] == s[i]);
        lemma_pairs_map_update(s.drop_last(), i, p);
        assert(su.drop_last() =~= s.drop_last().update(i, p));
        assert(su.last() == s.last());
        // The final insert of the unchanged last pair commutes with the
        // insert at the distinct updated key.
        assert(s.last().0@ != p.0@);
        assert(spec_pairs_map(su) == spec_pairs_map(s.drop_last()).insert(p.0@, p.1@).insert(
            s.last().0@,
            s.last().1@,
        ));
        assert(spec_pairs_map(s.drop_last()).insert(p.0@, p.1@).insert(s.last().0@, s.last().1@)
            =~= spec_pairs_map(s.drop_last()).insert(s.last().0@, s.last().1@).insert(
            p.0@,
            p.1@,
        ));
    }
}

proof fn lemma_pairs_map_remove(s: Seq<(String, ModelDownloadState)>, i: int)
    requires
        spec_pairs_unique(s),
        0 <= i < s.len(),
    ensures
        spec_pairs_map(s.remove(i)) == spec_pairs_map(s).remove(s[i].0@),
    decreases s.len(),
{
    let sr = s.remove(i);
    s.remove_ensures(i);
    if i == s.len() - 1 {
        assert(sr =~= s.drop_last());
        lemma_pairs_map_contains(s.drop_last(), s[i].0@);
        assert(forall|j: int| 0 <= j < s.len() - 1 ==> (#[trigger] s.drop_last()[j]).0@
            != s[i].0@);
        assert(!spec_pairs_map(s.drop_last()).contains_key(s[i].0@));
        assert(spec_pairs_map(s.drop_last()).insert(s[i].0@, s[i].1@).remove(s[i].0@)
            =~= spec_pairs_map(s.drop_last()));
    } else {
        assert(spec_pairs_unique(s.drop_last())) by {
            assert(forall|a: int, b: int|
                0 <= a < b < s.len() - 1 ==> (#[trigger] s.drop_last()[a]).0@
                    != (#[trigger] s.drop_last()[b]).0@);
        }
        assert(s.drop_last()[i] == s[i]);
        lemma_pairs_map_remove(s.drop_last(), i);
        assert(sr.drop_last() =~= s.drop_last().remove(i));
        assert(sr.last() == s.last());
        assert(s.last().0@ != s[i].0@);
        assert(spec_pairs_map(sr) == spec_pairs_map(s.drop_last()).remove(s[i].0@).insert(
            s.last().0@,
            s.last().1@,
        ));
        assert(spec_pairs_map(s.drop_last()).remove(s[i].0@).insert(s.last().0@, s.last().1@)
            =~= spec_pairs_map(s.drop_last()).insert(s.last().0@, s.last().1@).remove(s[i].0@));
    }
}

proof fn lemma_pairs_map_congruence(
    a: Seq<(String, ModelDownloadState)>,
    b: Seq<(String, ModelDownloadState)>,
)
    requires
        a.len() == b.len(),
        forall|j: int| 0 <= j < a.len() ==> (#[trigger] a[j]).0@ == b[j].0@ && a[j].1@ == b[j].1@,
    ensures
        spec_pairs_map(a) == spec_pairs_map(b),
    decreases a.len(),
{
    if a.len() > 0 {
        assert(forall|j: int|
            0 <= j < a.len() - 1 ==> (#[trigger] a.drop_last()[j]).0@ == b.drop_last()[j].0@
                && a.drop_last()[j].1@ == b.drop_last()[j].1@);
        lemma_pairs_map_congruence(a.drop_last(), b.drop_last());
        assert(a.last().0@ == b.last().0@ && a.last().1@ == b.last().1@);
    }
}

/// Crash recovery for one loaded record: a `Downloading` status can only be
/// true while the process that set it is alive, so it is demoted to
/// `Paused`; everything else is admitted unchanged.
pub open spec fn spec_recover(v: StateV) -> StateV {
    if spec_status_from(v.status) == DownloadStatus::Downloading {
        StateV { status: spec_status_string(DownloadStatus::Paused), ..v }
    } else {
        v
    }
}

/// The store that loading a serialized document produces: every record
/// admitted after crash recovery; a later duplicate name overrides an
/// earlier one.
pub open spec fn spec_load_map(s: Seq<(String, ModelDownloadState)>) -> Map<Seq<char>, StateV>
    decreases s.len(),
{
    if s.len() == 0 {
        Map::empty()
    } else {
        spec_load_map(s.drop_last()).insert(s.last().0@, spec_recover(s.last().1@))
    }
}

/// Crash recovery for one record read from disk.
fn recover(st: ModelDownloadState) -> (r: ModelDownloadState)
    ensures
        r@ == spec_recover(st@),
{
    if st.status_enum() == DownloadStatus::Downloading {
        ModelDownloadState {
            status: DownloadStatus::Paused.to_string(),
            progress: st.progress,
            downloaded: st.downloaded,
            total: st.total,
            error: st.error,
        }
    } else {
        st
    }
}

impl StateStore {
    /// Builds the store from the deserialized state document, applying
    /// crash recovery to every record.
    pub fn load(disk: Vec<(String, ModelDownloadState)>) -> (r: StateStore)
        ensures
            r.wf(),
            r@ == spec_load_map(disk@),
    {
        let n = disk.len();
        let mut store = StateStore::new();
        let mut i: usize = 0;
        while i < n
            invariant
                n == disk@.len(),
                i <= n,
                store.wf(),
                store@ == spec_load_map(disk@.take(i as int)),
            decreases n - i,
        {
            let key = disk[i].0.clone();
            let val = disk[i].1.clone();
            let rec = recover(val);
            store.upsert(key.as_str(), rec);
            proof {
                assert(disk@.take(i + 1 as int).drop_last() =~= disk@.take(i as int));
                assert(disk@.take(i + 1 as int).last() == disk@[i as int]);
            }
            i += 1;
        }
        proof {
            assert(disk@.take(n as int) =~= disk@);
        }
        store
    }
}

/// After `load`, no record has status `Downloading`: whatever the document
/// on disk held, recovery demotes every `Downloading` entry to `Paused`.
pub proof fn lemma_load_recovers_downloading(s: Seq<(String, ModelDownloadState)>, k: Seq<char>)
    requires
        spec_load_map(s).contains_key(k),
    ensures
        spec_status_from(spec_load_map(s)[k].status) != DownloadStatus::Downloading,
    decreases s.len(),
{
    if s.len() > 0 {
        if s.last().0@ == k {
            crate::status::lemma_status_string_round_trip(DownloadStatus::Paused);
        } else {
            lemma_load_recovers_downloading(s.drop_last(), k);
        }
    }
}

} // verus!
