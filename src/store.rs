//! A versioned cache store held in memory: named caches, each mapping a
//! request identity to a response snapshot.

use vstd::prelude::*;
use crate::assoc::{assoc, lemma_assoc_absent, lemma_assoc_last, lemma_assoc_push, lemma_assoc_update_last};
use crate::message::{is_success_status, KeyView, Method, NetworkError, RequestKey, Response, ResponseView};

verus! {

/// The key of one stored entry: the cache's name and the request identity.
pub type EntryKey = (Seq<char>, KeyView);

/// Abstract value of a store: the names of the open caches, and every
/// entry under its cache name and request identity.
pub struct StoreView {
    pub names: Set<Seq<char>>,
    pub entries: Map<EntryKey, ResponseView>,
}

/// The set of character sequences that a list of strings holds.
pub open spec fn names_of(s: Seq<String>) -> Set<Seq<char>> {
    Set::new(|n: Seq<char>| exists|i: int| 0 <= i < s.len() && (#[trigger] s[i])@ == n)
}

struct StoredEntry {
    cache: String,
    key: RequestKey,
    response: Response,
}

spec fn pair_of(e: StoredEntry) -> (EntryKey, ResponseView) {
    ((e.cache@, e.key@), e.response@)
}

spec fn pairs(s: Seq<StoredEntry>) -> Seq<(EntryKey, ResponseView)> {
    s.map_values(|e: StoredEntry| pair_of(e))
}

pub struct CacheStore {
    names: Vec<String>,
    entries: Vec<StoredEntry>,
}

impl View for CacheStore {
    type V = StoreView;

    closed spec fn view(&self) -> StoreView {
        StoreView { names: names_of(self.names@), entries: assoc(pairs(self.entries@)) }
    }
}

impl CacheStore {
    /// Every entry belongs to an open cache.
    pub open spec fn wf(&self) -> bool {
        forall|k: EntryKey| #[trigger] self@.entries.contains_key(k) ==> self@.names.contains(k.0)
    }

    /// A store with no cache.
    pub fn new() -> (r: CacheStore)
        ensures
            r.wf(),
            r@.names == Set::<Seq<char>>::empty(),
            r@.entries == Map::<EntryKey, ResponseView>::empty(),
    {
        let r = CacheStore { names: Vec::new(), entries: Vec::new() };
        assert(r@.names =~= Set::<Seq<char>>::empty());
        r
    }

    fn find_name(&self, name: &String) -> (r: Option<usize>)
        ensures
            match r {
                Some(i) => i < self.names.len() && self.names@[i as int]@ == name@,
                None => !self@.names.contains(name@),
            },
    {
        let mut i: usize = 0;
        while i < self.names.len()
            invariant
                i <= self.names.len(),
                forall|j: int| 0 <= j < i ==> (#[trigger] self.names@[j])@ != name@,
            decreases self.names.len() - i,
        {
            if self.names[i] == *name {
                return Some(i);
            }
            i = i + 1;
        }
        None
    }

    /// Whether a cache of this name is open.
    pub fn has_cache(&self, name: &str) -> (r: bool)
        ensures
            r == self@.names.contains(name@),
    {
        let n = String::from_str(name);
        match self.find_name(&n) {
            Some(_) => true,
            None => false,
        }
    }

    /// Opens the named cache, creating it empty when absent.
    pub fn open(&mut self, name: &str)
        requires
            old(self).wf(),
        ensures
            final(self).wf(),
            final(self)@.names == old(self)@.names.insert(name@),
            final(self)@.entries == old(self)@.entries,
    {
        let n = String::from_str(name);
        match self.find_name(&n) {
            Some(_) => {
                assert(self@.names =~= old(self)@.names.insert(name@));
            },
            None => {
                self.names.push(n);
                let ghost last = self.names.len() - 1;
                assert(self.names@[last]@ == name@);
                assert forall|m: Seq<char>| old(self)@.names.insert(name@).contains(m) implies self@.names.contains(m) by {
                    if m != name@ {
                        let j = choose|j: int| 0 <= j < old(self).names.len() && (#[trigger] old(self).names@[j])@ == m;
                        assert(self.names@[j]@ == m);
                    }
                }
                assert(self@.names =~= old(self)@.names.insert(name@));
            },
        }
        assert(self@.entries == old(self)@.entries);
        assert forall|k: EntryKey| #[trigger] self@.entries.contains_key(k) implies self@.names.contains(k.0) by {
            assert(old(self)@.names.contains(k.0));
        }
    }

    /// The names of the open caches, each once.
    pub fn list_names(&self) -> (r: Vec<String>)
        ensures
            names_of(r@) == self@.names,
    {
        let mut out: Vec<String> = Vec::new();
        let mut i: usize = 0;
        while i < self.names.len()
            invariant
                i <= self.names.len(),
                out.len() == i,
                forall|j: int| 0 <= j < i ==> (#[trigger] out@[j])@ == self.names@[j]@,
            decreases self.names.len() - i,
        {
            out.push(self.names[i].clone());
            i = i + 1;
        }
        assert(names_of(out@) =~= self@.names) by {
            assert forall|n: Seq<char>| names_of(self.names@).contains(n) implies names_of(out@).contains(n) by {
                let j = choose|j: int| 0 <= j < self.names.len() && (#[trigger] self.names@[j])@ == n;
                assert(out@[j]@ == n);
            }
        }
        out
    }

    /// Index of the last entry stored under `cache` and `key`.
    fn find_entry(&self, cache: &String, key: &RequestKey) -> (r: Option<usize>)
        ensures
            match r {
                Some(i) => i < self.entries.len() && pairs(self.entries@)[i as int].0 == (cache@, key@)
                    && forall|j: int| i < j < self.entries.len() ==> (#[trigger] pairs(self.entries@)[j]).0 != (cache@, key@),
                None => forall|j: int| 0 <= j < self.entries.len() ==> (#[trigger] pairs(self.entries@)[j]).0 != (cache@, key@),
            },
    {
        let mut i: usize = self.entries.len();
        while i > 0
            invariant
                i <= self.entries.len(),
                forall|j: int| i <= j < self.entries.len() ==> (#[trigger] pairs(self.entries@)[j]).0 != (cache@, key@),
            decreases i,
        {
            let e = &self.entries[i - 1];
            if e.cache == *cache && e.key.same_as(key) {
                return Some(i - 1);
            }
            i = i - 1;
        }
        None
    }

    /// A copy of the response stored in the named cache for this request
    /// identity; `None` on a miss.
    pub fn get(&self, cache: &str, key: &RequestKey) -> (r: Option<Response>)
        ensures
            match r {
                Some(x) => self@.entries.contains_key((cache@, key@)) && x@ == self@.entries[(cache@, key@)],
                None => !self@.entries.contains_key((cache@, key@)),
            },
    {
        let n = String::from_str(cache);
        match self.find_entry(&n, key) {
            Some(i) => {
                proof {
                    lemma_assoc_last(pairs(self.entries@), i as int, (cache@, key@));
                }
                Some(self.entries[i].response.duplicate())
            },
            None => {
                proof {
                    lemma_assoc_absent(pairs(self.entries@), (cache@, key@));
                }
                None
            },
        }
    }

    /// Stores `response` in the named open cache under the identity `key`,
    /// replacing an earlier entry of that identity.
    pub fn put(&mut self, cache: &str, key: RequestKey, response: Response)
        requires
            old(self).wf(),
            old(self)@.names.contains(cache@),
        ensures
            final(self).wf(),
            final(self)@.names == old(self)@.names,
            final(self)@.entries == old(self)@.entries.insert((cache@, key@), response@),
    {
        let n = String::from_str(cache);
        let found = self.find_entry(&n, &key);
        let e = StoredEntry { cache: n, key, response };
        proof {
            assert(pair_of(e) == ((cache@, key@), response@));
        }
        match found {
            Some(i) => {
                self.entries.set(i, e);
                proof {
                    let p = pairs(old(self).entries@);
                    lemma_assoc_update_last(p, i as int, (cache@, key@), response@);
                    assert(pairs(self.entries@) =~= p.update(i as int, ((cache@, key@), response@)));
                    assert(self@.entries == old(self)@.entries.insert((cache@, key@), response@));
                    assert(self@.names == old(self)@.names);
                }
            },
            None => {
                self.entries.push(e);
                proof {
                    let p = pairs(old(self).entries@);
                    lemma_assoc_push(p, ((cache@, key@), response@));
                    assert(pairs(self.entries@) =~= p.push(((cache@, key@), response@)));
                    assert(self@.entries == old(self)@.entries.insert((cache@, key@), response@));
                    assert(self@.names == old(self)@.names);
                }
            },
        }
    }
}

/// Whether a name survives a filter on `target`: names equal to `target`
/// survive when `keep_equal`, the others otherwise.
pub open spec fn name_kept(n: Seq<char>, target: Seq<char>, keep_equal: bool) -> bool {
    (n == target) == keep_equal
}

/// The store after every cache but `current` is dropped with its entries.
pub open spec fn activated(v: StoreView, current: Seq<char>) -> StoreView {
    StoreView {
        names: v.names.filter(|n: Seq<char>| n == current),
        entries: v.entries.restrict(Set::new(|k: EntryKey| k.0 == current)),
    }
}

/// The store after the cache `name` is dropped with its entries.
pub open spec fn deleted(v: StoreView, name: Seq<char>) -> StoreView {
    StoreView {
        names: v.names.remove(name),
        entries: v.entries.restrict(Set::new(|k: EntryKey| k.0 != name)),
    }
}

fn filter_names(names: &Vec<String>, target: &String, keep_equal: bool) -> (r: Vec<String>)
    ensures
        forall|j: int| 0 <= j < r.len() ==> name_kept((#[trigger] r@[j])@, target@, keep_equal),
        names_of(r@) == names_of(names@).filter(|n: Seq<char>| name_kept(n, target@, keep_equal)),
{
    let mut out: Vec<String> = Vec::new();
    let mut i: usize = 0;
    while i < names.len()
        invariant
            i <= names.len(),
            forall|j: int| 0 <= j < out.len() ==> name_kept((#[trigger] out@[j])@, target@, keep_equal),
            forall|j: int| 0 <= j < out.len() ==> exists|m: int| 0 <= m < i && (#[trigger] names@[m])@ == (#[trigger] out@[j])@,
            forall|m: int| 0 <= m < i && name_kept((#[trigger] names@[m])@, target@, keep_equal)
                ==> exists|j: int| 0 <= j < out.len() && (#[trigger] out@[j])@ == names@[m]@,
        decreases names.len() - i,
    {
        let ghost before = out@;
        let keep = (names[i] == *target) == keep_equal;
        if keep {
            out.push(names[i].clone());
            assert(out@[out.len() - 1]@ == names@[i as int]@);
        }
        assert forall|m: int| 0 <= m < i + 1 && name_kept((#[trigger] names@[m])@, target@, keep_equal)
            implies exists|j: int| 0 <= j < out.len() && (#[trigger] out@[j])@ == names@[m]@ by {
            if m < i {
                let j = choose|j: int| 0 <= j < before.len() && (#[trigger] before[j])@ == names@[m]@;
                assert(out@[j] == before[j]);
            } else {
                assert(out@[out.len() - 1]@ == names@[m]@);
            }
        }
        assert forall|j: int| 0 <= j < out.len() implies exists|m: int| 0 <= m < i + 1 && (#[trigger] names@[m])@ == (#[trigger] out@[j])@ by {
            if j < before.len() {
                assert(out@[j] == before[j]);
                let m = choose|m: int| 0 <= m < i && (#[trigger] names@[m])@ == before[j]@;
            } else {
                assert(out@[j]@ == names@[i as int]@);
            }
        }
        i = i + 1;
    }
    assert(names_of(out@) =~= names_of(names@).filter(|n: Seq<char>| name_kept(n, target@, keep_equal))) by {
        assert forall|n: Seq<char>| names_of(out@).contains(n) implies names_of(names@).contains(n) by {
            let j = choose|j: int| 0 <= j < out.len() && (#[trigger] out@[j])@ == n;
            let m = choose|m: int| 0 <= m < i && (#[trigger] names@[m])@ == out@[j]@;
        }
        assert forall|n: Seq<char>| names_of(names@).contains(n) && name_kept(n, target@, keep_equal)
            implies names_of(out@).contains(n) by {
            let m = choose|m: int| 0 <= m < names.len() && (#[trigger] names@[m])@ == n;
            let j = choose|j: int| 0 <= j < out.len() && (#[trigger] out@[j])@ == names@[m]@;
        }
    }
    out
}

spec fn kept_keys(target: Seq<char>, keep_equal: bool) -> Set<EntryKey> {
    Set::new(|k: EntryKey| name_kept(k.0, target, keep_equal))
}

fn filter_entries(entries: Vec<StoredEntry>, target: &String, keep_equal: bool) -> (r: Vec<StoredEntry>)
    ensures
        assoc(pairs(r@)) == assoc(pairs(entries@)).restrict(kept_keys(target@, keep_equal)),
{
    let ghost orig = entries@;
    let ghost keep_set = kept_keys(target@, keep_equal);
    let mut rest = entries;
    let mut out: Vec<StoredEntry> = Vec::new();
    assert(orig.subrange(0, 0) =~= Seq::<StoredEntry>::empty());
    assert(pairs(orig.subrange(0, 0)) =~= Seq::<(EntryKey, ResponseView)>::empty());
    assert(assoc(pairs(out@)) =~= assoc(pairs(orig.subrange(0, 0))).restrict(keep_set));
    while rest.len() > 0
        invariant
            keep_set == kept_keys(target@, keep_equal),
            rest.len() <= orig.len(),
            rest@ == orig.subrange(orig.len() - rest.len(), orig.len() as int),
            assoc(pairs(out@)) == assoc(pairs(orig.subrange(0, orig.len() - rest.len()))).restrict(keep_set),
        decreases rest.len(),
    {
        let ghost k = orig.len() - rest.len();
        let ghost before = out@;
        let e = rest.remove(0);
        assert(e == orig[k]);
        assert(rest@ =~= orig.subrange(k + 1, orig.len() as int));
        let ghost p = pair_of(e);
        assert(pairs(orig.subrange(0, k + 1)) =~= pairs(orig.subrange(0, k)).push(p));
        proof {
            lemma_assoc_push(pairs(orig.subrange(0, k)), p);
        }
        let keep = (e.cache == *target) == keep_equal;
        assert(name_kept(p.0.0, target@, keep_equal) == keep);
        assert(keep_set.contains(p.0) == keep);
        if keep {
            out.push(e);
            proof {
                assert(pairs(out@) =~= pairs(before).push(p));
                lemma_assoc_push(pairs(before), p);
            }
        }
        assert(assoc(pairs(out@)) =~= assoc(pairs(orig.subrange(0, k + 1))).restrict(keep_set));
    }
    assert(orig.subrange(0, orig.len() as int) =~= orig);
    out
}

/// The names in `names` other than `current`: the caches that an upgrade
/// to `current` leaves stale.
pub fn stale_cache_names(names: &Vec<String>, current: &str) -> (r: Vec<String>)
    ensures
        forall|j: int| 0 <= j < r.len() ==> (#[trigger] r@[j])@ != current@,
        names_of(r@) == names_of(names@).remove(current@),
{
    let c = String::from_str(current);
    let r = filter_names(names, &c, false);
    assert(names_of(r@) =~= names_of(names@).remove(current@));
    r
}

impl CacheStore {
    /// Drops the named cache and all its entries. Returns whether it was open.
    pub fn delete(&mut self, name: &str) -> (r: bool)
        requires
            old(self).wf(),
        ensures
            final(self).wf(),
            final(self)@ == deleted(old(self)@, name@),
            r == old(self)@.names.contains(name@),
    {
        let n = String::from_str(name);
        let r = self.has_cache(name);
        let names = filter_names(&self.names, &n, false);
        let mut taken: Vec<StoredEntry> = Vec::new();
        core::mem::swap(&mut taken, &mut self.entries);
        let entries = filter_entries(taken, &n, false);
        self.names = names;
        self.entries = entries;
        assert(self@.names =~= old(self)@.names.remove(name@));
        assert(self@.entries =~= old(self)@.entries.restrict(Set::new(|k: EntryKey| k.0 != name@)));
        r
    }

    /// Keeps the cache `current` alone: every other cache is dropped with
    /// its entries.
    pub fn activate(&mut self, current: &str)
        requires
            old(self).wf(),
        ensures
            final(self).wf(),
            final(self)@ == activated(old(self)@, current@),
    {
        let n = String::from_str(current);
        let names = filter_names(&self.names, &n, true);
        let mut taken: Vec<StoredEntry> = Vec::new();
        core::mem::swap(&mut taken, &mut self.entries);
        let entries = filter_entries(taken, &n, true);
        self.names = names;
        self.entries = entries;
        assert(self@.names =~= old(self)@.names.filter(|m: Seq<char>| m == current@));
        assert(self@.entries =~= old(self)@.entries.restrict(Set::new(|k: EntryKey| k.0 == current@)));
    }
}

/// Activating twice with nothing in between leaves the same store as
/// activating once.
pub proof fn activate_idempotent(v: StoreView, current: Seq<char>)
    ensures
        activated(activated(v, current), current) == activated(v, current),
{
    let once = activated(v, current);
    let twice = activated(once, current);
    assert(twice.names =~= once.names);
    assert(twice.entries =~= once.entries);
}

/// After activation only the current cache's name can remain.
pub proof fn activate_leaves_current_only(v: StoreView, current: Seq<char>)
    ensures
        activated(v, current).names.subset_of(set![current]),
        v.names.contains(current) ==> activated(v, current).names == set![current],
{
    if v.names.contains(current) {
        assert(activated(v, current).names =~= set![current]);
    }
}

/// What a fetch during install gave, as far as storing goes.
pub open spec fn fetched_view(f: Result<Response, NetworkError>) -> Option<ResponseView> {
    match f {
        Ok(r) => Some(r@),
        Err(_) => None,
    }
}

/// Whether an install fetch outcome is stored: it succeeded with a success
/// status.
pub open spec fn stores(o: Option<ResponseView>) -> bool {
    o is Some && is_success_status(o.unwrap().status)
}

/// The entry key of a seeded asset: a GET of its path in cache `cache`.
pub open spec fn asset_key(cache: Seq<char>, path: Seq<char>) -> EntryKey {
    (cache, (Method::Get, path))
}

/// The entries after seeding `cache` with `paths`, whose fetches gave
/// `outcomes`, in order: each stored outcome is put, the others skipped.
pub open spec fn installed(
    m: Map<EntryKey, ResponseView>,
    cache: Seq<char>,
    paths: Seq<Seq<char>>,
    outcomes: Seq<Option<ResponseView>>,
) -> Map<EntryKey, ResponseView>
    decreases paths.len(),
{
    if paths.len() == 0 {
        m
    } else {
        let prev = installed(m, cache, paths.drop_last(), outcomes.drop_last());
        let o = outcomes[paths.len() - 1];
        if stores(o) {
            prev.insert(asset_key(cache, paths.last()), o.unwrap())
        } else {
            prev
        }
    }
}

/// Whether a fetched asset is to be stored: the fetch succeeded with a
/// success status.
pub fn should_store(fetched: &Result<Response, NetworkError>) -> (r: bool)
    ensures
        r == stores(fetched_view(*fetched)),
{
    match fetched {
        Ok(resp) => resp.is_success(),
        Err(_) => false,
    }
}

impl CacheStore {
    /// Seeds one asset: stores a successful fetch of `path` in `cache`,
    /// skips a failed one. Returns whether it stored.
    pub fn install_asset(&mut self, cache: &str, path: &str, fetched: Result<Response, NetworkError>) -> (r: bool)
        requires
            old(self).wf(),
            old(self)@.names.contains(cache@),
        ensures
            final(self).wf(),
            final(self)@.names == old(self)@.names,
            r == stores(fetched_view(fetched)),
            r ==> final(self)@.entries == old(self)@.entries.insert(asset_key(cache@, path@), fetched_view(fetched).unwrap()),
            !r ==> final(self)@.entries == old(self)@.entries,
    {
        let store = should_store(&fetched);
        if store {
            match fetched {
                Ok(resp) => {
                    self.put(cache, RequestKey::get(path), resp);
                },
                Err(_) => {},
            }
        }
        store
    }

    /// Opens `cache` and seeds it with every path of `manifest`, whose
    /// fetches gave `fetched`, in order. A failed fetch skips its path
    /// only; the others are still stored.
    pub fn install(&mut self, cache: &str, manifest: &Vec<String>, fetched: Vec<Result<Response, NetworkError>>)
        requires
            old(self).wf(),
            manifest.len() == fetched.len(),
        ensures
            final(self).wf(),
            final(self)@.names == old(self)@.names.insert(cache@),
            final(self)@.entries == installed(
                old(self)@.entries,
                cache@,
                manifest@.map_values(|p: String| p@),
                fetched@.map_values(|f: Result<Response, NetworkError>| fetched_view(f)),
            ),
    {
        let ghost paths = manifest@.map_values(|p: String| p@);
        let ghost outs = fetched@.map_values(|f: Result<Response, NetworkError>| fetched_view(f));
        self.open(cache);
        let ghost start = self@.entries;
        let mut rest = fetched;
        let mut i: usize = 0;
        assert(paths.subrange(0, 0) =~= Seq::<Seq<char>>::empty());
        while i < manifest.len()
            invariant
                self.wf(),
                self@.names == old(self)@.names.insert(cache@),
                start == old(self)@.entries,
                i <= manifest.len(),
                manifest.len() == fetched.len(),
                paths == manifest@.map_values(|p: String| p@),
                outs == fetched@.map_values(|f: Result<Response, NetworkError>| fetched_view(f)),
                rest@ == fetched@.subrange(i as int, fetched.len() as int),
                self@.entries == installed(start, cache@, paths.subrange(0, i as int), outs.subrange(0, i as int)),
            decreases manifest.len() - i,
        {
            let f = rest.remove(0);
            assert(f == fetched@[i as int]);
            assert(rest@ =~= fetched@.subrange(i + 1, fetched.len() as int));
            assert(paths.subrange(0, i + 1).drop_last() =~= paths.subrange(0, i as int));
            assert(outs.subrange(0, i + 1).drop_last() =~= outs.subrange(0, i as int));
            self.install_asset(cache, manifest[i].as_str(), f);
            i = i + 1;
        }
        assert(paths.subrange(0, i as int) =~= paths);
        assert(outs.subrange(0, i as int) =~= outs);
    }
}

proof fn lemma_installed_stored(
    m: Map<EntryKey, ResponseView>,
    cache: Seq<char>,
    paths: Seq<Seq<char>>,
    outcomes: Seq<Option<ResponseView>>,
    i: int,
)
    requires
        paths.len() == outcomes.len(),
        0 <= i < paths.len(),
        stores(outcomes[i]),
        forall|j: int| i < j < paths.len() ==> (#[trigger] paths[j]) != paths[i],
    ensures
        installed(m, cache, paths, outcomes).contains_key(asset_key(cache, paths[i])),
        installed(m, cache, paths, outcomes)[asset_key(cache, paths[i])] == outcomes[i].unwrap(),
    decreases paths.len(),
{
    if i < paths.len() - 1 {
        lemma_installed_stored(m, cache, paths.drop_last(), outcomes.drop_last(), i);
        assert(paths[paths.len() - 1] != paths[i]);
    }
}

proof fn lemma_installed_other(
    m: Map<EntryKey, ResponseView>,
    cache: Seq<char>,
    paths: Seq<Seq<char>>,
    outcomes: Seq<Option<ResponseView>>,
    k: EntryKey,
)
    requires
        paths.len() == outcomes.len(),
        forall|i: int| 0 <= i < paths.len() && stores(#[trigger] outcomes[i]) ==> k != asset_key(cache, paths[i]),
    ensures
        installed(m, cache, paths, outcomes).contains_key(k) == m.contains_key(k),
        m.contains_key(k) ==> installed(m, cache, paths, outcomes)[k] == m[k],
    decreases paths.len(),
{
    if paths.len() > 0 {
        let n = paths.len() - 1;
        assert forall|i: int| 0 <= i < n && stores(#[trigger] outcomes.drop_last()[i])
            implies k != asset_key(cache, paths.drop_last()[i]) by {
            assert(outcomes.drop_last()[i] == outcomes[i]);
        }
        lemma_installed_other(m, cache, paths.drop_last(), outcomes.drop_last(), k);
        if stores(outcomes[n]) {
            assert(k != asset_key(cache, paths[n]));
        }
    }
}

/// Seeding with distinct paths of which exactly one fetch fails still
/// stores every other asset, with its fetched response, and stores nothing
/// for the failed one.
pub proof fn install_skips_only_the_failure(
    m: Map<EntryKey, ResponseView>,
    cache: Seq<char>,
    paths: Seq<Seq<char>>,
    outcomes: Seq<Option<ResponseView>>,
    failed: int,
)
    requires
        paths.len() == outcomes.len(),
        forall|i: int, j: int| 0 <= i < j < paths.len() ==> paths[i] != paths[j],
        0 <= failed < paths.len(),
        !stores(outcomes[failed]),
        forall|i: int| 0 <= i < paths.len() && i != failed ==> stores(#[trigger] outcomes[i]),
        !m.contains_key(asset_key(cache, paths[failed])),
    ensures
        forall|i: int| 0 <= i < paths.len() && i != failed ==> {
            &&& installed(m, cache, paths, outcomes).contains_key(#[trigger] asset_key(cache, paths[i]))
            &&& installed(m, cache, paths, outcomes)[asset_key(cache, paths[i])] == outcomes[i].unwrap()
        },
        !installed(m, cache, paths, outcomes).contains_key(asset_key(cache, paths[failed])),
{
    assert forall|i: int| 0 <= i < paths.len() && i != failed implies {
        &&& installed(m, cache, paths, outcomes).contains_key(#[trigger] asset_key(cache, paths[i]))
        &&& installed(m, cache, paths, outcomes)[asset_key(cache, paths[i])] == outcomes[i].unwrap()
    } by {
        lemma_installed_stored(m, cache, paths, outcomes, i);
    }
    assert forall|i: int| 0 <= i < paths.len() && stores(#[trigger] outcomes[i])
        implies asset_key(cache, paths[failed]) != asset_key(cache, paths[i]) by {
        if i < failed {
            assert(paths[i] != paths[failed]);
        } else {
            assert(i != failed);
            assert(paths[failed] != paths[i]);
        }
    }
    lemma_installed_other(m, cache, paths, outcomes, asset_key(cache, paths[failed]));
}

/// Seeding a cache that held nothing with N distinct paths of which exactly
/// one fetch fails leaves exactly N - 1 entries in that cache.
pub proof fn install_count_after_one_failure(
    m: Map<EntryKey, ResponseView>,
    cache: Seq<char>,
    paths: Seq<Seq<char>>,
    outcomes: Seq<Option<ResponseView>>,
    failed: int,
)
    requires
        paths.len() == outcomes.len(),
        forall|i: int, j: int| 0 <= i < j < paths.len() ==> paths[i] != paths[j],
        0 <= failed < paths.len(),
        !stores(outcomes[failed]),
        forall|i: int| 0 <= i < paths.len() && i != failed ==> stores(#[trigger] outcomes[i]),
        forall|k: EntryKey| #[trigger] m.contains_key(k) ==> k.0 != cache,
    ensures
        installed(m, cache, paths, outcomes).dom().filter(|k: EntryKey| k.0 == cache).len() == paths.len() - 1,
{
    let res = installed(m, cache, paths, outcomes);
    install_skips_only_the_failure(m, cache, paths, outcomes, failed);
    let rest = paths.remove(failed);
    let keys = rest.map_values(|p: Seq<char>| asset_key(cache, p));
    assert forall|a: int| 0 <= a < rest.len() implies #[trigger] rest[a] == paths[if a < failed { a } else { a + 1 }] by {}
    assert(keys.no_duplicates()) by {
        assert forall|a: int, b: int| 0 <= a < keys.len() && 0 <= b < keys.len() && a != b implies keys[a] != keys[b] by {
            let ia = if a < failed { a } else { a + 1 };
            let ib = if b < failed { b } else { b + 1 };
            assert(rest[a] == paths[ia]);
            assert(rest[b] == paths[ib]);
            if ia < ib {
                assert(paths[ia] != paths[ib]);
            } else {
                assert(paths[ib] != paths[ia]);
            }
        }
    }
    keys.unique_seq_to_set();
    let f = res.dom().filter(|k: EntryKey| k.0 == cache);
    assert forall|k: EntryKey| f.contains(k) implies keys.to_set().contains(k) by {
        if forall|i: int| 0 <= i < paths.len() && stores(#[trigger] outcomes[i]) ==> k != asset_key(cache, paths[i]) {
            lemma_installed_other(m, cache, paths, outcomes, k);
        } else {
            let i = choose|i: int| 0 <= i < paths.len() && stores(#[trigger] outcomes[i]) && k == asset_key(cache, paths[i]);
            let a = if i < failed { i } else { i - 1 };
            assert(rest[a] == paths[i]);
            assert(keys[a] == k);
        }
    }
    assert forall|k: EntryKey| keys.to_set().contains(k) implies f.contains(k) by {
        let a = choose|a: int| 0 <= a < keys.len() && keys[a] == k;
        let i = if a < failed { a } else { a + 1 };
        assert(rest[a] == paths[i]);
        assert(res.contains_key(asset_key(cache, paths[i])));
    }
    assert(f =~= keys.to_set());
}

} // verus!
