//! TTL caching layer.
//!
//! `CacheTable` is the pure store: a key-value table in which every entry
//! remembers when it was inserted, and a lookup at time `now` sees only
//! entries younger than the time-to-live.  Its contracts pin the behaviour
//! exactly, and the laws at the end of this module state the set-then-get
//! guarantees.
//!
//! `Cache` and `PersistentCache` wrap one shared, lock-protected table so
//! that clones of a provider client observe the same cache state.  Under
//! shared mutation a per-handle contract cannot pin the value a later call
//! returns — another handle may write in between — so the exact semantics
//! live on `CacheTable`, which the handles use under their lock.

use std::sync::Arc;

use vstd::pervasive::cloned;
use vstd::prelude::*;
use vstd::rwlock::{RwLock, RwLockPredicate};
use vstd::seq_lib::*;

use crate::seqs::{distinct_by, lemma_filter_all, lemma_filter_distinct_by, lemma_remove_only_match};
use crate::text::str_eq;

verus! {

/// One stored entry: the lookup key, the insertion time in seconds, and
/// the cached value.
pub struct CacheEntry<T> {
    pub key: String,
    pub inserted_at: u64,
    pub value: T,
}

/// The pure key-value store with lazy, read-time expiration.
pub struct CacheTable<T> {
    entries: Vec<CacheEntry<T>>,
    ttl_secs: u64,
}

impl<T> View for CacheTable<T> {
    type V = Seq<(Seq<char>, u64, T)>;

    closed spec fn view(&self) -> Seq<(Seq<char>, u64, T)> {
        self.entries@.map_values(|e: CacheEntry<T>| (e.key@, e.inserted_at, e.value))
    }
}

/// An entry inserted at `inserted_at` is still visible at `now`.  A clock
/// that moved backwards counts as age zero rather than as a huge age.
pub open spec fn spec_fresh(inserted_at: u64, now: u64, ttl: u64) -> bool {
    (if now >= inserted_at {
        now - inserted_at
    } else {
        0
    }) < ttl
}

/// First entry with key `k`, scanning from the front.
pub open spec fn spec_find<T>(s: Seq<(Seq<char>, u64, T)>, k: Seq<char>) -> Option<(u64, T)>
    decreases s.len(),
{
    if s.len() == 0 {
        None
    } else if s.first().0 == k {
        Some((s.first().1, s.first().2))
    } else {
        spec_find(s.drop_first(), k)
    }
}

/// Keeps the entries whose key differs from `k`.
pub open spec fn keep_other<T>(k: Seq<char>) -> spec_fn((Seq<char>, u64, T)) -> bool {
    |e: (Seq<char>, u64, T)| e.0 != k
}

/// Keeps the entries still within the TTL at `now`.
pub open spec fn keep_fresh<T>(now: u64, ttl: u64) -> spec_fn((Seq<char>, u64, T)) -> bool {
    |e: (Seq<char>, u64, T)| spec_fresh(e.1, now, ttl)
}

/// All entries whose key differs from `k`.
pub open spec fn spec_remove_key<T>(s: Seq<(Seq<char>, u64, T)>, k: Seq<char>) -> Seq<
    (Seq<char>, u64, T),
> {
    s.filter(keep_other(k))
}

/// What `set` does to the store: the key's old entry goes, the new one
/// comes in with the insertion time reset.
pub open spec fn spec_insert<T>(
    s: Seq<(Seq<char>, u64, T)>,
    k: Seq<char>,
    now: u64,
    v: T,
) -> Seq<(Seq<char>, u64, T)> {
    spec_remove_key(s, k).push((k, now, v))
}

/// What `get` returns at time `now`: the stored value if its entry is
/// within the TTL, absent otherwise.
pub open spec fn spec_lookup<T>(
    s: Seq<(Seq<char>, u64, T)>,
    k: Seq<char>,
    now: u64,
    ttl: u64,
) -> Option<T> {
    match spec_find(s, k) {
        Some((t, v)) => if spec_fresh(t, now, ttl) {
            Some(v)
        } else {
            None
        },
        None => None,
    }
}

proof fn lemma_find_at<T>(s: Seq<(Seq<char>, u64, T)>, k: Seq<char>, i: int)
    requires
        0 <= i < s.len(),
        s[i].0 == k,
        forall|j: int| 0 <= j < i ==> s[j].0 != k,
    ensures
        spec_find(s, k) == Some((s[i].1, s[i].2)),
    decreases i,
{
    if i > 0 {
        lemma_find_at(s.drop_first(), k, i - 1);
    }
}

proof fn lemma_find_none<T>(s: Seq<(Seq<char>, u64, T)>, k: Seq<char>)
    requires
        forall|j: int| 0 <= j < s.len() ==> s[j].0 != k,
    ensures
        spec_find(s, k) is None,
    decreases s.len(),
{
    if s.len() > 0 {
        lemma_find_none(s.drop_first(), k);
    }
}

proof fn lemma_find_push_match<T>(s: Seq<(Seq<char>, u64, T)>, k: Seq<char>, t: u64, v: T)
    requires
        forall|j: int| 0 <= j < s.len() ==> s[j].0 != k,
    ensures
        spec_find(s.push((k, t, v)), k) == Some((t, v)),
    decreases s.len(),
{
    if s.len() == 0 {
        assert(s.push((k, t, v)).first() == (k, t, v));
    } else {
        assert(s.push((k, t, v)).drop_first() =~= s.drop_first().push((k, t, v)));
        lemma_find_push_match(s.drop_first(), k, t, v);
    }
}

impl<T> CacheTable<T> {
    /// Keys occur at most once.
    pub open spec fn wf(&self) -> bool {
        distinct_by(self@, |e: (Seq<char>, u64, T)| e.0)
    }

    /// The configured time-to-live, in seconds.
    pub closed spec fn ttl(&self) -> u64 {
        self.ttl_secs
    }

    pub fn new(ttl_secs: u64) -> (r: Self)
        ensures
            r@ == Seq::<(Seq<char>, u64, T)>::empty(),
            r.wf(),
            r.ttl() == ttl_secs,
    {
        let r = CacheTable { entries: Vec::new(), ttl_secs };
        proof {
            assert(r@ =~= Seq::<(Seq<char>, u64, T)>::empty());
        }
        r
    }

    pub fn ttl_secs(&self) -> (r: u64)
        ensures
            r == self.ttl(),
    {
        self.ttl_secs
    }

    pub fn len(&self) -> (r: usize)
        ensures
            r == self@.len(),
    {
        self.entries.len()
    }

    fn find_index(&self, key: &str) -> (r: Option<usize>)
        ensures
            match r {
                Some(i) => i < self@.len() && self@[i as int].0 == key@ && (forall|j: int|
                    0 <= j < i ==> self@[j].0 != key@),
                None => forall|j: int| 0 <= j < self@.len() ==> self@[j].0 != key@,
            },
    {
        let n = self.entries.len();
        let mut i: usize = 0;
        while i < n
            invariant
                i <= n,
                n == self@.len(),
                n == self.entries@.len(),
                forall|j: int| 0 <= j < i ==> self@[j].0 != key@,
            decreases n - i,
        {
            if str_eq(self.entries[i].key.as_str(), key) {
                return Some(i);
            }
            i = i + 1;
        }
        None
    }

    /// Returns the value cached under `key` if it was inserted within the
    /// TTL before `now`; an older entry is ignored, not deleted.
    pub fn lookup(&self, key: &str, now: u64) -> (r: Option<&T>)
        requires
            self.wf(),
        ensures
            match r {
                Some(v) => spec_lookup(self@, key@, now, self.ttl()) == Some(*v),
                None => spec_lookup(self@, key@, now, self.ttl()) is None,
            },
    {
        match self.find_index(key) {
            Some(i) => {
                proof {
                    lemma_find_at(self@, key@, i as int);
                }
                let ins = self.entries[i].inserted_at;
                let age = if now >= ins {
                    now - ins
                } else {
                    0
                };
                if age < self.ttl_secs {
                    Some(&self.entries[i].value)
                } else {
                    None
                }
            },
            None => {
                proof {
                    lemma_find_none(self@, key@);
                }
                None
            },
        }
    }

    /// Unconditionally overwrites `key` with `value`, resetting the
    /// insertion time to `now`.
    pub fn insert(&mut self, key: String, value: T, now: u64)
        requires
            old(self).wf(),
        ensures
            final(self)@ == spec_insert(old(self)@, key@, now, value),
            final(self).wf(),
            final(self).ttl() == old(self).ttl(),
    {
        let ghost oldv = self@;
        let ghost keep = keep_other::<T>(key@);
        let ghost proj = |e: (Seq<char>, u64, T)| e.0;
        let found = self.find_index(key.as_str());
        match found {
            Some(i) => {
                proof {
                    assert forall|j: int| 0 <= j < oldv.len() && j != i implies keep(oldv[j]) by {
                        if j > i {
                            assert(oldv[i as int].0 == key@);
                        }
                    }
                }
                self.entries.remove(i);
                proof {
                    assert(self@ =~= oldv.remove(i as int));
                    lemma_remove_only_match(oldv, i as int, keep);
                }
            },
            None => {
                proof {
                    lemma_filter_all(oldv, keep);
                }
            },
        }
        proof {
            assert(self@ =~= spec_remove_key(oldv, key@));
        }
        let ghost filtered = self@;
        self.entries.push(CacheEntry { key, inserted_at: now, value });
        proof {
            assert(self@ =~= filtered.push((key@, now, value)));
            lemma_filter_distinct_by(oldv, keep, proj);
            assert forall|i: int, j: int| 0 <= i < j < self@.len() implies proj(self@[i]) != proj(
                self@[j],
            ) by {
                if j == self@.len() - 1 {
                    oldv.lemma_filter_pred(keep, i);
                }
            }
        }
    }

    /// Removes exactly the entries whose age at `now` exceeds the TTL and
    /// leaves all others untouched, in order.
    pub fn clear_expired(&mut self, now: u64)
        requires
            old(self).wf(),
        ensures
            final(self)@ == old(self)@.filter(keep_fresh(now, old(self).ttl())),
            final(self).wf(),
            final(self).ttl() == old(self).ttl(),
    {
        let ghost oldv = self@;
        let ghost t = self.ttl_secs;
        let ghost keep = keep_fresh::<T>(now, t);
        let ghost proj = |e: (Seq<char>, u64, T)| e.0;
        let mut i: usize = 0;
        let ghost mut j: int = 0;
        while i < self.entries.len()
            invariant
                0 <= j <= oldv.len(),
                i as int <= self@.len(),
                self.ttl_secs == t,
                self@.len() == self.entries@.len(),
                keep == keep_fresh::<T>(now, t),
                forall|e: (Seq<char>, u64, T)| #[trigger] keep(e) == spec_fresh(e.1, now, t),
                self@.take(i as int) == oldv.take(j).filter(keep),
                self@.skip(i as int) == oldv.skip(j),
            decreases oldv.len() - j,
        {
            proof {
                assert(self@.skip(i as int).len() == self@.len() - i);
                assert(oldv.skip(j).len() == oldv.len() - j);
                assert(j < oldv.len());
                assert(oldv.skip(j)[0] == oldv[j]);
                assert(self@.skip(i as int)[0] == self@[i as int]);
                assert(self@[i as int] == oldv[j]);
                assert(oldv.take(j + 1).drop_last() =~= oldv.take(j));
                assert(oldv.take(j + 1) =~= oldv.take(j).push(oldv[j]));
                oldv.take(j).lemma_filter_push(oldv[j], keep);
            }
            let ins = self.entries[i].inserted_at;
            let age = if now >= ins {
                now - ins
            } else {
                0
            };
            proof {
                assert(self@[i as int].1 == self.entries@[i as int].inserted_at);
                assert(oldv[j].1 == ins);
            }
            if age < self.ttl_secs {
                proof {
                    assert(spec_fresh(oldv[j].1, now, t));
                    assert(keep(oldv[j]));
                    assert(self@.take(i + 1) =~= self@.take(i as int).push(self@[i as int]));
                    assert(self@.take(i + 1) == oldv.take(j + 1).filter(keep));
                    assert(self@.skip(i as int).drop_first() =~= self@.skip(i + 1));
                    assert(oldv.skip(j).drop_first() =~= oldv.skip(j + 1));
                    assert(self@.skip(i + 1) == oldv.skip(j + 1));
                }
                i = i + 1;
            } else {
                let ghost prev = self@;
                self.entries.remove(i);
                proof {
                    assert(!spec_fresh(oldv[j].1, now, t));
                    assert(!keep(oldv[j]));
                    assert(self@ =~= prev.remove(i as int));
                    assert(self@.take(i as int) =~= prev.take(i as int));
                    assert(self@.take(i as int) == oldv.take(j + 1).filter(keep));
                    assert(prev.skip(i as int).drop_first() =~= prev.skip(i + 1));
                    assert(oldv.skip(j).drop_first() =~= oldv.skip(j + 1));
                    assert(self@.skip(i as int) =~= prev.skip(i + 1));
                    assert(self@.skip(i as int) == oldv.skip(j + 1));
                }
            }
            proof {
                j = j + 1;
            }
        }
        proof {
            assert(self@.skip(i as int).len() == 0);
            assert(oldv.skip(j).len() == 0);
            assert(j == oldv.len());
            assert(oldv.take(j) =~= oldv);
            assert(self@.take(i as int) =~= self@);
            lemma_filter_distinct_by(oldv, keep, proj);
        }
    }
}

impl<T: Clone> CacheTable<T> {
    /// A copy of the whole store, for snapshot persistence.
    pub fn export(&self) -> (r: Vec<CacheEntry<T>>)
        ensures
            r@.len() == self@.len(),
            forall|i: int|
                0 <= i < r@.len() ==> #[trigger] r@[i].key@ == self@[i].0 && r@[i].inserted_at
                    == self@[i].1 && cloned::<T>(self@[i].2, r@[i].value),
    {
        let n = self.entries.len();
        let mut out: Vec<CacheEntry<T>> = Vec::new();
        let mut i: usize = 0;
        while i < n
            invariant
                i <= n,
                n == self@.len(),
                n == self.entries@.len(),
                out@.len() == i,
                forall|k: int|
                    0 <= k < i ==> #[trigger] out@[k].key@ == self@[k].0 && out@[k].inserted_at
                        == self@[k].1 && cloned::<T>(self@[k].2, out@[k].value),
            decreases n - i,
        {
            let e = &self.entries[i];
            out.push(CacheEntry { key: e.key.clone(), inserted_at: e.inserted_at, value: e.value.clone() });
            i = i + 1;
        }
        out
    }

    /// Rebuilds a store from exported entries; earlier entries of a key
    /// win, as in a snapshot that was written from a unique-key table.
    pub fn from_entries(mut entries: Vec<CacheEntry<T>>, ttl_secs: u64) -> (r: Self)
        ensures
            r@ == spec_restore(entries@),
            r.wf(),
            r.ttl() == ttl_secs,
    {
        let ghost orig = entries@;
        let mut table = CacheTable::new(ttl_secs);
        proof {
            assert(orig.skip(orig.len() as int) =~= Seq::<CacheEntry<T>>::empty());
            assert(orig.take(orig.len() as int) =~= orig);
        }
        while entries.len() > 0
            invariant
                table.wf(),
                table.ttl() == ttl_secs,
                entries@.len() <= orig.len(),
                entries@ == orig.take(entries@.len() as int),
                table@ == spec_restore(orig.skip(entries@.len() as int)),
            decreases entries@.len(),
        {
            let ghost m = entries@.len() as int;
            let next = entries.pop();
            match next {
                Some(e) => {
                    proof {
                        assert(1 <= m <= orig.len());
                        assert(e == orig.take(m)[m - 1]);
                        assert(e == orig[m - 1]);
                        assert(entries@ =~= orig.take(m - 1));
                        assert(orig.skip(m - 1).drop_first() =~= orig.skip(m));
                        assert(orig.skip(m - 1).first() == orig[m - 1]);
                    }
                    table.insert(e.key, e.value, e.inserted_at);
                },
                None => {},
            }
        }
        proof {
            assert(orig.skip(0) =~= orig);
        }
        table
    }
}

/// The store a snapshot rebuilds to: its entries inserted back to
/// front, so the front-most entry of a key wins.
pub open spec fn spec_restore<T>(s: Seq<CacheEntry<T>>) -> Seq<(Seq<char>, u64, T)>
    decreases s.len(),
{
    if s.len() == 0 {
        Seq::empty()
    } else {
        spec_insert(spec_restore(s.drop_first()), s.first().key@, s.first().inserted_at, s.first().value)
    }
}

/// Law: a `set` at time `t_set` followed by a `get` of the same key at any
/// `t_get` within the TTL returns exactly the value that was set.
pub proof fn lemma_set_then_get_fresh<T>(
    s: Seq<(Seq<char>, u64, T)>,
    k: Seq<char>,
    v: T,
    t_set: u64,
    t_get: u64,
    ttl: u64,
)
    requires
        t_set <= t_get,
        t_get - t_set < ttl,
    ensures
        spec_lookup(spec_insert(s, k, t_set, v), k, t_get, ttl) == Some(v),
{
    let f = spec_remove_key(s, k);
    assert forall|j: int| 0 <= j < f.len() implies f[j].0 != k by {
        s.lemma_filter_pred(keep_other(k), j);
    }
    lemma_find_push_match(f, k, t_set, v);
}

/// Law: a `set` at time `t_set` followed by a `get` of the same key once
/// the TTL has passed behaves as a miss.
pub proof fn lemma_set_then_get_expired<T>(
    s: Seq<(Seq<char>, u64, T)>,
    k: Seq<char>,
    v: T,
    t_set: u64,
    t_get: u64,
    ttl: u64,
)
    requires
        t_set <= t_get,
        t_get - t_set >= ttl,
    ensures
        spec_lookup(spec_insert(s, k, t_set, v), k, t_get, ttl) is None,
{
    let f = spec_remove_key(s, k);
    assert forall|j: int| 0 <= j < f.len() implies f[j].0 != k by {
        s.lemma_filter_pred(keep_other(k), j);
    }
    lemma_find_push_match(f, k, t_set, v);
}

/// Seconds since the Unix epoch, or zero if the system clock is before it.
///
/// Relies on `std::time::SystemTime::now` read through
/// `duration_since(UNIX_EPOCH)` and `Duration::as_secs`; the result
/// depends on the wall clock, so nothing is promised of it.
#[verifier::external_body]
pub fn current_timestamp() -> u64 {
    std::time::SystemTime::now()
        .duration_since(std::time::UNIX_EPOCH)
        .map(|d| d.as_secs())
        .unwrap_or(0)
}

/// The lock invariant of a shared cache: the table keeps its keys unique.
pub struct TableInv;

impl<T> RwLockPredicate<CacheTable<T>> for TableInv {
    open spec fn inv(self, v: CacheTable<T>) -> bool {
        v.wf()
    }
}

/// A shared handle to one lock-protected `CacheTable`.  Clones observe the
/// same underlying state, so any number of provider tasks can consult and
/// fill one cache; the reader/writer lock serialises writers.
///
/// The value a `get` through a shared handle returns cannot be pinned in a
/// contract — another handle may have written between any two calls — so
/// the exact set/get semantics are stated and proved on `CacheTable`.
#[derive(Clone)]
pub struct Cache<T: Clone> {
    inner: Arc<RwLock<CacheTable<T>, TableInv>>,
}

impl<T: Clone> Cache<T> {
    /// A fresh, empty cache with the given time-to-live in seconds.
    pub fn new(ttl_secs: u64) -> Self {
        Cache { inner: Arc::new(RwLock::new(CacheTable::new(ttl_secs), Ghost(TableInv))) }
    }

    /// A clone of the value cached under `key`, if one was set within the
    /// TTL; expired entries are ignored, not deleted.
    pub fn get(&self, key: &str) -> Option<T> {
        let lock = &*self.inner;
        let guard = lock.acquire_read();
        let now = current_timestamp();
        let r = match guard.borrow().lookup(key, now) {
            Some(v) => Some(v.clone()),
            None => None,
        };
        guard.release_read();
        r
    }

    /// Overwrites `key` with `value`, resetting its insertion time.
    pub fn set(&self, key: String, value: T) {
        let now = current_timestamp();
        let lock = &*self.inner;
        let (mut table, guard) = lock.acquire_write();
        table.insert(key, value, now);
        guard.release_write(table);
    }

    /// Sweeps out every entry older than the TTL.
    pub fn clear_expired(&self) {
        let now = current_timestamp();
        let lock = &*self.inner;
        let (mut table, guard) = lock.acquire_write();
        table.clear_expired(now);
        guard.release_write(table);
    }

    /// Number of entries held, expired ones included.
    pub fn len(&self) -> usize {
        let lock = &*self.inner;
        let guard = lock.acquire_read();
        let n = guard.borrow().len();
        guard.release_read();
        n
    }
}

/// A shared cache whose insertion times are wall-clock Unix seconds, so a
/// snapshot written to disk stays valid across restarts.  The store itself
/// never touches a file: the caller restores a loaded snapshot once at
/// start-up and exports one after each mutation.
#[derive(Clone)]
pub struct PersistentCache<T: Clone> {
    inner: Arc<RwLock<CacheTable<T>, TableInv>>,
}

impl<T: Clone> PersistentCache<T> {
    /// A fresh, empty cache with the given time-to-live in seconds.
    pub fn new(ttl_secs: u64) -> Self {
        PersistentCache {
            inner: Arc::new(RwLock::new(CacheTable::new(ttl_secs), Ghost(TableInv))),
        }
    }

    /// A clone of the value cached under `key`, if it is within the TTL.
    pub fn get(&self, key: &str) -> Option<T> {
        let lock = &*self.inner;
        let guard = lock.acquire_read();
        let now = current_timestamp();
        let r = match guard.borrow().lookup(key, now) {
            Some(v) => Some(v.clone()),
            None => None,
        };
        guard.release_read();
        r
    }

    /// Overwrites `key` with `value`.  The caller persists an `export`
    /// afterwards; writing the file is outside the library.
    pub fn set(&self, key: String, value: T) {
        let now = current_timestamp();
        let lock = &*self.inner;
        let (mut table, guard) = lock.acquire_write();
        table.insert(key, value, now);
        guard.release_write(table);
    }

    /// A copy of the whole store, for snapshot persistence.
    pub fn export(&self) -> Vec<CacheEntry<T>> {
        let lock = &*self.inner;
        let guard = lock.acquire_read();
        let out = guard.borrow().export();
        guard.release_read();
        out
    }

    /// Replaces the contents with a snapshot loaded from disk, keeping the
    /// configured TTL.
    pub fn restore(&self, entries: Vec<CacheEntry<T>>) {
        let lock = &*self.inner;
        let (table, guard) = lock.acquire_write();
        let ttl = table.ttl_secs();
        let rebuilt = CacheTable::from_entries(entries, ttl);
        guard.release_write(rebuilt);
    }

    /// Number of entries held, expired ones included.
    pub fn len(&self) -> usize {
        let lock = &*self.inner;
        let guard = lock.acquire_read();
        let n = guard.borrow().len();
        guard.release_read();
        n
    }
}

} // verus!
