//! The redirect cache: a fast-path key-value view of the store with
//! per-entry expiry, a sliding refresh, and an availability switch that
//! models a backend outage. Absence is a valid state, never authoritative.

use crate::text::str_eq;
use vstd::prelude::*;

verus! {

/// One cached mapping with its absolute expiry time.
pub struct CacheEntry {
    pub short_url: String,
    pub long_url: String,
    pub expires_at: u64,
}

/// The mathematical content of one cache entry.
pub ghost struct CacheEntryModel {
    pub long_url: Seq<char>,
    pub expires_at: u64,
}

impl CacheEntry {
    /// The entry without its key.
    pub open spec fn model(&self) -> CacheEntryModel {
        CacheEntryModel { long_url: self.long_url@, expires_at: self.expires_at }
    }
}

/// The absolute expiry a write at `now` with the given time-to-live sets,
/// saturating at the clock's width.
pub open spec fn expiry_at(now: u64, ttl: u64) -> u64 {
    if now + ttl <= u64::MAX {
        (now + ttl) as u64
    } else {
        u64::MAX
    }
}

/// The map a sequence of cache entries stands for.
pub open spec fn entries_map(es: Seq<CacheEntry>) -> Map<Seq<char>, CacheEntryModel>
    decreases es.len(),
{
    if es.len() == 0 {
        Map::empty()
    } else {
        entries_map(es.drop_last()).insert(es.last().short_url@, es.last().model())
    }
}

proof fn lemma_entries_map_contains(es: Seq<CacheEntry>, code: Seq<char>)
    ensures
        entries_map(es).contains_key(code) <==> exists|i: int|
            0 <= i < es.len() && es[i].short_url@ == code,
    decreases es.len(),
{
    if es.len() > 0 {
        lemma_entries_map_contains(es.drop_last(), code);
        if es.last().short_url@ == code {
            assert(es[es.len() - 1].short_url@ == code);
        } else if entries_map(es).contains_key(code) {
            let i = choose|i: int| 0 <= i < es.len() - 1 && es.drop_last()[i].short_url@ == code;
            assert(es[i].short_url@ == code);
        } else {
            assert(forall|i: int|
                0 <= i < es.len() - 1 ==> es.drop_last()[i] == #[trigger] es[i]);
        }
    }
}

proof fn lemma_entries_map_value(es: Seq<CacheEntry>, i: int)
    requires
        0 <= i < es.len(),
        forall|j: int, k: int|
            0 <= j < k < es.len() ==> es[j].short_url@ != es[k].short_url@,
    ensures
        entries_map(es).contains_key(es[i].short_url@),
        entries_map(es)[es[i].short_url@] == es[i].model(),
    decreases es.len(),
{
    if i == es.len() - 1 {
        assert(es.last() == es[i]);
    } else {
        assert(forall|j: int|
            0 <= j < es.len() - 1 ==> es.drop_last()[j] == #[trigger] es[j]);
        lemma_entries_map_value(es.drop_last(), i);
        assert(es.last().short_url@ != es[i].short_url@);
    }
}

proof fn lemma_entries_map_update(es: Seq<CacheEntry>, i: int, e: CacheEntry)
    requires
        0 <= i < es.len(),
        forall|j: int, k: int|
            0 <= j < k < es.len() ==> es[j].short_url@ != es[k].short_url@,
        e.short_url@ == es[i].short_url@,
    ensures
        entries_map(es.update(i, e)) == entries_map(es).insert(e.short_url@, e.model()),
    decreases es.len(),
{
    let upd = es.update(i, e);
    if i == es.len() - 1 {
        assert(upd.drop_last() =~= es.drop_last());
        assert(upd.last() == e);
        assert(entries_map(es.drop_last()).insert(es.last().short_url@, es.last().model()).insert(
            e.short_url@,
            e.model(),
        ) =~= entries_map(es.drop_last()).insert(e.short_url@, e.model()));
    } else {
        assert(upd.drop_last() =~= es.drop_last().update(i, e));
        assert(upd.last() == es.last());
        assert(forall|j: int|
            0 <= j < es.len() - 1 ==> es.drop_last()[j] == #[trigger] es[j]);
        lemma_entries_map_update(es.drop_last(), i, e);
        assert(es.last().short_url@ != e.short_url@);
        assert(entries_map(es).insert(e.short_url@, e.model()) =~= entries_map(
            es.drop_last(),
        ).insert(e.short_url@, e.model()).insert(es.last().short_url@, es.last().model()));
    }
}

/// Fast-path cache from short code to destination. The view is the map of
/// entries, expired ones included: expiry is judged against the time each
/// read or write passes in.
pub struct RedirectCache {
    pub available: bool,
    pub entries: Vec<CacheEntry>,
}

impl View for RedirectCache {
    type V = Map<Seq<char>, CacheEntryModel>;

    open spec fn view(&self) -> Map<Seq<char>, CacheEntryModel> {
        entries_map(self.entries@)
    }
}

impl RedirectCache {
    /// Codes are unique: at most one entry per short code.
    pub open spec fn wf(&self) -> bool {
        forall|i: int, j: int|
            0 <= i < j < self.entries@.len() ==> self.entries@[i].short_url@
                != self.entries@[j].short_url@
    }

    /// Whether the cache backend answers at all; when it does not, reads
    /// miss and writes are swallowed.
    pub open spec fn is_available(&self) -> bool {
        self.available
    }

    /// An entry for the code exists and has not expired at `now`.
    pub open spec fn live(&self, code: Seq<char>, now: u64) -> bool {
        self@.contains_key(code) && now < self@[code].expires_at
    }

    /// An empty, answering cache.
    pub fn new() -> (r: Self)
        ensures
            r.wf(),
            r.is_available(),
            r@ == Map::<Seq<char>, CacheEntryModel>::empty(),
    {
        RedirectCache { available: true, entries: Vec::new() }
    }

    /// Turns the backend on or off; entries are kept either way.
    pub fn set_available(&mut self, available: bool)
        ensures
            final(self).entries == old(self).entries,
            final(self)@ == old(self)@,
            final(self).is_available() == available,
            old(self).wf() ==> final(self).wf(),
    {
        self.available = available;
    }

    fn find_index(&self, code: &str) -> (r: Option<usize>)
        ensures
            match r {
                Option::Some(i) => i < self.entries@.len() && self.entries@[
                    i as int
                ].short_url@ == code@,
                Option::None => forall|i: int|
                    0 <= i < self.entries@.len() ==> self.entries@[i].short_url@ != code@,
            },
    {
        let n = self.entries.len();
        let mut i: usize = 0;
        while i < n
            invariant
                i <= n,
                n == self.entries@.len(),
                forall|j: int| 0 <= j < i ==> self.entries@[j].short_url@ != code@,
            decreases n - i,
        {
            if str_eq(self.entries[i].short_url.as_str(), code) {
                return Some(i);
            }
            i = i + 1;
        }
        None
    }

    /// The cached destination for a code, or nothing on a miss: no entry,
    /// an expired entry, or an unavailable backend all read the same.
    pub fn get(&self, code: &str, now: u64) -> (r: Option<String>)
        requires
            self.wf(),
        ensures
            match r {
                Option::Some(v) => self.is_available() && self.live(code@, now) && v@ == self@[
                    code@
                ].long_url,
                Option::None => !(self.is_available() && self.live(code@, now)),
            },
    {
        if !self.available {
            return None;
        }
        proof {
            lemma_entries_map_contains(self.entries@, code@);
        }
        match self.find_index(code) {
            Option::Some(i) => {
                proof {
                    lemma_entries_map_value(self.entries@, i as int);
                }
                if now < self.entries[i].expires_at {
                    Some(self.entries[i].long_url.clone())
                } else {
                    None
                }
            },
            Option::None => None,
        }
    }

    /// Unconditionally overwrites the entry for a code and resets its
    /// expiry; swallowed when the backend is unavailable.
    pub fn set_with_expiry(&mut self, code: &str, long_url: &str, ttl_seconds: u64, now: u64)
        requires
            old(self).wf(),
        ensures
            final(self).wf(),
            final(self).is_available() == old(self).is_available(),
            final(self)@ == if old(self).is_available() {
                old(self)@.insert(
                    code@,
                    CacheEntryModel { long_url: long_url@, expires_at: expiry_at(now, ttl_seconds) },
                )
            } else {
                old(self)@
            },
    {
        if !self.available {
            return ;
        }
        let expires_at: u64 = if now <= u64::MAX - ttl_seconds {
            now + ttl_seconds
        } else {
            u64::MAX
        };
        let entry = CacheEntry { short_url: code.to_owned(), long_url: long_url.to_owned(), expires_at };
        match self.find_index(code) {
            Option::Some(i) => {
                self.entries[i] = entry;
                proof {
                    lemma_entries_map_update(
                        old(self).entries@,
                        i as int,
                        self.entries@[i as int],
                    );
                }
            },
            Option::None => {
                self.entries.push(entry);
                proof {
                    assert(self.entries@.drop_last() =~= old(self).entries@);
                }
            },
        }
    }

    /// Extends the lifetime of a live entry without changing its value —
    /// the sliding-window retention on cache hits. A no-op on a missing
    /// or expired entry, or when the backend is unavailable.
    pub fn refresh_expiry(&mut self, code: &str, ttl_seconds: u64, now: u64)
        requires
            old(self).wf(),
        ensures
            final(self).wf(),
            final(self).is_available() == old(self).is_available(),
            final(self)@ == if old(self).is_available() && old(self).live(code@, now) {
                old(self)@.insert(
                    code@,
                    CacheEntryModel {
                        long_url: old(self)@[code@].long_url,
                        expires_at: expiry_at(now, ttl_seconds),
                    },
                )
            } else {
                old(self)@
            },
    {
        if !self.available {
            return ;
        }
        proof {
            lemma_entries_map_contains(self.entries@, code@);
        }
        match self.find_index(code) {
            Option::Some(i) => {
                proof {
                    lemma_entries_map_value(self.entries@, i as int);
                }
                if now < self.entries[i].expires_at {
                    let expires_at: u64 = if now <= u64::MAX - ttl_seconds {
                        now + ttl_seconds
                    } else {
                        u64::MAX
                    };
                    let entry = CacheEntry {
                        short_url: self.entries[i].short_url.clone(),
                        long_url: self.entries[i].long_url.clone(),
                        expires_at,
                    };
                    self.entries[i] = entry;
                    proof {
                        lemma_entries_map_update(
                            old(self).entries@,
                            i as int,
                            self.entries@[i as int],
                        );
                    }
                }
            },
            Option::None => {},
        }
    }

    /// The expiry recorded for a code, or nothing when no entry exists.
    pub fn expiry_of(&self, code: &str) -> (r: Option<u64>)
        requires
            self.wf(),
        ensures
            match r {
                Option::Some(t) => self@.contains_key(code@) && t == self@[code@].expires_at,
                Option::None => !self@.contains_key(code@),
            },
    {
        proof {
            lemma_entries_map_contains(self.entries@, code@);
        }
        match self.find_index(code) {
            Option::Some(i) => {
                proof {
                    lemma_entries_map_value(self.entries@, i as int);
                }
                Some(self.entries[i].expires_at)
            },
            Option::None => None,
        }
    }
}

} // verus!
