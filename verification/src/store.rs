//! The durable URL store: a key-value mapping from short code to record,
//! with idempotent insertion, availability and lookup queries, and an
//! atomic click-count increment.

use crate::text::str_eq;
use vstd::prelude::*;

verus! {

/// A persisted short-URL record: the code, its destination, the click
/// counter and the creation time.
pub struct ShortUrlRecord {
    pub short_url: String,
    pub long_url: String,
    pub click_count: u64,
    pub created_at: u64,
}

/// The mathematical content of one record, keyed elsewhere by its code.
pub ghost struct UrlRecordModel {
    pub long_url: Seq<char>,
    pub click_count: u64,
    pub created_at: u64,
}

impl ShortUrlRecord {
    /// The record without its key.
    pub open spec fn model(&self) -> UrlRecordModel {
        UrlRecordModel {
            long_url: self.long_url@,
            click_count: self.click_count,
            created_at: self.created_at,
        }
    }
}

/// The map a sequence of records stands for; a well-formed store never
/// repeats a code, so each key has one record.
pub open spec fn records_map(rs: Seq<ShortUrlRecord>) -> Map<Seq<char>, UrlRecordModel>
    decreases rs.len(),
{
    if rs.len() == 0 {
        Map::empty()
    } else {
        records_map(rs.drop_last()).insert(rs.last().short_url@, rs.last().model())
    }
}

proof fn lemma_records_map_contains(rs: Seq<ShortUrlRecord>, code: Seq<char>)
    ensures
        records_map(rs).contains_key(code) <==> exists|i: int|
            0 <= i < rs.len() && rs[i].short_url@ == code,
    decreases rs.len(),
{
    if rs.len() > 0 {
        lemma_records_map_contains(rs.drop_last(), code);
        if rs.last().short_url@ == code {
            assert(rs[rs.len() - 1].short_url@ == code);
        } else if records_map(rs).contains_key(code) {
            let i = choose|i: int| 0 <= i < rs.len() - 1 && rs.drop_last()[i].short_url@ == code;
            assert(rs[i].short_url@ == code);
        } else {
            assert(forall|i: int|
                0 <= i < rs.len() - 1 ==> rs.drop_last()[i] == #[trigger] rs[i]);
        }
    }
}

proof fn lemma_records_map_value(rs: Seq<ShortUrlRecord>, i: int)
    requires
        0 <= i < rs.len(),
        forall|j: int, k: int|
            0 <= j < k < rs.len() ==> rs[j].short_url@ != rs[k].short_url@,
    ensures
        records_map(rs).contains_key(rs[i].short_url@),
        records_map(rs)[rs[i].short_url@] == rs[i].model(),
    decreases rs.len(),
{
    if i == rs.len() - 1 {
        assert(rs.last() == rs[i]);
    } else {
        assert(forall|j: int|
            0 <= j < rs.len() - 1 ==> rs.drop_last()[j] == #[trigger] rs[j]);
        lemma_records_map_value(rs.drop_last(), i);
        assert(rs.last().short_url@ != rs[i].short_url@);
    }
}

/// Durable key-value store of short URLs. The view is the map from short
/// code to record content.
pub struct UrlStore {
    pub records: Vec<ShortUrlRecord>,
}

impl View for UrlStore {
    type V = Map<Seq<char>, UrlRecordModel>;

    open spec fn view(&self) -> Map<Seq<char>, UrlRecordModel> {
        records_map(self.records@)
    }
}

impl UrlStore {
    /// Codes are unique: at most one record per short code.
    pub open spec fn wf(&self) -> bool {
        forall|i: int, j: int|
            0 <= i < j < self.records@.len() ==> self.records@[i].short_url@
                != self.records@[j].short_url@
    }

    /// An empty store.
    pub fn new() -> (r: Self)
        ensures
            r.wf(),
            r@ == Map::<Seq<char>, UrlRecordModel>::empty(),
    {
        UrlStore { records: Vec::new() }
    }

    fn find_index(&self, code: &str) -> (r: Option<usize>)
        ensures
            match r {
                Option::Some(i) => i < self.records@.len() && self.records@[
                    i as int
                ].short_url@ == code@,
                Option::None => forall|i: int|
                    0 <= i < self.records@.len() ==> self.records@[i].short_url@ != code@,
            },
    {
        let n = self.records.len();
        let mut i: usize = 0;
        while i < n
            invariant
                i <= n,
                n == self.records@.len(),
                forall|j: int| 0 <= j < i ==> self.records@[j].short_url@ != code@,
            decreases n - i,
        {
            if str_eq(self.records[i].short_url.as_str(), code) {
                return Some(i);
            }
            i = i + 1;
        }
        None
    }

    /// True iff no record exists for the given code.
    pub fn is_alias_available(&self, alias: &str) -> (r: bool)
        ensures
            r == !self@.contains_key(alias@),
    {
        proof {
            lemma_records_map_contains(self.records@, alias@);
        }
        match self.find_index(alias) {
            Option::Some(_) => false,
            Option::None => true,
        }
    }

    /// Idempotent insert: adds a record with zero clicks, created now;
    /// a duplicate code leaves the store unchanged, not an error.
    pub fn insert(&mut self, long_url: &str, short_url: &str, now: u64)
        requires
            old(self).wf(),
        ensures
            final(self).wf(),
            final(self)@ == if old(self)@.contains_key(short_url@) {
                old(self)@
            } else {
                old(self)@.insert(
                    short_url@,
                    UrlRecordModel { long_url: long_url@, click_count: 0, created_at: now },
                )
            },
    {
        proof {
            lemma_records_map_contains(self.records@, short_url@);
        }
        match self.find_index(short_url) {
            Option::Some(_) => {},
            Option::None => {
                let record = ShortUrlRecord {
                    short_url: short_url.to_owned(),
                    long_url: long_url.to_owned(),
                    click_count: 0,
                    created_at: now,
                };
                self.records.push(record);
                proof {
                    assert(self.records@.drop_last() =~= old(self).records@);
                }
            },
        }
    }

    /// The destination mapped to a code, or nothing when the code is
    /// unknown — absence is a valid result, not an error.
    pub fn lookup(&self, short_url: &str) -> (r: Option<String>)
        requires
            self.wf(),
        ensures
            match r {
                Option::Some(u) => self@.contains_key(short_url@) && u@ == self@[
                    short_url@
                ].long_url,
                Option::None => !self@.contains_key(short_url@),
            },
    {
        proof {
            lemma_records_map_contains(self.records@, short_url@);
        }
        match self.find_index(short_url) {
            Option::Some(i) => {
                proof {
                    lemma_records_map_value(self.records@, i as int);
                }
                Some(self.records[i].long_url.clone())
            },
            Option::None => None,
        }
    }

    /// The click counter of a code, or nothing when the code is unknown.
    pub fn click_count_of(&self, short_url: &str) -> (r: Option<u64>)
        requires
            self.wf(),
        ensures
            match r {
                Option::Some(n) => self@.contains_key(short_url@) && n == self@[
                    short_url@
                ].click_count,
                Option::None => !self@.contains_key(short_url@),
            },
    {
        proof {
            lemma_records_map_contains(self.records@, short_url@);
        }
        match self.find_index(short_url) {
            Option::Some(i) => {
                proof {
                    lemma_records_map_value(self.records@, i as int);
                }
                Some(self.records[i].click_count)
            },
            Option::None => None,
        }
    }

    /// Atomically increments the click counter of an existing record,
    /// saturating at the counter's width; a no-op when the code is
    /// unknown, not an error.
    pub fn increment_click_count(&mut self, short_url: &str)
        requires
            old(self).wf(),
        ensures
            final(self).wf(),
            final(self)@ == if old(self)@.contains_key(short_url@) {
                old(self)@.insert(
                    short_url@,
                    UrlRecordModel {
                        long_url: old(self)@[short_url@].long_url,
                        click_count: if old(self)@[short_url@].click_count < u64::MAX {
                            (old(self)@[short_url@].click_count + 1) as u64
                        } else {
                            old(self)@[short_url@].click_count
                        },
                        created_at: old(self)@[short_url@].created_at,
                    },
                )
            } else {
                old(self)@
            },
    {
        proof {
            lemma_records_map_contains(self.records@, short_url@);
        }
        match self.find_index(short_url) {
            Option::Some(i) => {
                proof {
                    lemma_records_map_value(self.records@, i as int);
                }
                let old_count = self.records[i].click_count;
                let new_count: u64 = if old_count < u64::MAX {
                    old_count + 1
                } else {
                    old_count
                };
                let updated = ShortUrlRecord {
                    short_url: self.records[i].short_url.clone(),
                    long_url: self.records[i].long_url.clone(),
                    click_count: new_count,
                    created_at: self.records[i].created_at,
                };
                self.records[i] = updated;
                proof {
                    lemma_records_map_update(old(self).records@, i as int, self.records@[i as int]);
                }
            },
            Option::None => {},
        }
    }
}

proof fn lemma_records_map_update(rs: Seq<ShortUrlRecord>, i: int, r: ShortUrlRecord)
    requires
        0 <= i < rs.len(),
        forall|j: int, k: int|
            0 <= j < k < rs.len() ==> rs[j].short_url@ != rs[k].short_url@,
        r.short_url@ == rs[i].short_url@,
    ensures
        records_map(rs.update(i, r)) == records_map(rs).insert(r.short_url@, r.model()),
    decreases rs.len(),
{
    let upd = rs.update(i, r);
    if i == rs.len() - 1 {
        assert(upd.drop_last() =~= rs.drop_last());
        assert(upd.last() == r);
        assert(records_map(upd) == records_map(rs.drop_last()).insert(r.short_url@, r.model()));
        assert(records_map(rs.drop_last()).insert(rs.last().short_url@, rs.last().model()).insert(
            r.short_url@,
            r.model(),
        ) =~= records_map(rs.drop_last()).insert(r.short_url@, r.model()));
    } else {
        assert(upd.drop_last() =~= rs.drop_last().update(i, r));
        assert(upd.last() == rs.last());
        assert(forall|j: int|
            0 <= j < rs.len() - 1 ==> rs.drop_last()[j] == #[trigger] rs[j]);
        lemma_records_map_update(rs.drop_last(), i, r);
        assert(rs.last().short_url@ != r.short_url@);
        assert(records_map(rs).insert(r.short_url@, r.model()) =~= records_map(
            rs.drop_last(),
        ).insert(r.short_url@, r.model()).insert(rs.last().short_url@, rs.last().model()));
    }
}

} // verus!
