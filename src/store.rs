//! An in-memory table of mapping records with the store's primitives:
//! insert, select all, select by code, atomic increment-and-fetch, update by
//! code and delete by code.

use vstd::prelude::*;

use crate::error::StoreFault;
use crate::models::{counted, fresh_record, retargeted, Url, UrlRecord};
use crate::time::Timestamp;

verus! {

/// The table. Rows are kept in insertion order; short codes and ids are
/// unique; ids are issued in increasing order and never reused.
pub struct UrlStore {
    rows: Vec<Url>,
    next_id: u64,
    table: Ghost<Map<Seq<char>, UrlRecord>>,
}

impl View for UrlStore {
    type V = Map<Seq<char>, UrlRecord>;

    /// The stored records, keyed by short code.
    closed spec fn view(&self) -> Map<Seq<char>, UrlRecord> {
        self.table@
    }
}

impl UrlStore {
    pub closed spec fn wf(&self) -> bool {
        &&& forall|i: int, j: int|
            0 <= i < j < self.rows.len() ==> self.rows[i].short_code@ != self.rows[j].short_code@
                && self.rows[i].id != self.rows[j].id
        &&& forall|i: int|
            0 <= i < self.rows.len() ==> #[trigger] self.rows[i].id < self.next_id
                && self.table@.contains_key(self.rows[i].short_code@)
                && self.table@[self.rows[i].short_code@] == self.rows[i]@
        &&& forall|c: Seq<char>| #[trigger]
            self.table@.contains_key(c) ==> exists|i: int|
                0 <= i < self.rows.len() && self.rows[i].short_code@ == c
    }

    /// The id that the next successful insert assigns.
    pub closed spec fn next_id(&self) -> u64 {
        self.next_id
    }

    /// The records in the order in which a listing returns them.
    pub closed spec fn listing(&self) -> Seq<UrlRecord> {
        self.rows@.map_values(|u: Url| u@)
    }

    /// An empty table.
    pub fn new() -> (r: UrlStore)
        ensures
            r.wf(),
            r@ == Map::<Seq<char>, UrlRecord>::empty(),
            r.next_id() == 1,
    {
        UrlStore { rows: Vec::new(), next_id: 1, table: Ghost(Map::empty()) }
    }

    proof fn lemma_row_is_record(&self, i: int)
        requires
            self.wf(),
            0 <= i < self.rows.len(),
        ensures
            self@.contains_key(self.rows[i].short_code@),
            self@[self.rows[i].short_code@] == self.rows[i]@,
    {
    }

    /// What the table guarantees of its records: each is filed under its own
    /// short code, each id is below the next id to be issued, and distinct
    /// records have distinct ids.
    pub proof fn lemma_table_facts(&self)
        requires
            self.wf(),
        ensures
            forall|c: Seq<char>| #[trigger] self@.contains_key(c) ==> self@[c].short_code == c
                && self@[c].id < self.next_id(),
            forall|c1: Seq<char>, c2: Seq<char>|
                #[trigger] self@.contains_key(c1) && #[trigger] self@.contains_key(c2) && c1 != c2
                    ==> self@[c1].id != self@[c2].id,
    {
        assert forall|c: Seq<char>| #[trigger] self@.contains_key(c) implies self@[c].short_code == c
            && self@[c].id < self.next_id() by {
            let i = choose|i: int| 0 <= i < self.rows.len() && self.rows[i].short_code@ == c;
            self.lemma_row_is_record(i);
        }
        assert forall|c1: Seq<char>, c2: Seq<char>|
            #[trigger] self@.contains_key(c1) && #[trigger] self@.contains_key(c2) && c1 != c2
                implies self@[c1].id != self@[c2].id by {
            let i = choose|i: int| 0 <= i < self.rows.len() && self.rows[i].short_code@ == c1;
            let j = choose|j: int| 0 <= j < self.rows.len() && self.rows[j].short_code@ == c2;
            self.lemma_row_is_record(i);
            self.lemma_row_is_record(j);
            assert(i != j);
            if i < j {
                assert(self.rows[i].id != self.rows[j].id);
            } else {
                assert(self.rows[j].id != self.rows[i].id);
            }
        }
    }

    /// Whether a record holds `code`.
    pub fn contains_code(&self, code: &String) -> (r: bool)
        requires
            self.wf(),
        ensures
            r == self@.contains_key(code@),
    {
        self.find(code).is_some()
    }

    /// The position of the row holding `code`.
    fn find(&self, code: &String) -> (r: Option<usize>)
        requires
            self.wf(),
        ensures
            match r {
                Some(i) => i < self.rows.len() && self.rows[i as int].short_code@ == code@
                    && self@.contains_key(code@) && self@[code@] == self.rows[i as int]@,
                None => !self@.contains_key(code@),
            },
    {
        let mut i: usize = 0;
        while i < self.rows.len()
            invariant
                self.wf(),
                i <= self.rows.len(),
                forall|j: int| 0 <= j < i ==> self.rows[j].short_code@ != code@,
            decreases self.rows.len() - i,
        {
            if self.rows[i].short_code == *code {
                proof {
                    self.lemma_row_is_record(i as int);
                }
                return Some(i);
            }
            i += 1;
        }
        None
    }

    /// Adds a record for `short_code`, stamped `now`, with a new id.
    /// Fails with `UniqueViolation` when the code is taken, and with `Other`
    /// when the id space is used up; a failed insert changes nothing.
    pub fn insert(&mut self, url: String, short_code: String, now: Timestamp) -> (r: Result<u64, StoreFault>)
        requires
            old(self).wf(),
        ensures
            final(self).wf(),
            old(self)@.contains_key(short_code@) ==> r == Err::<u64, StoreFault>(StoreFault::UniqueViolation),
            !old(self)@.contains_key(short_code@) && old(self).next_id() == u64::MAX ==> r == Err::<u64, StoreFault>(StoreFault::Other),
            !old(self)@.contains_key(short_code@) && old(self).next_id() < u64::MAX ==> r == Ok::<u64, StoreFault>(old(self).next_id()),
            r is Ok ==> final(self)@ == old(self)@.insert(short_code@, fresh_record(old(self).next_id(), url@, short_code@, now))
                && final(self).next_id() == old(self).next_id() + 1,
            r is Err ==> final(self)@ == old(self)@ && final(self).next_id() == old(self).next_id(),
            forall|c: Seq<char>| #[trigger] old(self)@.contains_key(c) ==> old(self)@[c].id < old(self).next_id(),
    {
        proof {
            assert forall|c: Seq<char>| #[trigger] old(self)@.contains_key(c) implies old(self)@[c].id < old(self).next_id() by {
                let i = choose|i: int| 0 <= i < self.rows.len() && self.rows[i].short_code@ == c;
                self.lemma_row_is_record(i);
            }
        }
        if self.find(&short_code).is_some() {
            return Err(StoreFault::UniqueViolation);
        }
        if self.next_id == u64::MAX {
            return Err(StoreFault::Other);
        }
        let id = self.next_id;
        let row = Url { id, url, short_code, created_at: Some(now), updated_at: None, access_count: 0 };
        let ghost rec = row@;
        let ghost old_rows = self.rows@;
        proof {
            assert forall|i: int| 0 <= i < old_rows.len() implies old_rows[i].short_code@ != rec.short_code by {
                self.lemma_row_is_record(i);
            }
        }
        self.table = Ghost(self.table@.insert(rec.short_code, rec));
        self.rows.push(row);
        self.next_id = id + 1;
        proof {
            assert forall|c: Seq<char>| #[trigger] self.table@.contains_key(c) implies exists|i: int|
                0 <= i < self.rows.len() && self.rows[i].short_code@ == c by {
                if c == rec.short_code {
                    assert(self.rows[old_rows.len() as int].short_code@ == c);
                } else {
                    assert(old(self).table@.contains_key(c));
                    let k = choose|k: int| 0 <= k < old_rows.len() && old_rows[k].short_code@ == c;
                    assert(self.rows[k] == old_rows[k]);
                }
            }
        }
        Ok(id)
    }

    /// The record for `code`, if there is one.
    pub fn select_by_code(&self, code: &String) -> (r: Option<Url>)
        requires
            self.wf(),
        ensures
            r is None <==> !self@.contains_key(code@),
            r is Some ==> r->0@ == self@[code@],
    {
        match self.find(code) {
            Some(i) => Some(self.rows[i].duplicate()),
            None => None,
        }
    }

    /// Replaces row `i` by `row`, which keeps its short code and id.
    fn replace_row(&mut self, i: usize, row: Url)
        requires
            old(self).wf(),
            i < old(self).rows.len(),
            row.short_code@ == old(self).rows[i as int].short_code@,
            row.id == old(self).rows[i as int].id,
        ensures
            final(self).wf(),
            final(self)@ == old(self)@.insert(row.short_code@, row@),
            final(self).next_id() == old(self).next_id(),
    {
        let ghost rec = row@;
        let ghost old_rows = self.rows@;
        proof {
            assert forall|j: int| 0 <= j < old_rows.len() && j != i implies old_rows[j].short_code@ != rec.short_code by {
                if j < i {
                    assert(old_rows[j].short_code@ != old_rows[i as int].short_code@);
                } else {
                    assert(old_rows[i as int].short_code@ != old_rows[j].short_code@);
                }
            }
        }
        self.table = Ghost(self.table@.insert(rec.short_code, rec));
        self.rows.set(i, row);
        proof {
            assert forall|c: Seq<char>| #[trigger] self.table@.contains_key(c) implies exists|k: int|
                0 <= k < self.rows.len() && self.rows[k].short_code@ == c by {
                if c == rec.short_code {
                    assert(self.rows[i as int].short_code@ == c);
                } else {
                    assert(old(self).table@.contains_key(c));
                    let k = choose|k: int| 0 <= k < old_rows.len() && old_rows[k].short_code@ == c;
                    assert(self.rows[k].short_code@ == c);
                }
            }
        }
    }

    /// Atomically adds one to the access count of the record for `code` and
    /// returns the record as it is afterwards. Fails with `NoSuchRow` when
    /// there is no such record, and with `Other` when the count is at its
    /// maximum; a failure changes nothing.
    pub fn increment_and_fetch(&mut self, code: &String) -> (r: Result<Url, StoreFault>)
        requires
            old(self).wf(),
        ensures
            final(self).wf(),
            final(self).next_id() == old(self).next_id(),
            !old(self)@.contains_key(code@) ==> r is Err && r->Err_0 == StoreFault::NoSuchRow,
            old(self)@.contains_key(code@) && old(self)@[code@].access_count == u64::MAX ==> r is Err
                && r->Err_0 == StoreFault::Other,
            old(self)@.contains_key(code@) && old(self)@[code@].access_count < u64::MAX ==> r is Ok
                && r->Ok_0@ == counted(old(self)@[code@]),
            r is Ok ==> final(self)@ == old(self)@.insert(code@, r->Ok_0@),
            r is Err ==> final(self)@ == old(self)@,
    {
        match self.find(code) {
            None => Err(StoreFault::NoSuchRow),
            Some(i) => {
                if self.rows[i].access_count == u64::MAX {
                    return Err(StoreFault::Other);
                }
                let mut row = self.rows[i].duplicate();
                row.access_count = row.access_count + 1;
                let out = row.duplicate();
                self.replace_row(i, row);
                Ok(out)
            },
        }
    }

    /// Points the record for `code` at `url` and stamps it `now`. Returns the
    /// number of rows changed: one, or zero (nothing changes) when there is
    /// no such record.
    pub fn update_url_by_code(&mut self, code: &String, url: String, now: Timestamp) -> (r: u64)
        requires
            old(self).wf(),
        ensures
            final(self).wf(),
            final(self).next_id() == old(self).next_id(),
            r == (if old(self)@.contains_key(code@) { 1u64 } else { 0u64 }),
            r == 1 ==> final(self)@ == old(self)@.insert(code@, retargeted(old(self)@[code@], url@, now)),
            r == 0 ==> final(self)@ == old(self)@,
    {
        match self.find(code) {
            None => 0,
            Some(i) => {
                let mut row = self.rows[i].duplicate();
                row.url = url;
                row.updated_at = Some(now);
                self.replace_row(i, row);
                1
            },
        }
    }

    /// Removes the record for `code`. Returns the number of rows removed:
    /// one, or zero (nothing changes) when there is no such record.
    pub fn delete_by_code(&mut self, code: &String) -> (r: u64)
        requires
            old(self).wf(),
        ensures
            final(self).wf(),
            final(self).next_id() == old(self).next_id(),
            r == (if old(self)@.contains_key(code@) { 1u64 } else { 0u64 }),
            r == 1 ==> final(self)@ == old(self)@.remove(code@),
            r == 0 ==> final(self)@ == old(self)@,
    {
        match self.find(code) {
            None => 0,
            Some(i) => {
                let ghost old_rows = self.rows@;
                proof {
                    assert forall|j: int| 0 <= j < old_rows.len() && j != i implies
                        old_rows[j].short_code@ != code@ by {
                        if j < i {
                            assert(old_rows[j].short_code@ != old_rows[i as int].short_code@);
                        } else {
                            assert(old_rows[i as int].short_code@ != old_rows[j].short_code@);
                        }
                    }
                }
                self.table = Ghost(self.table@.remove(code@));
                self.rows.remove(i);
                proof {
                    assert forall|j: int| 0 <= j < self.rows.len() implies
                        #[trigger] self.rows[j] == old_rows[if j < i { j } else { j + 1 }] by {
                    }
                    assert forall|c: Seq<char>| #[trigger] self.table@.contains_key(c) implies exists|k: int|
                        0 <= k < self.rows.len() && self.rows[k].short_code@ == c by {
                        assert(old(self).table@.contains_key(c));
                        let k = choose|k: int| 0 <= k < old_rows.len() && old_rows[k].short_code@ == c;
                        if k < i {
                            assert(self.rows[k].short_code@ == c);
                        } else {
                            assert(k != i);
                            assert(self.rows[k - 1].short_code@ == c);
                        }
                    }
                    assert forall|a: int, b: int| 0 <= a < b < self.rows.len() implies
                        self.rows[a].short_code@ != self.rows[b].short_code@ && self.rows[a].id != self.rows[b].id by {
                        let a0 = if a < i { a } else { a + 1 };
                        let b0 = if b < i { b } else { b + 1 };
                        assert(self.rows[a] == old_rows[a0]);
                        assert(self.rows[b] == old_rows[b0]);
                    }
                    assert forall|j: int| 0 <= j < self.rows.len() implies #[trigger] self.rows[j].id < self.next_id
                        && self.table@.contains_key(self.rows[j].short_code@)
                        && self.table@[self.rows[j].short_code@] == self.rows[j]@ by {
                        let j0 = if j < i { j } else { j + 1 };
                        assert(self.rows[j] == old_rows[j0]);
                        assert(j0 != i);
                    }
                }
                1
            },
        }
    }

    /// Every record, in the table's order (the order of insertion).
    pub fn select_all(&self) -> (r: Vec<Url>)
        requires
            self.wf(),
        ensures
            r@.map_values(|u: Url| u@) == self.listing(),
            forall|i: int| 0 <= i < r.len() ==> self@.contains_key(#[trigger] r[i].short_code@)
                && self@[r[i].short_code@] == r[i]@,
            forall|c: Seq<char>| #[trigger] self@.contains_key(c) ==> exists|i: int|
                0 <= i < r.len() && r[i].short_code@ == c,
            forall|i: int, j: int| 0 <= i < j < r.len() ==> r[i].short_code@ != r[j].short_code@,
    {
        let mut out: Vec<Url> = Vec::new();
        let mut i: usize = 0;
        while i < self.rows.len()
            invariant
                self.wf(),
                i <= self.rows.len(),
                out.len() == i,
                forall|j: int| 0 <= j < i ==> #[trigger] out[j]@ == self.rows[j]@,
            decreases self.rows.len() - i,
        {
            out.push(self.rows[i].duplicate());
            i += 1;
        }
        proof {
            assert(out@.map_values(|u: Url| u@) =~= self.listing());
            assert forall|c: Seq<char>| #[trigger] self@.contains_key(c) implies exists|k: int|
                0 <= k < out.len() && out[k].short_code@ == c by {
                let k = choose|k: int| 0 <= k < self.rows.len() && self.rows[k].short_code@ == c;
                assert(out[k]@ == self.rows[k]@);
            }
            assert forall|a: int| 0 <= a < out.len() implies self@.contains_key(#[trigger] out[a].short_code@)
                && self@[out[a].short_code@] == out[a]@ by {
                assert(out[a]@ == self.rows[a]@);
                self.lemma_row_is_record(a);
            }
            assert forall|a: int, b: int| 0 <= a < b < out.len() implies out[a].short_code@ != out[b].short_code@ by {
                assert(out[a]@ == self.rows[a]@);
                assert(out[b]@ == self.rows[b]@);
            }
        }
        out
    }
}

} // verus!
