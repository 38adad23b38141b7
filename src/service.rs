//! The mapping service: the caller-facing contract on top of the store's
//! primitives.

use vstd::prelude::*;

use crate::dtos::{CreateUrlRequest, UpdateUrlRequest, UrlResponse, UrlResponseView, text_view};
use crate::error::{ServiceError, StoreFault};
use crate::models::{counted, fresh_record, retargeted, Url, UrlRecord};
use crate::store::UrlStore;
use crate::time::{now_utc, utc_text_of, Timestamp};

verus! {

/// The text of an optional instant.
pub open spec fn time_text(t: Option<Timestamp>) -> Option<Seq<char>> {
    match t {
        Some(t) => Some(utc_text_of(t.nanos as int)),
        None => None,
    }
}

/// What a retrieval shows of the record `r`.
pub open spec fn response_view(r: UrlRecord) -> UrlResponseView {
    UrlResponseView {
        url: r.url,
        short_code: r.short_code,
        created_at: time_text(r.created_at),
        updated_at: time_text(r.updated_at),
    }
}

/// The service error that a store fault stands for.
pub open spec fn fault_kind(f: StoreFault) -> ServiceError {
    match f {
        StoreFault::UniqueViolation => ServiceError::DuplicateCode,
        StoreFault::NoSuchRow => ServiceError::NotFound,
        StoreFault::Other => ServiceError::StoreError,
    }
}

/// Maps a store fault to the service's error kinds: a uniqueness
/// violation is a duplicate code, a missing row is not-found, anything else
/// is a store error.
pub fn service_error(f: StoreFault) -> (r: ServiceError)
    ensures
        r == fault_kind(f),
{
    match f {
        StoreFault::UniqueViolation => ServiceError::DuplicateCode,
        StoreFault::NoSuchRow => ServiceError::NotFound,
        StoreFault::Other => ServiceError::StoreError,
    }
}

/// The outcome of an update or delete that changed `rows` rows: a change of
/// no row means that no record holds the code.
pub fn rows_outcome(rows: u64) -> (r: Result<(), ServiceError>)
    ensures
        rows == 0 ==> r == Err::<(), ServiceError>(ServiceError::NotFound),
        rows > 0 ==> r == Ok::<(), ServiceError>(()),
{
    if rows == 0 {
        Err(ServiceError::NotFound)
    } else {
        Ok(())
    }
}

/// The text of an optional instant.
fn optional_text(t: Option<Timestamp>) -> (r: Option<String>)
    ensures
        text_view(r) == time_text(t),
{
    match t {
        Some(t) => Some(t.to_text()),
        None => None,
    }
}

/// Projects a record into what a retrieval shows: URL, code and times as
/// text, without the access count.
pub fn response_of(u: &Url) -> (r: UrlResponse)
    ensures
        r@ == response_view(u@),
{
    UrlResponse {
        url: u.url.clone(),
        short_code: u.short_code.clone(),
        created_at: optional_text(u.created_at),
        updated_at: optional_text(u.updated_at),
    }
}

/// The outcome of a retrieval, given what the store's increment-and-fetch
/// gave back.
pub fn retrieval_outcome(fetched: Result<Url, StoreFault>) -> (r: Result<UrlResponse, ServiceError>)
    ensures
        fetched is Ok ==> r is Ok && r->Ok_0@ == response_view(fetched->Ok_0@),
        fetched is Err ==> r is Err && r->Err_0 == fault_kind(fetched->Err_0),
{
    match fetched {
        Ok(u) => Ok(response_of(&u)),
        Err(f) => Err(service_error(f)),
    }
}

/// The mapping service over an owned table of records.
pub struct UrlService {
    store: UrlStore,
}

impl View for UrlService {
    type V = Map<Seq<char>, UrlRecord>;

    /// The stored records, keyed by short code.
    closed spec fn view(&self) -> Map<Seq<char>, UrlRecord> {
        self.store@
    }
}

impl UrlService {
    pub closed spec fn wf(&self) -> bool {
        self.store.wf()
    }

    /// The id that the next successful create assigns.
    pub closed spec fn next_id(&self) -> u64 {
        self.store.next_id()
    }

    /// The records in the order in which a listing returns them.
    pub closed spec fn listing(&self) -> Seq<UrlRecord> {
        self.store.listing()
    }

    /// What the service guarantees of its records: each is filed under its
    /// own short code, each id is below the next id to be issued (so a new
    /// record's id is used by no stored record), and distinct records have
    /// distinct ids.
    pub proof fn lemma_table_facts(&self)
        requires
            self.wf(),
        ensures
            forall|c: Seq<char>| #[trigger] self@.contains_key(c) ==> self@[c].short_code == c
                && self@[c].id < self.next_id(),
            forall|c1: Seq<char>, c2: Seq<char>|
                #[trigger] self@.contains_key(c1) && #[trigger] self@.contains_key(c2) && c1 != c2
                    ==> self@[c1].id != self@[c2].id,
    {
        self.store.lemma_table_facts();
    }

    /// A service over an empty table.
    pub fn new() -> (r: UrlService)
        ensures
            r.wf(),
            r@ == Map::<Seq<char>, UrlRecord>::empty(),
            r.next_id() == 1,
    {
        UrlService { store: UrlStore::new() }
    }

    /// Creates the record for `data.short_code`, stamped `now`, with access
    /// count zero. Fails with `DuplicateCode` when the code is taken and with
    /// `StoreError` when the store has no id left; a failure changes nothing.
    pub fn add_at(&mut self, data: CreateUrlRequest, now: Timestamp) -> (r: Result<(), ServiceError>)
        requires
            old(self).wf(),
        ensures
            final(self).wf(),
            r == create_result(old(self)@, old(self).next_id(), data.short_code@),
            r is Ok ==> final(self)@ == old(self)@.insert(
                data.short_code@,
                fresh_record(old(self).next_id(), data.url@, data.short_code@, now),
            ) && final(self).next_id() == old(self).next_id() + 1,
            r is Ok ==> forall|c: Seq<char>| #[trigger] old(self)@.contains_key(c) ==> old(self)@[c].id != old(self).next_id(),
            r is Err ==> final(self)@ == old(self)@ && final(self).next_id() == old(self).next_id(),
    {
        proof {
            self.store.lemma_table_facts();
        }
        let CreateUrlRequest { url, short_code } = data;
        match self.store.insert(url, short_code, now) {
            Ok(_) => Ok(()),
            Err(f) => Err(service_error(f)),
        }
    }

    /// Creates the record for `data.short_code` at the current time, as
    /// [`UrlService::add_at`] does. A taken code fails with `DuplicateCode`
    /// before the clock is read; when the clock gives no usable time the
    /// create fails with `StoreError`. A failure changes nothing.
    pub fn add(&mut self, data: CreateUrlRequest) -> (r: Result<(), ServiceError>)
        requires
            old(self).wf(),
        ensures
            final(self).wf(),
            old(self)@.contains_key(data.short_code@) ==> r == Err::<(), ServiceError>(ServiceError::DuplicateCode),
            !old(self)@.contains_key(data.short_code@) && r is Err ==> r == Err::<(), ServiceError>(ServiceError::StoreError),
            r is Ok ==> create_result(old(self)@, old(self).next_id(), data.short_code@) is Ok
                && exists|now: Timestamp| final(self)@ == old(self)@.insert(
                    data.short_code@,
                    #[trigger] fresh_record(old(self).next_id(), data.url@, data.short_code@, now),
                ),
            r is Ok ==> final(self).next_id() == old(self).next_id() + 1,
            r is Ok ==> forall|c: Seq<char>| #[trigger] old(self)@.contains_key(c) ==> old(self)@[c].id != old(self).next_id(),
            r is Err ==> final(self)@ == old(self)@ && final(self).next_id() == old(self).next_id(),
    {
        if self.store.contains_code(&data.short_code) {
            return Err(ServiceError::DuplicateCode);
        }
        match now_utc() {
            Some(now) => self.add_at(data, now),
            None => Err(ServiceError::StoreError),
        }
    }

    /// Every record, in the store's order, which is the same on every read
    /// of an unchanged service.
    pub fn list(&self) -> (r: Vec<Url>)
        requires
            self.wf(),
        ensures
            r@.map_values(|u: Url| u@) == self.listing(),
            forall|i: int| 0 <= i < r.len() ==> self@.contains_key(#[trigger] r[i].short_code@)
                && self@[r[i].short_code@] == r[i]@,
            forall|c: Seq<char>| #[trigger] self@.contains_key(c) ==> exists|i: int|
                0 <= i < r.len() && r[i].short_code@ == c,
            forall|i: int, j: int| 0 <= i < j < r.len() ==> r[i].short_code@ != r[j].short_code@,
    {
        self.store.select_all()
    }

    /// Counts one access to `short_code` and shows its record. The increment
    /// and the read are one atomic step of the store. Fails with `NotFound`
    /// when no record holds the code, and with `StoreError` when its count
    /// cannot grow; a failure changes nothing.
    pub fn retrieve(&mut self, short_code: String) -> (r: Result<UrlResponse, ServiceError>)
        requires
            old(self).wf(),
        ensures
            final(self).wf(),
            final(self).next_id() == old(self).next_id(),
            r is Ok <==> retrieve_succeeds(old(self)@, short_code@),
            r is Ok ==> final(self)@ == old(self)@.insert(short_code@, counted(old(self)@[short_code@]))
                && r->Ok_0@ == response_view(counted(old(self)@[short_code@])),
            !old(self)@.contains_key(short_code@) ==> r is Err && r->Err_0 == ServiceError::NotFound,
            old(self)@.contains_key(short_code@) && !retrieve_succeeds(old(self)@, short_code@) ==> r is Err
                && r->Err_0 == ServiceError::StoreError,
            r is Err ==> final(self)@ == old(self)@,
    {
        let fetched = self.store.increment_and_fetch(&short_code);
        retrieval_outcome(fetched)
    }

    /// Points the record for `short_code` at `data.url`, stamped `now`.
    /// Fails with `NotFound`, changing nothing, when no record holds the code.
    pub fn update_at(&mut self, short_code: String, data: UpdateUrlRequest, now: Timestamp) -> (r: Result<(), ServiceError>)
        requires
            old(self).wf(),
        ensures
            final(self).wf(),
            final(self).next_id() == old(self).next_id(),
            r is Ok <==> old(self)@.contains_key(short_code@),
            r is Err ==> r->Err_0 == ServiceError::NotFound && final(self)@ == old(self)@,
            r is Ok ==> final(self)@ == old(self)@.insert(
                short_code@,
                retargeted(old(self)@[short_code@], data.url@, now),
            ),
    {
        let rows = self.store.update_url_by_code(&short_code, data.url, now);
        rows_outcome(rows)
    }

    /// Points the record for `short_code` at `data.url` at the current time,
    /// as [`UrlService::update_at`] does. A missing code fails with
    /// `NotFound` before the clock is read; when the clock gives no usable
    /// time the update fails with `StoreError`. A failure changes nothing.
    pub fn update(&mut self, short_code: String, data: UpdateUrlRequest) -> (r: Result<(), ServiceError>)
        requires
            old(self).wf(),
        ensures
            final(self).wf(),
            final(self).next_id() == old(self).next_id(),
            !old(self)@.contains_key(short_code@) ==> r == Err::<(), ServiceError>(ServiceError::NotFound),
            old(self)@.contains_key(short_code@) && r is Err ==> r == Err::<(), ServiceError>(ServiceError::StoreError),
            r is Ok ==> old(self)@.contains_key(short_code@) && exists|now: Timestamp| final(self)@ == old(self)@.insert(
                short_code@,
                #[trigger] retargeted(old(self)@[short_code@], data.url@, now),
            ),
            r is Err ==> final(self)@ == old(self)@,
    {
        if !self.store.contains_code(&short_code) {
            return Err(ServiceError::NotFound);
        }
        match now_utc() {
            Some(now) => self.update_at(short_code, data, now),
            None => Err(ServiceError::StoreError),
        }
    }

    /// Removes the record for `short_code`. Fails with `NotFound`, changing
    /// nothing, when no record holds the code.
    pub fn delete(&mut self, short_code: String) -> (r: Result<(), ServiceError>)
        requires
            old(self).wf(),
        ensures
            final(self).wf(),
            final(self).next_id() == old(self).next_id(),
            r is Ok <==> old(self)@.contains_key(short_code@),
            r is Err ==> r->Err_0 == ServiceError::NotFound && final(self)@ == old(self)@,
            r is Ok ==> final(self)@ == old(self)@.remove(short_code@),
    {
        let rows = self.store.delete_by_code(&short_code);
        rows_outcome(rows)
    }

    /// The full record for `short_code`, access count included; nothing is
    /// counted. Fails with `NotFound` when no record holds the code.
    pub fn statistics(&self, short_code: String) -> (r: Result<Url, ServiceError>)
        requires
            self.wf(),
        ensures
            r is Ok <==> self@.contains_key(short_code@),
            r is Ok ==> r->Ok_0@ == self@[short_code@],
            r is Err ==> r->Err_0 == ServiceError::NotFound,
    {
        match self.store.select_by_code(&short_code) {
            Some(u) => Ok(u),
            None => Err(ServiceError::NotFound),
        }
    }
}

/// The outcome of a create of `code` on the table `t` whose next id is
/// `next_id`.
pub open spec fn create_result(t: Map<Seq<char>, UrlRecord>, next_id: u64, code: Seq<char>) -> Result<(), ServiceError> {
    if t.contains_key(code) {
        Err(ServiceError::DuplicateCode)
    } else if next_id == u64::MAX {
        Err(ServiceError::StoreError)
    } else {
        Ok(())
    }
}

/// Whether a retrieval of `code` from the table `t` succeeds: the record
/// exists and its count can grow.
pub open spec fn retrieve_succeeds(t: Map<Seq<char>, UrlRecord>, code: Seq<char>) -> bool {
    t.contains_key(code) && t[code].access_count < u64::MAX
}

} // verus!
