//! The persisted mapping record.

use vstd::prelude::*;

use crate::time::Timestamp;

pub use crate::dtos::CreateUrlRequest;

verus! {

/// One stored mapping from a short code to a target URL.
#[derive(Debug)]
pub struct Url {
    /// Surrogate identifier, assigned by the store.
    pub id: u64,
    /// The target URL.
    pub url: String,
    /// The caller-chosen code, unique among stored records.
    pub short_code: String,
    /// Set once, when the record is created.
    pub created_at: Option<Timestamp>,
    /// Unset until the first update; set on every update.
    pub updated_at: Option<Timestamp>,
    /// Number of successful retrievals of the record.
    pub access_count: u64,
}

/// The mathematical value of a [`Url`].
pub ghost struct UrlRecord {
    pub id: u64,
    pub url: Seq<char>,
    pub short_code: Seq<char>,
    pub created_at: Option<Timestamp>,
    pub updated_at: Option<Timestamp>,
    pub access_count: u64,
}

impl View for Url {
    type V = UrlRecord;

    open spec fn view(&self) -> UrlRecord {
        UrlRecord {
            id: self.id,
            url: self.url@,
            short_code: self.short_code@,
            created_at: self.created_at,
            updated_at: self.updated_at,
            access_count: self.access_count,
        }
    }
}

impl Url {
    /// A field-by-field copy.
    pub fn duplicate(&self) -> (r: Url)
        ensures
            r@ == self@,
    {
        Url {
            id: self.id,
            url: self.url.clone(),
            short_code: self.short_code.clone(),
            created_at: self.created_at,
            updated_at: self.updated_at,
            access_count: self.access_count,
        }
    }
}

} // verus!

verus! {

/// The record that a create stores: count zero, never updated.
pub open spec fn fresh_record(id: u64, url: Seq<char>, short_code: Seq<char>, now: Timestamp) -> UrlRecord {
    UrlRecord {
        id,
        url,
        short_code,
        created_at: Some(now),
        updated_at: None,
        access_count: 0,
    }
}

/// `r` after one more retrieval.
pub open spec fn counted(r: UrlRecord) -> UrlRecord
    recommends
        r.access_count < u64::MAX,
{
    UrlRecord { access_count: (r.access_count + 1) as u64, ..r }
}

/// `r` pointed at `url` by an update at time `now`.
pub open spec fn retargeted(r: UrlRecord, url: Seq<char>, now: Timestamp) -> UrlRecord {
    UrlRecord { url, updated_at: Some(now), ..r }
}

} // verus!
