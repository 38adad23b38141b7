//! Properties that hold across operations of the service, stated over the
//! models that the operations' contracts use.

use vstd::prelude::*;

use crate::error::ServiceError;
use crate::models::{counted, fresh_record, retargeted, UrlRecord};
use crate::service::{create_result, retrieve_succeeds};
use crate::time::Timestamp;

verus! {

/// A record after `n` retrievals in a row.
pub open spec fn counted_times(r: UrlRecord, n: nat) -> UrlRecord
    decreases n,
{
    if n == 0 {
        r
    } else {
        counted(counted_times(r, (n - 1) as nat))
    }
}

/// Short codes are unique: once a create of `c` with URL `u1` has succeeded,
/// a second create of `c` (with any URL) fails with `DuplicateCode`, and the
/// stored record for `c` still points at `u1`.
pub proof fn lemma_code_unique(
    t: Map<Seq<char>, UrlRecord>,
    next_id: u64,
    c: Seq<char>,
    u1: Seq<char>,
    now: Timestamp,
)
    requires
        create_result(t, next_id, c) is Ok,
    ensures
        ({
            let t1 = t.insert(c, fresh_record(next_id, u1, c, now));
            &&& create_result(t1, (next_id + 1) as u64, c) == Err::<(), ServiceError>(ServiceError::DuplicateCode)
            &&& t1[c].url == u1
            &&& t1[c].access_count == 0
        }),
{
}

/// A retrieval adds exactly one to the access count and changes nothing
/// else; `n` retrievals in a row add exactly `n`, and each of them
/// succeeds. A record that starts at zero ends at `n`.
pub proof fn lemma_count_grows_by_one(t: Map<Seq<char>, UrlRecord>, c: Seq<char>, n: nat)
    requires
        t.contains_key(c),
        t[c].access_count + n <= u64::MAX,
    ensures
        t[c].access_count < u64::MAX ==> retrieve_succeeds(t, c)
            && counted(t[c]).access_count == t[c].access_count + 1
            && counted(t[c]) == (UrlRecord { access_count: counted(t[c]).access_count, ..t[c] }),
        counted_times(t[c], n).access_count == t[c].access_count + n,
        counted_times(t[c], n) == (UrlRecord { access_count: counted_times(t[c], n).access_count, ..t[c] }),
        forall|k: nat| k < n ==> retrieve_succeeds(
            #[trigger] t.insert(c, counted_times(t[c], k)),
            c,
        ),
    decreases n,
{
    if n > 0 {
        lemma_count_grows_by_one(t, c, (n - 1) as nat);
        assert forall|k: nat| k < n implies retrieve_succeeds(#[trigger] t.insert(c, counted_times(t[c], k)), c) by {
            if k < n - 1 {
            } else {
                assert(k == n - 1);
            }
        }
    }
}

/// An update changes the target and the update time only: the short code,
/// id, creation time and access count stay, the URL becomes the new one, and
/// the update time is set, never earlier than before when the clock has not
/// gone back.
pub proof fn lemma_update_keeps_identity(r: UrlRecord, url: Seq<char>, now: Timestamp)
    requires
        r.updated_at is Some ==> now.nanos >= r.updated_at->0.nanos,
    ensures
        ({
            let r1 = retargeted(r, url, now);
            &&& r1.short_code == r.short_code
            &&& r1.created_at == r.created_at
            &&& r1.id == r.id
            &&& r1.access_count == r.access_count
            &&& r1.url == url
            &&& r1.updated_at is Some
            &&& r.updated_at is Some ==> r1.updated_at->0.nanos >= r.updated_at->0.nanos
        }),
{
}

/// A delete is final: afterwards no record holds `c`, and a new create of
/// `c` succeeds (while ids last) with a fresh record whose count is zero.
pub proof fn lemma_delete_is_final(
    t: Map<Seq<char>, UrlRecord>,
    next_id: u64,
    c: Seq<char>,
    url: Seq<char>,
    now: Timestamp,
)
    requires
        t.contains_key(c),
        next_id < u64::MAX,
    ensures
        !t.remove(c).contains_key(c),
        create_result(t.remove(c), next_id, c) is Ok,
        t.remove(c).insert(c, fresh_record(next_id, url, c, now))[c].access_count == 0,
{
}

/// How many entries of `s` are `c`.
pub open spec fn occurrences(s: Seq<Seq<char>>, c: Seq<char>) -> nat
    decreases s.len(),
{
    if s.len() == 0 {
        0
    } else {
        occurrences(s.drop_last(), c) + if s.last() == c { 1nat } else { 0nat }
    }
}

/// The table after retrievals of the codes of `s`, one after another, each
/// with the effect that a retrieval has: a counted access where it
/// succeeds, no change where it fails.
pub open spec fn after_retrievals(t: Map<Seq<char>, UrlRecord>, s: Seq<Seq<char>>) -> Map<Seq<char>, UrlRecord>
    decreases s.len(),
{
    if s.len() == 0 {
        t
    } else {
        let t0 = after_retrievals(t, s.drop_last());
        let d = s.last();
        if retrieve_succeeds(t0, d) {
            t0.insert(d, counted(t0[d]))
        } else {
            t0
        }
    }
}

/// No retrieval is lost: each retrieval is one atomic step of the table, so
/// however concurrent retrievals of many codes are ordered, the record for
/// `c` ends with its count raised by exactly the number of retrievals of
/// `c`, and with its other fields unchanged.
pub proof fn lemma_no_lost_increments(t: Map<Seq<char>, UrlRecord>, s: Seq<Seq<char>>, c: Seq<char>)
    requires
        t.contains_key(c),
        t[c].access_count + occurrences(s, c) <= u64::MAX,
    ensures
        after_retrievals(t, s).contains_key(c),
        after_retrievals(t, s)[c].access_count == t[c].access_count + occurrences(s, c),
        after_retrievals(t, s)[c] == (UrlRecord { access_count: after_retrievals(t, s)[c].access_count, ..t[c] }),
    decreases s.len(),
{
    if s.len() > 0 {
        lemma_no_lost_increments(t, s.drop_last(), c);
    }
}

} // verus!
