//! Store-wide laws: properties that relate several operations, proved
//! over the same abstract transitions the operations' contracts use.

use vstd::prelude::*;

use crate::bucket::{spec_evict_push, BucketModel};
use crate::errors::StoreError;
use crate::paginate::{spec_paginate, PageModel};
use crate::record::RecordModel;
use crate::store::{spec_capture, spec_clear, spec_create, spec_delete, spec_list};
use crate::MAX_REQUESTS_PER_BUCKET;

verus! {

/// Uniqueness of names: once a creation has succeeded, a second creation
/// under the same name fails with `AlreadyExists`, whatever non-empty
/// secret it offers.
pub proof fn lemma_create_unique(
    m: Map<Seq<char>, BucketModel>,
    name: Seq<char>,
    password: Seq<char>,
    m2: Map<Seq<char>, BucketModel>,
    password2: Seq<char>,
)
    requires
        spec_create(m, name, password) == Ok::<Map<Seq<char>, BucketModel>, StoreError>(m2),
        password2.len() > 0,
    ensures
        spec_create(m2, name, password2) == Err::<Map<Seq<char>, BucketModel>, StoreError>(
            StoreError::AlreadyExists,
        ),
{
}

/// Password gating: listing an existing bucket with the stored secret
/// succeeds, and with any other secret fails with `InvalidPassword`.
pub proof fn lemma_password_gating(
    m: Map<Seq<char>, BucketModel>,
    name: Seq<char>,
    supplied: Seq<char>,
    page: Option<usize>,
    page_size: Option<usize>,
)
    requires
        m.contains_key(name),
    ensures
        supplied != m[name].password ==> spec_list(m, name, Some(supplied), page, page_size)
            == Err::<PageModel, StoreError>(StoreError::InvalidPassword),
        supplied == m[name].password ==> spec_list(m, name, Some(supplied), page, page_size)
            == Ok::<PageModel, StoreError>(spec_paginate(m[name].requests, page, page_size)),
{
}

/// A successful capture touches only the records of its target bucket: it
/// creates and deletes no bucket and changes no secret, so in particular
/// password gating is unaffected by capture activity.
pub proof fn lemma_capture_preserves_buckets(
    m: Map<Seq<char>, BucketModel>,
    path: Seq<char>,
    rec: RecordModel,
    m2: Map<Seq<char>, BucketModel>,
)
    requires
        spec_capture(m, path, rec) == Ok::<Map<Seq<char>, BucketModel>, StoreError>(m2),
    ensures
        m2.dom() == m.dom(),
        forall|n: Seq<char>| m.contains_key(n) ==> m2[n].password == m[n].password,
{
    assert(m2.dom() =~= m.dom());
}

/// The records a run of captures leaves behind, oldest first, when each
/// capture in turn appends its record with eviction at capacity.
pub open spec fn spec_capture_all(s: Seq<RecordModel>, recs: Seq<RecordModel>) -> Seq<RecordModel>
    decreases recs.len(),
{
    if recs.len() == 0 {
        s
    } else {
        spec_evict_push(spec_capture_all(s, recs.drop_last()), recs.last())
    }
}

/// Strict FIFO eviction: a run of captures into a bucket that started
/// empty retains exactly the newest `MAX_REQUESTS_PER_BUCKET` records, in
/// arrival order — all of them while the run is no longer than the cap.
pub proof fn lemma_fifo_retention(recs: Seq<RecordModel>)
    ensures
        spec_capture_all(Seq::empty(), recs) == recs.subrange(
            if recs.len() > MAX_REQUESTS_PER_BUCKET {
                recs.len() - MAX_REQUESTS_PER_BUCKET
            } else {
                0
            },
            recs.len() as int,
        ),
    decreases recs.len(),
{
    if recs.len() == 0 {
        assert(spec_capture_all(Seq::empty(), recs) =~= recs.subrange(0, 0));
    } else {
        lemma_fifo_retention(recs.drop_last());
        let prev = spec_capture_all(Seq::<RecordModel>::empty(), recs.drop_last());
        let here = spec_capture_all(Seq::<RecordModel>::empty(), recs);
        let lo: int = if recs.len() > MAX_REQUESTS_PER_BUCKET {
            recs.len() - MAX_REQUESTS_PER_BUCKET
        } else {
            0
        };
        assert(here == spec_evict_push(prev, recs.last()));
        assert(here =~= recs.subrange(lo, recs.len() as int));
    }
}

/// No lost update: while a bucket stays within capacity, a run of
/// captures — in whatever order a serialization of them arrives — appends
/// exactly its records, none dropped and none duplicated.
pub proof fn lemma_captures_within_capacity(s: Seq<RecordModel>, recs: Seq<RecordModel>)
    requires
        s.len() + recs.len() <= MAX_REQUESTS_PER_BUCKET,
    ensures
        spec_capture_all(s, recs) == s + recs,
    decreases recs.len(),
{
    if recs.len() == 0 {
        assert(spec_capture_all(s, recs) =~= s + recs);
    } else {
        lemma_captures_within_capacity(s, recs.drop_last());
        assert(spec_capture_all(s, recs) =~= s + recs);
    }
}

/// Clear idempotence: a successful clear leaves no records, a second
/// clear with the same secret succeeds and changes nothing, and a listing
/// afterwards reports a total of zero.
pub proof fn lemma_clear_idempotent(
    m: Map<Seq<char>, BucketModel>,
    name: Seq<char>,
    pw: Seq<char>,
    m2: Map<Seq<char>, BucketModel>,
    page: Option<usize>,
    page_size: Option<usize>,
)
    requires
        spec_clear(m, name, Some(pw)) == Ok::<Map<Seq<char>, BucketModel>, StoreError>(m2),
    ensures
        m2[name].requests.len() == 0,
        spec_clear(m2, name, Some(pw)) == Ok::<Map<Seq<char>, BucketModel>, StoreError>(m2),
        spec_list(m2, name, Some(pw), page, page_size) == Ok::<PageModel, StoreError>(
            spec_paginate(Seq::empty(), page, page_size),
        ),
        spec_paginate(Seq::<RecordModel>::empty(), page, page_size).total == 0,
{
    let cleared = BucketModel { password: m[name].password, requests: Seq::empty() };
    assert(m2 == m.insert(name, cleared));
    assert(m2[name] == cleared);
    assert(m2.insert(name, BucketModel { password: m2[name].password, requests: Seq::empty() })
        =~= m2);
}

/// Delete atomicity under a wrong secret: the attempt fails with
/// `InvalidPassword` — and since a failed deletion returns the store
/// unchanged, a listing with the right secret still serves the same
/// records as before the attempt.
pub proof fn lemma_delete_wrong_password(
    m: Map<Seq<char>, BucketModel>,
    name: Seq<char>,
    wrong: Seq<char>,
    page: Option<usize>,
    page_size: Option<usize>,
)
    requires
        m.contains_key(name),
        wrong != m[name].password,
    ensures
        spec_delete(m, name, Some(wrong)) == Err::<Map<Seq<char>, BucketModel>, StoreError>(
            StoreError::InvalidPassword,
        ),
        spec_list(m, name, Some(m[name].password), page, page_size) == Ok::<
            PageModel,
            StoreError,
        >(spec_paginate(m[name].requests, page, page_size)),
{
}

} // verus!
