//! A bucket: a secret and a bounded, chronologically ordered collection of
//! captured requests.

use vstd::prelude::*;

use crate::record::{RecordModel, RequestData};
use crate::MAX_REQUESTS_PER_BUCKET;

verus! {

/// A named container of captured requests, protected by a secret chosen at
/// creation. The secret is immutable for the bucket's lifetime.
pub struct Bucket {
    /// The shared secret; compared in constant time by
    /// `verify_bucket_password`.
    pub password: String,
    /// Captured requests in insertion (chronological) order, oldest first.
    pub requests: Vec<RequestData>,
}

/// The mathematical value of a bucket.
#[verifier::ext_equal]
pub ghost struct BucketModel {
    pub password: Seq<char>,
    pub requests: Seq<RecordModel>,
}

impl View for Bucket {
    type V = BucketModel;

    open spec fn view(&self) -> BucketModel {
        BucketModel {
            password: self.password@,
            requests: self.requests@.map_values(|r: RequestData| r@),
        }
    }
}

/// What one capture does to a bucket's records: append the new record, and
/// if the bucket is already at capacity first drop the single oldest one.
pub open spec fn spec_evict_push(s: Seq<RecordModel>, r: RecordModel) -> Seq<RecordModel> {
    if s.len() >= MAX_REQUESTS_PER_BUCKET {
        s.subrange(1, s.len() as int).push(r)
    } else {
        s.push(r)
    }
}

impl Bucket {
    /// A fresh bucket holding the given secret and no requests.
    pub fn new(password: String) -> (b: Bucket)
        ensures
            b@.password == password@,
            b@.requests == Seq::<RecordModel>::empty(),
    {
        let b = Bucket { password, requests: Vec::new() };
        assert(b@.requests =~= Seq::<RecordModel>::empty());
        b
    }

    /// Appends one captured request, evicting the oldest record first when
    /// the bucket is at capacity, so the count never passes the cap.
    pub fn push_record(&mut self, record: RequestData)
        ensures
            final(self)@.password == old(self)@.password,
            final(self)@.requests == spec_evict_push(old(self)@.requests, record@),
            old(self)@.requests.len() <= MAX_REQUESTS_PER_BUCKET ==> final(self)@.requests.len()
                <= MAX_REQUESTS_PER_BUCKET,
    {
        if self.requests.len() >= MAX_REQUESTS_PER_BUCKET {
            self.requests.remove(0);
            self.requests.push(record);
            assert(self@.requests =~= spec_evict_push(old(self)@.requests, record@));
        } else {
            self.requests.push(record);
            assert(self@.requests =~= spec_evict_push(old(self)@.requests, record@));
        }
    }

    /// Removes every captured request; the bucket and its secret survive.
    pub fn clear_records(&mut self)
        ensures
            final(self)@.password == old(self)@.password,
            final(self)@.requests == Seq::<RecordModel>::empty(),
    {
        self.requests.clear();
        assert(self@.requests =~= Seq::<RecordModel>::empty());
    }
}

} // verus!
