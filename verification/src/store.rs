//! The bucket store: a map from bucket name to bucket, owning creation,
//! capture, listing, deletion and clearing. The store is a plain value
//! whose abstract state is a map from name to bucket contents; callers
//! that share it across threads serialize access through a lock, so every
//! operation here is one atomic step of that serialization.

use vstd::prelude::*;

use crate::auth::verify_bucket_password;
use crate::bucket::{spec_evict_push, Bucket, BucketModel};
use crate::errors::StoreError;
use crate::name::{spec_validate_name, valid_name, validate_bucket_name};
use crate::paginate::{paginate, spec_paginate, PageModel, PaginatedResponse, PaginationParams};
use crate::parse::{extract_bucket_name, parse_query_params, spec_extract_bucket_name,
    spec_query_map};
use crate::record::{pairs_map, RecordModel, RequestData};
use crate::MAX_REQUESTS_PER_BUCKET;

verus! {

/// The body of a creation request: the secret the new bucket will demand.
pub struct CreateBucketPayload {
    pub password: String,
}

/// One name-to-bucket binding of the store.
struct BucketEntry {
    name: String,
    bucket: Bucket,
}

/// The store itself. Names are case-sensitive and unique; every name was
/// validated when its bucket was created.
pub struct BucketStore {
    entries: Vec<BucketEntry>,
}

/// The map a sequence of bindings stands for.
spec fn entry_map(s: Seq<BucketEntry>) -> Map<Seq<char>, BucketModel>
    decreases s.len(),
{
    if s.len() == 0 {
        Map::<Seq<char>, BucketModel>::empty()
    } else {
        entry_map(s.drop_last()).insert(s.last().name@, s.last().bucket@)
    }
}

/// No two bindings share a name.
spec fn unique_bucket_names(s: Seq<BucketEntry>) -> bool {
    forall|i: int, j: int| 0 <= i < j < s.len() ==> s[i].name@ != s[j].name@
}

impl View for BucketStore {
    type V = Map<Seq<char>, BucketModel>;

    closed spec fn view(&self) -> Map<Seq<char>, BucketModel> {
        entry_map(self.entries@)
    }
}

/// The character sequence of an optionally supplied secret.
pub open spec fn opt_view(password: Option<&str>) -> Option<Seq<char>> {
    match password {
        None => None,
        Some(p) => Some(p@),
    }
}

/// What creation does: rejects an empty secret, then an invalid name, then
/// a taken name, and otherwise binds the name to a fresh empty bucket.
pub open spec fn spec_create(
    m: Map<Seq<char>, BucketModel>,
    name: Seq<char>,
    password: Seq<char>,
) -> Result<Map<Seq<char>, BucketModel>, StoreError> {
    if password.len() == 0 {
        Err(StoreError::EmptyPassword)
    } else {
        match spec_validate_name(name) {
            Err(e) => Err(StoreError::InvalidName(e)),
            Ok(_) => if m.contains_key(name) {
                Err(StoreError::AlreadyExists)
            } else {
                Ok(m.insert(name, BucketModel { password, requests: Seq::empty() }))
            },
        }
    }
}

/// What capture does: resolves the first path segment to a bucket and
/// appends the record there, evicting the oldest record if the bucket is
/// at capacity.
pub open spec fn spec_capture(
    m: Map<Seq<char>, BucketModel>,
    path: Seq<char>,
    rec: RecordModel,
) -> Result<Map<Seq<char>, BucketModel>, StoreError> {
    match spec_extract_bucket_name(path) {
        None => Err(StoreError::InvalidPath),
        Some(name) => if !m.contains_key(name) {
            Err(StoreError::BucketNotFound)
        } else {
            Ok(
                m.insert(
                    name,
                    BucketModel {
                        password: m[name].password,
                        requests: spec_evict_push(m[name].requests, rec),
                    },
                ),
            )
        },
    }
}

/// The record a capture builds from the inbound request's parts.
pub open spec fn spec_record(
    path: Seq<char>,
    method: Seq<char>,
    query: Seq<char>,
    headers: Map<Seq<char>, Seq<char>>,
    body: Seq<char>,
    timestamp: int,
) -> RecordModel {
    RecordModel { path, method, query_params: spec_query_map(query), headers, body, timestamp }
}

/// What listing does: demands a secret, resolves the bucket, verifies the
/// secret, and serves the requested page of the bucket's records.
pub open spec fn spec_list(
    m: Map<Seq<char>, BucketModel>,
    name: Seq<char>,
    password: Option<Seq<char>>,
    page: Option<usize>,
    page_size: Option<usize>,
) -> Result<PageModel, StoreError> {
    match password {
        None => Err(StoreError::PasswordRequired),
        Some(pw) => if !m.contains_key(name) {
            Err(StoreError::BucketNotFound)
        } else if m[name].password != pw {
            Err(StoreError::InvalidPassword)
        } else {
            Ok(spec_paginate(m[name].requests, page, page_size))
        },
    }
}

/// What deletion does: demands a secret, resolves the bucket, verifies the
/// secret, and removes the binding; a failed verification removes nothing.
pub open spec fn spec_delete(
    m: Map<Seq<char>, BucketModel>,
    name: Seq<char>,
    password: Option<Seq<char>>,
) -> Result<Map<Seq<char>, BucketModel>, StoreError> {
    match password {
        None => Err(StoreError::PasswordRequired),
        Some(pw) => if !m.contains_key(name) {
            Err(StoreError::BucketNotFound)
        } else if m[name].password != pw {
            Err(StoreError::InvalidPassword)
        } else {
            Ok(m.remove(name))
        },
    }
}

/// What clearing does: like deletion, but the bucket and its secret
/// survive with no records.
pub open spec fn spec_clear(
    m: Map<Seq<char>, BucketModel>,
    name: Seq<char>,
    password: Option<Seq<char>>,
) -> Result<Map<Seq<char>, BucketModel>, StoreError> {
    match password {
        None => Err(StoreError::PasswordRequired),
        Some(pw) => if !m.contains_key(name) {
            Err(StoreError::BucketNotFound)
        } else if m[name].password != pw {
            Err(StoreError::InvalidPassword)
        } else {
            Ok(m.insert(name, BucketModel { password: m[name].password, requests: Seq::empty() }))
        },
    }
}

proof fn lemma_entry_map_contains(s: Seq<BucketEntry>, name: Seq<char>)
    ensures
        entry_map(s).contains_key(name) <==> exists|i: int| 0 <= i < s.len() && s[i].name@ == name,
    decreases s.len(),
{
    if s.len() > 0 {
        lemma_entry_map_contains(s.drop_last(), name);
        if s.last().name@ == name {
            assert(s[s.len() - 1].name@ == name);
        } else if entry_map(s).contains_key(name) {
            let i = choose|i: int| 0 <= i < s.drop_last().len() && s.drop_last()[i].name@ == name;
            assert(s[i].name@ == name);
        } else if exists|i: int| 0 <= i < s.len() && s[i].name@ == name {
            let i = choose|i: int| 0 <= i < s.len() && s[i].name@ == name;
            assert(s.drop_last()[i].name@ == name);
        }
    }
}

proof fn lemma_entry_map_index(s: Seq<BucketEntry>, i: int)
    requires
        unique_bucket_names(s),
        0 <= i < s.len(),
    ensures
        entry_map(s).contains_key(s[i].name@),
        entry_map(s)[s[i].name@] == s[i].bucket@,
    decreases s.len(),
{
    if i < s.len() - 1 {
        lemma_entry_map_index(s.drop_last(), i);
        assert(s[i].name@ != s.last().name@);
    }
}

proof fn lemma_entry_map_push(s: Seq<BucketEntry>, e: BucketEntry)
    ensures
        entry_map(s.push(e)) == entry_map(s).insert(e.name@, e.bucket@),
{
    assert(s.push(e).drop_last() =~= s);
    assert(s.push(e).last() == e);
}

proof fn lemma_entry_map_update(s: Seq<BucketEntry>, i: int, e: BucketEntry)
    requires
        unique_bucket_names(s),
        0 <= i < s.len(),
        e.name@ == s[i].name@,
    ensures
        entry_map(s.update(i, e)) == entry_map(s).insert(e.name@, e.bucket@),
    decreases s.len(),
{
    let upd = s.update(i, e);
    if i == s.len() - 1 {
        assert(upd.drop_last() =~= s.drop_last());
        assert(upd.last() == e);
        assert(entry_map(s.drop_last()).insert(s.last().name@, s.last().bucket@).insert(
            e.name@,
            e.bucket@,
        ) =~= entry_map(s.drop_last()).insert(e.name@, e.bucket@));
    } else {
        assert(upd.drop_last() =~= s.drop_last().update(i, e));
        assert(upd.last() == s.last());
        lemma_entry_map_update(s.drop_last(), i, e);
        assert(s.last().name@ != e.name@);
        assert(entry_map(s.drop_last()).insert(e.name@, e.bucket@).insert(
            s.last().name@,
            s.last().bucket@,
        ) =~= entry_map(s.drop_last()).insert(s.last().name@, s.last().bucket@).insert(
            e.name@,
            e.bucket@,
        ));
    }
}

proof fn lemma_entry_map_remove(s: Seq<BucketEntry>, i: int)
    requires
        unique_bucket_names(s),
        0 <= i < s.len(),
    ensures
        entry_map(s.remove(i)) == entry_map(s).remove(s[i].name@),
    decreases s.len(),
{
    let name = s[i].name@;
    if i == s.len() - 1 {
        assert(s.remove(i) =~= s.drop_last());
        lemma_entry_map_contains(s.drop_last(), name);
        assert(forall|j: int|
            0 <= j < s.drop_last().len() ==> s.drop_last()[j].name@ != name);
        assert(!entry_map(s.drop_last()).contains_key(name));
        assert(entry_map(s.drop_last()).insert(name, s.last().bucket@).remove(name)
            =~= entry_map(s.drop_last()));
    } else {
        assert(s.remove(i).drop_last() =~= s.drop_last().remove(i));
        assert(s.remove(i).last() == s.last());
        lemma_entry_map_remove(s.drop_last(), i);
        assert(s.last().name@ != name);
        assert(entry_map(s.drop_last()).remove(name).insert(s.last().name@, s.last().bucket@)
            =~= entry_map(s.drop_last()).insert(s.last().name@, s.last().bucket@).remove(name));
    }
}

impl BucketStore {
    /// The store's internal soundness: names unique and valid, every
    /// bucket within its record cap.
    pub closed spec fn wf(&self) -> bool {
        &&& unique_bucket_names(self.entries@)
        &&& forall|i: int|
            0 <= i < self.entries@.len() ==> valid_name(#[trigger] self.entries@[i].name@)
        &&& forall|i: int|
            0 <= i < self.entries@.len() ==> (#[trigger] self.entries@[i].bucket@).requests.len()
                <= MAX_REQUESTS_PER_BUCKET
    }

    /// An empty store: no buckets at all.
    pub fn new() -> (s: BucketStore)
        ensures
            s.wf(),
            s@ == Map::<Seq<char>, BucketModel>::empty(),
    {
        let s = BucketStore { entries: Vec::new() };
        assert(s@ =~= Map::<Seq<char>, BucketModel>::empty());
        s
    }

    /// The position of the binding that holds `name`, if any.
    fn find_entry(&self, name: &str) -> (r: Option<usize>)
        requires
            self.wf(),
        ensures
            ({
                match r {
                    Some(i) => i < self.entries@.len() && self.entries@[i as int].name@ == name@
                        && self@.contains_key(name@) && self@[name@] == self.entries@[
                        i as int
                    ].bucket@,
                    None => !self@.contains_key(name@),
                }
            }),
    {
        let name_owned: String = name.to_owned();
        let mut i: usize = 0;
        while i < self.entries.len()
            invariant
                self.wf(),
                name_owned@ == name@,
                i <= self.entries@.len(),
                forall|k: int| 0 <= k < i ==> self.entries@[k].name@ != name@,
            decreases self.entries@.len() - i,
        {
            if self.entries[i].name == name_owned {
                proof {
                    lemma_entry_map_index(self.entries@, i as int);
                }
                return Some(i);
            }
            i = i + 1;
        }
        proof {
            lemma_entry_map_contains(self.entries@, name@);
        }
        None
    }

    /// Creates an empty bucket under `bucket_name`, guarded by the
    /// payload's secret. Rejects, in this order: an empty secret, an
    /// invalid name (reporting the rule broken), a name already taken.
    pub fn create_bucket(&mut self, bucket_name: &str, payload: CreateBucketPayload) -> (r: Result<
        (),
        StoreError,
    >)
        requires
            old(self).wf(),
        ensures
            final(self).wf(),
            ({
                match spec_create(old(self)@, bucket_name@, payload.password@) {
                    Ok(m) => r == Ok::<(), StoreError>(()) && final(self)@ == m,
                    Err(e) => r == Err::<(), StoreError>(e) && final(self)@ == old(self)@,
                }
            }),
    {
        if payload.password.as_str().is_empty() {
            return Err(StoreError::EmptyPassword);
        }
        match validate_bucket_name(bucket_name) {
            Err(e) => {
                return Err(StoreError::InvalidName(e));
            },
            Ok(_) => {},
        }
        match self.find_entry(bucket_name) {
            Some(_) => Err(StoreError::AlreadyExists),
            None => {
                proof {
                    lemma_entry_map_contains(self.entries@, bucket_name@);
                }
                let entry = BucketEntry {
                    name: bucket_name.to_owned(),
                    bucket: Bucket::new(payload.password),
                };
                proof {
                    lemma_entry_map_push(self.entries@, entry);
                }
                self.entries.push(entry);
                Ok(())
            },
        }
    }

    /// Records one inbound request: resolves the bucket from the first
    /// path segment, builds the record from the request's parts (parsing
    /// the query string into a last-wins map), and appends it, evicting
    /// the oldest record if the bucket is at capacity.
    pub fn capture_request(
        &mut self,
        path: &str,
        method: &str,
        query_string: &str,
        headers: Vec<(String, String)>,
        body: String,
        timestamp: i64,
    ) -> (r: Result<(), StoreError>)
        requires
            old(self).wf(),
        ensures
            final(self).wf(),
            ({
                let rec = spec_record(
                    path@,
                    method@,
                    query_string@,
                    pairs_map(headers@),
                    body@,
                    timestamp as int,
                );
                match spec_capture(old(self)@, path@, rec) {
                    Ok(m) => r == Ok::<(), StoreError>(()) && final(self)@ == m,
                    Err(e) => r == Err::<(), StoreError>(e) && final(self)@ == old(self)@,
                }
            }),
    {
        let bucket_name: String = match extract_bucket_name(path) {
            None => {
                return Err(StoreError::InvalidPath);
            },
            Some(n) => n,
        };
        let idx: usize = match self.find_entry(bucket_name.as_str()) {
            None => {
                return Err(StoreError::BucketNotFound);
            },
            Some(i) => i,
        };
        let record = RequestData {
            path: path.to_owned(),
            method: method.to_owned(),
            query_params: parse_query_params(query_string),
            headers,
            body,
            timestamp,
        };
        let mut entry = self.entries.remove(idx);
        entry.bucket.push_record(record);
        proof {
            assert(self.entries@.insert(idx as int, entry) =~= old(self).entries@.update(
                idx as int,
                entry,
            ));
            lemma_entry_map_update(old(self).entries@, idx as int, entry);
        }
        self.entries.insert(idx, entry);
        Ok(())
    }

    /// Serves one page of a bucket's records. Demands the secret: its
    /// absence, a missing bucket, and a wrong secret are distinct
    /// failures, checked in that order. Never mutates the store.
    pub fn get_bucket_requests(
        &self,
        bucket_name: &str,
        password: Option<&str>,
        params: PaginationParams,
    ) -> (r: Result<PaginatedResponse, StoreError>)
        requires
            self.wf(),
        ensures
            ({
                let outcome = spec_list(
                    self@,
                    bucket_name@,
                    opt_view(password),
                    params.page,
                    params.page_size,
                );
                match r {
                    Ok(resp) => outcome == Ok::<PageModel, StoreError>(resp@),
                    Err(e) => outcome == Err::<PageModel, StoreError>(e),
                }
            }),
    {
        let pw: &str = match password {
            None => {
                return Err(StoreError::PasswordRequired);
            },
            Some(p) => p,
        };
        let idx: usize = match self.find_entry(bucket_name) {
            None => {
                return Err(StoreError::BucketNotFound);
            },
            Some(i) => i,
        };
        let entry = &self.entries[idx];
        if !verify_bucket_password(&entry.bucket, pw) {
            return Err(StoreError::InvalidPassword);
        }
        Ok(paginate(&entry.bucket.requests, params.page, params.page_size))
    }

    /// Removes a bucket and everything it holds. Demands the secret; a
    /// failed verification leaves the bucket fully intact.
    pub fn delete_bucket(&mut self, bucket_name: &str, password: Option<&str>) -> (r: Result<
        (),
        StoreError,
    >)
        requires
            old(self).wf(),
        ensures
            final(self).wf(),
            ({
                match spec_delete(old(self)@, bucket_name@, opt_view(password)) {
                    Ok(m) => r == Ok::<(), StoreError>(()) && final(self)@ == m,
                    Err(e) => r == Err::<(), StoreError>(e) && final(self)@ == old(self)@,
                }
            }),
    {
        let pw: &str = match password {
            None => {
                return Err(StoreError::PasswordRequired);
            },
            Some(p) => p,
        };
        let idx: usize = match self.find_entry(bucket_name) {
            None => {
                return Err(StoreError::BucketNotFound);
            },
            Some(i) => i,
        };
        if !verify_bucket_password(&self.entries[idx].bucket, pw) {
            return Err(StoreError::InvalidPassword);
        }
        proof {
            lemma_entry_map_remove(self.entries@, idx as int);
        }
        self.entries.remove(idx);
        Ok(())
    }

    /// Empties a bucket's records; the bucket and its secret survive.
    /// Demands the secret; a failed verification changes nothing.
    pub fn clear_bucket_requests(&mut self, bucket_name: &str, password: Option<&str>) -> (r:
        Result<(), StoreError>)
        requires
            old(self).wf(),
        ensures
            final(self).wf(),
            ({
                match spec_clear(old(self)@, bucket_name@, opt_view(password)) {
                    Ok(m) => r == Ok::<(), StoreError>(()) && final(self)@ == m,
                    Err(e) => r == Err::<(), StoreError>(e) && final(self)@ == old(self)@,
                }
            }),
    {
        let pw: &str = match password {
            None => {
                return Err(StoreError::PasswordRequired);
            },
            Some(p) => p,
        };
        let idx: usize = match self.find_entry(bucket_name) {
            None => {
                return Err(StoreError::BucketNotFound);
            },
            Some(i) => i,
        };
        if !verify_bucket_password(&self.entries[idx].bucket, pw) {
            return Err(StoreError::InvalidPassword);
        }
        let mut entry = self.entries.remove(idx);
        entry.bucket.clear_records();
        proof {
            assert(self.entries@.insert(idx as int, entry) =~= old(self).entries@.update(
                idx as int,
                entry,
            ));
            lemma_entry_map_update(old(self).entries@, idx as int, entry);
        }
        self.entries.insert(idx, entry);
        Ok(())
    }

    /// The names of all buckets, in the order the buckets were created.
    /// No secret is demanded: names are not confidential.
    pub fn list_buckets(&self) -> (r: Vec<String>)
        requires
            self.wf(),
        ensures
            forall|i: int| 0 <= i < r@.len() ==> self@.contains_key(#[trigger] r@[i]@),
            forall|n: Seq<char>|
                self@.contains_key(n) ==> exists|i: int| 0 <= i < r@.len() && r@[i]@ == n,
            forall|i: int, j: int| 0 <= i < j < r@.len() ==> r@[i]@ != r@[j]@,
    {
        let mut names: Vec<String> = Vec::new();
        let mut i: usize = 0;
        while i < self.entries.len()
            invariant
                self.wf(),
                i <= self.entries@.len(),
                names@.len() == i,
                forall|k: int| 0 <= k < i ==> names@[k]@ == self.entries@[k].name@,
            decreases self.entries@.len() - i,
        {
            names.push(self.entries[i].name.clone());
            i = i + 1;
        }
        proof {
            assert forall|k: int| 0 <= k < names@.len() implies self@.contains_key(
                names@[k]@,
            ) by {
                lemma_entry_map_index(self.entries@, k);
            }
            assert forall|n: Seq<char>| self@.contains_key(n) implies exists|k: int|
                0 <= k < names@.len() && names@[k]@ == n by {
                lemma_entry_map_contains(self.entries@, n);
                let k = choose|k: int| 0 <= k < self.entries@.len() && self.entries@[k].name@ == n;
                assert(names@[k]@ == n);
            }
        }
        names
    }
}

} // verus!
