//! An in-memory, multi-tenant store of captured HTTP requests.
//!
//! Clients create a named, password-protected bucket; requests sent to a
//! path whose first segment is the bucket's name are recorded (method, path,
//! query parameters, headers, body, arrival time) with bounded retention:
//! once a bucket holds its capacity of records, each new capture evicts the
//! single oldest one. The owner retrieves records paginated, authenticated
//! by a shared secret that is compared in constant time.
//!
//! The store itself is a plain value; callers that share it across threads
//! wrap it in a lock (see `handle_poison` for recovering a poisoned guard).

use vstd::prelude::*;

pub mod auth;
pub mod bucket;
pub mod errors;
pub mod laws;
pub mod name;
pub mod paginate;
pub mod parse;
pub mod record;
pub mod store;
pub mod sync;

pub use auth::verify_bucket_password;
pub use bucket::Bucket;
pub use errors::StoreError;
pub use laws::{lemma_capture_preserves_buckets, lemma_captures_within_capacity,
    lemma_clear_idempotent, lemma_create_unique, lemma_delete_wrong_password,
    lemma_fifo_retention, lemma_password_gating};
pub use name::{is_reserved_bucket_name, validate_bucket_name, NameError};
pub use paginate::{paginate, PaginatedResponse, PaginationParams};
pub use parse::{extract_bucket_name, parse_query_params};
pub use record::RequestData;
pub use store::{BucketStore, CreateBucketPayload};
pub use sync::handle_poison;

verus! {

/// Greatest number of records a bucket retains; capturing beyond this
/// evicts the oldest record first.
pub const MAX_REQUESTS_PER_BUCKET: usize = 1000;

/// Page size used by the listing operation when none is supplied.
pub const DEFAULT_PAGE_SIZE: usize = 50;

/// Largest page size the listing operation will honour.
pub const MAX_PAGE_SIZE: usize = 500;

} // verus!
