//! Constant-time verification of a supplied secret against a bucket's
//! stored secret.

use vstd::prelude::*;

use subtle::ConstantTimeEq;

use crate::bucket::Bucket;

verus! {

/// Relies on subtle's `ConstantTimeEq` for byte slices: `ct_eq` returns a
/// `Choice` that is set exactly when the two slices have equal length and
/// equal contents, without short-circuiting on the first differing byte,
/// and `bool::from` unwraps it. UTF-8 encoding is injective, so two string
/// slices have equal bytes exactly when their character sequences are
/// equal.
#[verifier::external_body]
fn constant_time_str_eq(a: &str, b: &str) -> (r: bool)
    ensures
        r == (a@ == b@),
{
    a.as_bytes().ct_eq(b.as_bytes()).into()
}

/// Whether the supplied secret matches the bucket's stored secret. The
/// comparison runs in time independent of where the first differing byte
/// occurs, so response timing reveals nothing about the stored secret
/// beyond its length.
pub fn verify_bucket_password(bucket: &Bucket, password: &str) -> (r: bool)
    ensures
        r == (bucket@.password == password@),
{
    constant_time_str_eq(bucket.password.as_str(), password)
}

} // verus!
