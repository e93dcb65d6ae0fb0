//! The failure kinds store operations report. Every failure is returned as
//! an explicit result value; no operation aborts the process, and a failed
//! operation leaves the store unchanged.

use vstd::prelude::*;

use crate::name::NameError;

verus! {

/// Why a store operation failed. The transport layer maps each kind to a
/// status code and a short message.
#[derive(Clone, Copy, Debug, PartialEq, Eq, Structural)]
pub enum StoreError {
    /// Creation was asked for with an empty secret.
    EmptyPassword,
    /// The proposed bucket name fails validation; carries the rule broken.
    InvalidName(NameError),
    /// Creation targets a name that is already taken.
    AlreadyExists,
    /// The capture target has no resolvable bucket segment.
    InvalidPath,
    /// The operation targets a name no bucket has.
    BucketNotFound,
    /// Listing, deletion or clearing arrived without a secret.
    PasswordRequired,
    /// The supplied secret does not match the bucket's secret.
    InvalidPassword,
}

} // verus!
