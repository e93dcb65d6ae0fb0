//! Bucket-name validation: syntax and reserved-word rules.

use vstd::prelude::*;

verus! {

/// Greatest number of characters a bucket name may have.
pub const MAX_NAME_LEN: usize = 100;

/// Why a proposed bucket name was rejected; the first failing rule, in the
/// order the rules are checked, determines the variant.
#[derive(Clone, Copy, Debug, PartialEq, Eq, Structural)]
pub enum NameError {
    /// The name is empty.
    Empty,
    /// The name collides with the service's own route namespace.
    Reserved,
    /// The name has more than `MAX_NAME_LEN` characters.
    TooLong,
    /// The name holds a character other than an ASCII letter, an ASCII
    /// digit, `-` or `_`.
    BadChar,
    /// The name starts or ends with `-` or `_`.
    BadEdge,
}

/// A character allowed in a bucket name: ASCII alphanumeric, `-` or `_`.
pub open spec fn is_name_char(c: char) -> bool {
    ('a' <= c && c <= 'z') || ('A' <= c && c <= 'Z') || ('0' <= c && c <= '9') || c == '-' || c
        == '_'
}

/// Whether the name is one the service reserves for its own routes.
pub open spec fn spec_is_reserved(name: Seq<char>) -> bool {
    name == "api"@ || name == "ui"@
}

/// The validation outcome for a proposed bucket name: the rules are checked
/// in order (non-empty, not reserved, length, character set, edges) and the
/// first failing rule is reported.
pub open spec fn spec_validate_name(name: Seq<char>) -> Result<(), NameError> {
    if name.len() == 0 {
        Err(NameError::Empty)
    } else if spec_is_reserved(name) {
        Err(NameError::Reserved)
    } else if name.len() > MAX_NAME_LEN {
        Err(NameError::TooLong)
    } else if exists|i: int| 0 <= i < name.len() && !is_name_char(name[i]) {
        Err(NameError::BadChar)
    } else if name[0] == '-' || name[0] == '_' || name[name.len() - 1] == '-' || name[name.len()
        - 1] == '_' {
        Err(NameError::BadEdge)
    } else {
        Ok(())
    }
}

/// A name every rule accepts.
pub open spec fn valid_name(name: Seq<char>) -> bool {
    spec_validate_name(name) is Ok
}

/// Character-sequence equality of two string slices.
fn str_eq(a: &str, b: &str) -> (r: bool)
    ensures
        r == (a@ == b@),
{
    let a_owned: String = a.to_owned();
    let b_owned: String = b.to_owned();
    a_owned == b_owned
}

/// Whether `name` collides with the service's own route namespace.
pub fn is_reserved_bucket_name(name: &str) -> (r: bool)
    ensures
        r == spec_is_reserved(name@),
{
    str_eq(name, "api") || str_eq(name, "ui")
}

/// Checks a proposed bucket name against the rules, in order: non-empty,
/// not reserved, at most `MAX_NAME_LEN` characters, only ASCII alphanumeric
/// characters with `-` and `_`, and neither starting nor ending with `-` or
/// `_`. Reports the first failing rule.
pub fn validate_bucket_name(name: &str) -> (r: Result<(), NameError>)
    ensures
        r == spec_validate_name(name@),
{
    if name.is_empty() {
        return Err(NameError::Empty);
    }
    if is_reserved_bucket_name(name) {
        return Err(NameError::Reserved);
    }
    let len = name.unicode_len();
    if len > MAX_NAME_LEN {
        return Err(NameError::TooLong);
    }
    let mut i: usize = 0;
    while i < len
        invariant
            len == name@.len(),
            i <= len,
            name@.len() != 0,
            !spec_is_reserved(name@),
            name@.len() <= MAX_NAME_LEN,
            forall|j: int| 0 <= j < i ==> is_name_char(name@[j]),
        decreases len - i,
    {
        let c = name.get_char(i);
        if !(('a' <= c && c <= 'z') || ('A' <= c && c <= 'Z') || ('0' <= c && c <= '9') || c == '-'
            || c == '_') {
            assert(!is_name_char(name@[i as int]));
            return Err(NameError::BadChar);
        }
        i = i + 1;
    }
    let first = name.get_char(0);
    let last = name.get_char(len - 1);
    if first == '-' || first == '_' || last == '-' || last == '_' {
        return Err(NameError::BadEdge);
    }
    Ok(())
}

} // verus!
