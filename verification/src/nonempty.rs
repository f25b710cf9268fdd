//! Non-empty text, as the `non-empty-string` crate checks it.
use vstd::prelude::*;
use non_empty_string::NonEmptyString;
use std::str::FromStr;

verus! {

/// `NonEmptyString::from_str` from the `non-empty-string` crate: it
/// accepts exactly the non-empty strings and keeps their text; a refused
/// string comes back as the error.
#[verifier::external_body]
pub(crate) fn non_empty(s: &str) -> (r: Result<String, String>)
    ensures
        match r {
            Ok(t) => s@.len() > 0 && t@ == s@,
            Err(e) => s@.len() == 0 && e@ == s@,
        },
{
    match NonEmptyString::from_str(s) {
        Ok(n) => Ok(n.into_inner()),
        Err(e) => Err(e),
    }
}

} // verus!
