//! Delta commits, stored as objects in each table's own log partition, where
//! the version is the object key. Listing, ordering and conflict decisions
//! live in the store's delta log module; this is what a listing's reads are
//! held to.

use crate::errors::{ErrorCode, UcError};
use crate::text::{append_chars, chars_of, signed_decimal_chars, signed_decimal_of, string_of};
use vstd::prelude::*;

verus! {

/// The message for a version that was listed but could not be read.
pub open spec fn hole_message(version: i64) -> Seq<char> {
    "delta log hole: version "@ + signed_decimal_of(version as int) + " listed but unreadable"@
}

/// The body read for a listed version. A listed version that cannot be
/// read is a hole in the table's history, and is refused rather than
/// skipped: a client could not detect the gap.
pub fn listed_body(version: i64, read: Option<Vec<u8>>) -> (r: Result<Vec<u8>, UcError>)
    ensures
        match read {
            Some(b) => r == Ok::<Vec<u8>, UcError>(b),
            None => r matches Err(e) && e.code == ErrorCode::Internal && e.message@ == hole_message(version),
        },
{
    match read {
        Some(b) => Ok(b),
        None => {
            let mut m = chars_of("delta log hole: version ");
            append_chars(&mut m, signed_decimal_chars(version).as_slice());
            append_chars(&mut m, chars_of(" listed but unreadable").as_slice());
            let e = UcError::with_message(ErrorCode::Internal, string_of(m.as_slice()));
            assert(e.message@ =~= hole_message(version));
            Err(e)
        },
    }
}

} // verus!
