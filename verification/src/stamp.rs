//! What a new record gets from outside: its identifiers and its time.

use vstd::prelude::*;

verus! {

/// `bson::oid::ObjectId::new`, followed by `ObjectId::bytes`: the twelve
/// bytes of a new identifier, made from the clock, a random number that the
/// process draws once, and a counter. Nothing is claimed of the bytes. The
/// call panics where the system's clock stands before 1970 or after 2106.
#[verifier::external_body]
pub(crate) fn fresh_id() -> [u8; 12] {
    bson::oid::ObjectId::new().bytes()
}

/// `chrono::Utc::now`, written out by its `Display`: the current date and
/// time in UTC, as text. Nothing is claimed of the text. The call panics
/// where the system's clock stands before 1970.
#[verifier::external_body]
pub(crate) fn current_time() -> String {
    chrono::Utc::now().to_string()
}

} // verus!
