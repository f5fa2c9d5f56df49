//! Values that come from outside the program: fresh identifiers and the
//! current time.

use vstd::prelude::*;

verus! {

/// A new random identifier: `uuid::Uuid::new_v4`, written in the hyphenated
/// lower-case form. Nothing is assumed of the text; in particular not that
/// it differs from earlier ones, which the store checks on insertion. The
/// call panics where the operating system hands out no random bytes.
#[verifier::external_body]
pub(crate) fn new_user_id() -> String {
    uuid::Uuid::new_v4().to_string()
}

/// The current local time as an RFC 3339 text: `chrono::Local::now` and
/// `to_rfc3339`. Nothing is assumed of the text. The call panics where the
/// system clock stands before 1970.
#[verifier::external_body]
pub(crate) fn current_timestamp() -> String {
    chrono::Local::now().to_rfc3339()
}

} // verus!
