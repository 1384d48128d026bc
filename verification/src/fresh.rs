//! What changes from one call to the next: fresh identifiers and the clock.

use vstd::prelude::*;
use chrono::Utc;
use uuid::Uuid;

verus! {

/// The length of an identifier in its hyphenated form: 32 hexadecimal digits
/// and four hyphens.
pub const ID_LENGTH: usize = 36;

/// Calls `uuid::Uuid::new_v4` and writes the result with its `Display` impl,
/// which is the lower-case hyphenated form. The identifier is random; the
/// contract states only the length of that form.
#[verifier::external_body]
pub(crate) fn generate_id() -> (id: String)
    ensures
        id@.len() == ID_LENGTH,
{
    Uuid::new_v4().to_string()
}

/// Calls `chrono::Utc::now` and `DateTime::timestamp` on the result: the
/// whole seconds since the start of 1970 in UTC. `now` panics where the
/// system clock stands before that moment, so what it returns is never
/// negative; and the days of a `DateTime` fit in 32 bits, so its seconds stay
/// below the largest `i64`.
#[verifier::external_body]
pub(crate) fn now_seconds() -> (now: i64)
    ensures
        0 <= now < i64::MAX,
{
    Utc::now().timestamp()
}

} // verus!
