//! Trusted declarations for the outside crates that the library leans on:
//! UTF-8 reconstruction from std, random identifiers from `uuid`, and
//! wall-clock reading and timestamp formatting from `chrono`.

use vstd::prelude::*;
use vstd::utf8::*;

verus! {

/// Relies on `String::from_utf8`: it returns `Ok` exactly on valid UTF-8,
/// and the returned string spells the characters those bytes encode.
#[verifier::external_body]
pub fn string_from_utf8(bytes: Vec<u8>) -> (r: Option<String>)
    ensures
        r is Some <==> valid_utf8(bytes@),
        r is Some ==> r->Some_0@ == decode_utf8(bytes@),
{
    String::from_utf8(bytes).ok()
}

/// Relies on `uuid::Uuid::new_v4`: a freshly generated random identifier.
/// Nothing can be promised of a random value.
#[verifier::external_body]
pub fn fresh_random_id() -> (r: u128) {
    uuid::Uuid::new_v4().as_u128()
}

/// Relies on `chrono::Utc::now`: the wall clock, read as non-leap
/// milliseconds since the Unix epoch. Nothing can be promised of the clock.
#[verifier::external_body]
pub fn now_timestamp_millis() -> (r: i64) {
    chrono::Utc::now().timestamp_millis()
}

/// What `chrono` prints, in RFC 3339 / ISO 8601 form, for a given count of
/// non-leap milliseconds since the Unix epoch. The text depends on the
/// timestamp alone.
pub uninterp spec fn rfc3339_of(millis: i64) -> Seq<char>;

/// Relies on `chrono::DateTime::from_timestamp_millis` (documented to be
/// `Some` for any timestamp within a few hundred thousand years of the
/// epoch) and `DateTime::<Utc>::to_rfc3339`, whose output is a pure
/// function of the timestamp.
#[verifier::external_body]
pub fn format_rfc3339_millis(millis: i64) -> (r: String)
    requires
        -8_000_000_000_000_000 <= millis <= 8_000_000_000_000_000,
    ensures
        r@ == rfc3339_of(millis),
{
    chrono::DateTime::from_timestamp_millis(millis).unwrap().to_rfc3339()
}

} // verus!
