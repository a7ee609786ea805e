//! The wall clock and fresh identifiers.

use vstd::prelude::*;

use crate::text::is_hex_lower_digit;

verus! {

/// The current time as seconds since the Unix epoch (`chrono::Utc::now`,
/// then `timestamp`). Nothing is stated of the value: it is the clock's.
#[verifier::external_body]
pub(crate) fn unix_now() -> (t: i64) {
    chrono::Utc::now().timestamp()
}

/// A moment as whole seconds since the Unix epoch and the nanoseconds past
/// that second.
#[derive(Debug, Clone, Copy, PartialEq, Eq, Structural)]
pub struct Timestamp {
    pub secs: i64,
    pub nanos: u32,
}

/// The current moment (`chrono::Utc::now`, read with `timestamp` and
/// `timestamp_subsec_nanos`). Nothing is stated of the value: it is the
/// clock's.
#[verifier::external_body]
pub(crate) fn now_timestamp() -> (t: Timestamp) {
    let now = chrono::Utc::now();
    Timestamp { secs: now.timestamp(), nanos: now.timestamp_subsec_nanos() }
}

/// The current moment in RFC 3339 form (`chrono::Utc::now`, then
/// `to_rfc3339`). Nothing is stated of the text: it is the clock's.
#[verifier::external_body]
pub(crate) fn rfc3339_now() -> (s: String) {
    chrono::Utc::now().to_rfc3339()
}

/// The text of a version-4 UUID as `Uuid`'s `Display` writes it: 36
/// characters, lowercase hex digits in groups of 8, 4, 4, 4 and 12 separated
/// by hyphens, the version digit `4` opening the third group and the
/// RFC 4122 variant (`8`, `9`, `a` or `b`) opening the fourth.
pub open spec fn is_uuid_v4_text(s: Seq<char>) -> bool {
    &&& s.len() == 36
    &&& forall|i: int|
        0 <= i < 36 ==> (if i == 8 || i == 13 || i == 18 || i == 23 {
            s[i] == '-'
        } else {
            is_hex_lower_digit(#[trigger] s[i])
        })
    &&& s[14] == '4'
    &&& (s[19] == '8' || s[19] == '9' || s[19] == 'a' || s[19] == 'b')
}

/// A random version-4 UUID in its hyphenated textual form
/// (`uuid::Uuid::new_v4`, which sets the version and variant bits, then
/// `to_string`, which writes lowercase hyphenated hex). Which UUID comes back
/// is not stated: it is random.
#[verifier::external_body]
pub(crate) fn new_uuid_string() -> (s: String)
    ensures
        is_uuid_v4_text(s@),
{
    uuid::Uuid::new_v4().to_string()
}

} // verus!
