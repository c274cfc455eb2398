//! Points in time, as whole seconds since the Unix epoch and nanoseconds
//! within that second, and the RFC 3339 parsing of them done by `chrono`.
use vstd::prelude::*;

verus! {

/// A UTC point in time: `secs` whole seconds since 1970-01-01T00:00:00Z and
/// `nanos` nanoseconds past that second (`chrono` lets `nanos` reach up to
/// just under two seconds to represent a leap second).
#[derive(Clone, Copy, Debug, PartialEq, Eq, Structural)]
pub struct Instant {
    pub secs: i64,
    pub nanos: u32,
}

/// `a` is not later than `b`: the order of `chrono::DateTime<Utc>`, which
/// compares the seconds first and then the nanoseconds.
pub open spec fn not_after(a: Instant, b: Instant) -> bool {
    a.secs < b.secs || (a.secs == b.secs && a.nanos <= b.nanos)
}

/// Whether `a` is not later than `b`.
pub fn instant_le(a: Instant, b: Instant) -> (r: bool)
    ensures
        r == not_after(a, b),
{
    a.secs < b.secs || (a.secs == b.secs && a.nanos <= b.nanos)
}

#[verifier::external_type_specification]
#[verifier::external_body]
pub struct ExParseError(chrono::ParseError);

/// The UTC point in time that an RFC 3339 text denotes, as `chrono` reads
/// it (`None` where `chrono` refuses the text).
pub uninterp spec fn rfc3339_instant(text: Seq<char>) -> Option<(i64, u32)>;

/// `chrono::DateTime::parse_from_rfc3339` followed by the conversion to
/// UTC, taken apart into seconds and nanoseconds. The contract ties the
/// result to the text through `rfc3339_instant` and says nothing more of
/// which texts are accepted; which parse error comes back is left unsaid.
#[verifier::external_body]
pub(crate) fn parse_rfc3339_utc(text: &str) -> (r: Result<Instant, chrono::ParseError>)
    ensures
        r is Err <==> rfc3339_instant(text@) is None,
        r matches Ok(i) ==> rfc3339_instant(text@) == Some((i.secs, i.nanos)),
{
    match chrono::DateTime::parse_from_rfc3339(text) {
        Ok(dt) => {
            let utc = dt.with_timezone(&chrono::Utc);
            Ok(Instant { secs: utc.timestamp(), nanos: utc.timestamp_subsec_nanos() })
        },
        Err(e) => Err(e),
    }
}

} // verus!
