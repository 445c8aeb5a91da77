//! Timestamp normalization, through chrono.
//!
//! A record's timestamp is kept as its already-normalized display text: the
//! same instant written in UTC, truncated to whole seconds, `Z`-suffixed.

use vstd::prelude::*;

verus! {

/// The UTC whole-second RFC 3339 form of a timestamp text: `Some` exactly
/// when the text parses as an RFC 3339 timestamp, and then the same instant
/// written in UTC, truncated to whole seconds, with a `Z` suffix.  The form
/// is a function of the text alone.
pub uninterp spec fn utc_form_of(s: Seq<char>) -> Option<Seq<char>>;

/// Relies on `chrono::DateTime::parse_from_rfc3339` (whether the text is an
/// RFC 3339 timestamp, and which instant it names), `DateTime::with_timezone`
/// (the same instant under UTC) and `DateTime::to_rfc3339_opts` (its writing
/// truncated to whole seconds with a `Z` suffix): all three depend on the
/// text alone.
#[verifier::external_body]
pub fn normalize_timestamp(s: &str) -> (r: Option<String>)
    ensures
        match r {
            Some(t) => utc_form_of(s@) == Some(t@),
            None => utc_form_of(s@) is None,
        },
{
    match chrono::DateTime::parse_from_rfc3339(s) {
        Ok(d) => Some(
            d.with_timezone(&chrono::Utc).to_rfc3339_opts(chrono::SecondsFormat::Secs, true),
        ),
        Err(_) => None,
    }
}

} // verus!
