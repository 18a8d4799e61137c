//! The trusted boundary to the clock and to calendar formatting. An
//! instant is carried everywhere as its RFC 3339 text, so the storage and
//! drift logic over it is plain string logic.

use vstd::prelude::*;

verus! {

/// Relies on `chrono::Utc::now` and `chrono::DateTime::to_rfc3339`: the
/// current instant, rendered as RFC 3339 text. The result depends on the
/// clock, so nothing is promised of it.
#[verifier::external_body]
pub(crate) fn now_rfc3339() -> String {
    chrono::Utc::now().to_rfc3339()
}

/// The display form of an RFC 3339 instant, `"DD/MM/YYYY, HH:MM:SS"`; a
/// pure function of the text. Text that is not an RFC 3339 instant is
/// displayed as it stands.
pub uninterp spec fn spec_display_time(ts: Seq<char>) -> Seq<char>;

/// Relies on `chrono::DateTime::parse_from_rfc3339` and
/// `chrono::DateTime::format`: both are pure functions of the text, with
/// no locale or time-zone lookup (the offset is part of the text).
#[verifier::external_body]
pub(crate) fn display_time(ts: &str) -> (r: String)
    ensures
        r@ == spec_display_time(ts@),
{
    match chrono::DateTime::parse_from_rfc3339(ts) {
        Ok(t) => t.format("%d/%m/%Y, %H:%M:%S").to_string(),
        Err(_) => ts.to_owned(),
    }
}

} // verus!
