//! Calendar text for unix timestamps.
use vstd::prelude::*;

verus! {

/// The `YYYY-MM-DD HH:MM:SS` UTC text of a unix time, or `None` where chrono
/// cannot represent that time.
pub uninterp spec fn utc_text(secs: int) -> Option<Seq<char>>;

/// Relies on chrono's `DateTime::<Utc>::from_timestamp` (`None` out of range)
/// and `DateTime::format` with `%Y-%m-%d %H:%M:%S`: the text depends on the
/// timestamp alone.
#[verifier::external_body]
pub(crate) fn format_utc(secs: i64) -> (r: Option<String>)
    ensures
        r matches Some(t) ==> utc_text(secs as int) == Some(t@),
        r is None ==> utc_text(secs as int) is None,
{
    match chrono::DateTime::from_timestamp(secs, 0) {
        Some(d) => Some(d.format("%Y-%m-%d %H:%M:%S").to_string()),
        None => None,
    }
}

/// `utc_text(secs)`, or the empty text where there is none.
pub open spec fn utc_text_or_empty(secs: int) -> Seq<char> {
    match utc_text(secs) {
        Some(t) => t,
        None => Seq::empty(),
    }
}

/// The calendar text of `secs`, empty where chrono cannot represent it.
pub fn utc_date_text(secs: i64) -> (r: String)
    ensures
        r@ == utc_text_or_empty(secs as int),
{
    match format_utc(secs) {
        Some(t) => t,
        None => String::new(),
    }
}

} // verus!
