use vstd::prelude::*;
use std::fmt::Write;

verus! {

/// What chrono renders for a Unix time in seconds, shown at a fixed offset
/// east of UTC (in seconds), with a strftime-style template.
pub uninterp spec fn time_text(secs: i64, offset: i32, template: Seq<char>) -> Seq<char>;

/// The earliest second this library promises to render: 0001-01-01 00:00:00 UTC.
pub const MIN_SECS: i64 = -62_135_596_800;

/// The latest second this library promises to render: 9999-12-31 23:59:59 UTC.
pub const MAX_SECS: i64 = 253_402_300_799;

/// A specifier letter that chrono renders for every date and time:
/// `%Y %m %d %H %M %S %b %e %a %T`.
pub open spec fn plain_specifier(c: char) -> bool {
    c == 'Y' || c == 'm' || c == 'd' || c == 'H' || c == 'M' || c == 'S' || c == 'b' || c == 'e'
        || c == 'a' || c == 'T'
}

/// A template of literal characters and plain specifiers: every `%` is
/// followed by a plain specifier letter.
pub open spec fn plain_template(t: Seq<char>) -> bool {
    forall|i: int| 0 <= i < t.len() && #[trigger] t[i] == '%' ==> i + 1 < t.len() && plain_specifier(t[i + 1])
}

/// Whether rendering is owed: an offset under a day, a time in the years 1
/// to 9999, and a plain template.
pub open spec fn renders(secs: i64, offset: i32, template: Seq<char>) -> bool {
    -86_400 < offset < 86_400 && MIN_SECS <= secs <= MAX_SECS && plain_template(template)
}

/// Relies on chrono's `DateTime::from_timestamp`, `FixedOffset::east_opt`,
/// `with_timezone` and `format`: `None` when the time is out of chrono's
/// range, when the offset is a day or more, or when the template does not
/// format; otherwise the rendered text. `from_timestamp` fails only outside
/// chrono's date range (far wider than the years 1 to 9999), `east_opt` only
/// for a day or more, and the writing only for an unparsable specifier.
#[verifier::external_body]
fn chrono_text(secs: i64, offset: i32, template: &str) -> (r: Option<String>)
    ensures
        !(-86_400 < offset < 86_400) ==> r is None,
        renders(secs, offset, template@) ==> r is Some,
        r matches Some(t) ==> t@ == time_text(secs, offset, template@),
{
    let utc = chrono::DateTime::from_timestamp(secs, 0)?;
    let zone = chrono::FixedOffset::east_opt(offset)?;
    let mut out = String::new();
    match write!(out, "{}", utc.with_timezone(&zone).format(template)) {
        Ok(()) => Some(out),
        Err(_) => None,
    }
}

/// A timestamp rendered with the template at the given offset from UTC;
/// `None` when the offset is a day or more, or chrono cannot render it;
/// always the text for a plain template, a time in the years 1 to 9999 and
/// an offset under a day.
pub fn get_time(secs: i64, offset: i32, template: &str) -> (r: Option<String>)
    ensures
        !(-86_400 < offset < 86_400) ==> r is None,
        renders(secs, offset, template@) ==> r is Some,
        r matches Some(t) ==> t@ == time_text(secs, offset, template@),
{
    if offset <= -86_400 || offset >= 86_400 {
        return None;
    }
    chrono_text(secs, offset, template)
}

} // verus!
