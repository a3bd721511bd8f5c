//! What the machine reports: its name and its clocks.

use vstd::prelude::*;
use std::time::{Duration, Instant};
use time::UtcDateTime;

verus! {

/// `std::time::Instant`: a reading of the monotonic clock, carried through
/// without a look inside.
#[verifier::external_type_specification]
#[verifier::external_body]
pub struct ExInstant(std::time::Instant);

/// `time::UtcDateTime`: a date and time in UTC, carried through without a
/// look inside.
#[verifier::external_type_specification]
#[verifier::external_body]
pub struct ExUtcDateTime(time::UtcDateTime);

/// `gethostname::gethostname`, read as text: the name is whatever the
/// system reports, so nothing is stated of it.
#[verifier::external_body]
pub(crate) fn host_name() -> String {
    gethostname::gethostname().to_string_lossy().into_owned()
}

/// `Instant::now`: nothing is stated of the instant.
#[verifier::external_body]
pub(crate) fn instant_now() -> Instant {
    Instant::now()
}

/// `Instant::elapsed`: nothing is stated of the duration.
#[verifier::external_body]
pub(crate) fn instant_elapsed(start: &Instant) -> Duration {
    start.elapsed()
}

/// `Duration::as_millis`: nothing is stated of the number.
#[verifier::external_body]
pub(crate) fn duration_millis(duration: &Duration) -> u128 {
    duration.as_millis()
}

/// `UtcDateTime::now`: nothing is stated of the time.
#[verifier::external_body]
pub(crate) fn utc_now() -> UtcDateTime {
    UtcDateTime::now()
}

/// Whether a character is a decimal digit.
pub open spec fn is_digit(c: char) -> bool {
    '0' <= c && c <= '9'
}

/// Whether a text has the form `YYYY-MM-DDTHH:MM:SS.nnnnnnnnnZ`: a date
/// with a year of four digits, the letter `T`, a time of day with nine
/// decimal digits of the second, and the letter `Z` for UTC.
pub open spec fn is_utc_timestamp(text: Seq<char>) -> bool {
    &&& text.len() == 30
    &&& text[4] == '-'
    &&& text[7] == '-'
    &&& text[10] == 'T'
    &&& text[13] == ':'
    &&& text[16] == ':'
    &&& text[19] == '.'
    &&& text[29] == 'Z'
    &&& forall|i: int|
        0 <= i < 29 && i != 4 && i != 7 && i != 10 && i != 13 && i != 16 && i != 19 ==> is_digit(
            #[trigger] text[i],
        )
}

/// `UtcDateTime::format` with the description `Iso8601::DEFAULT`: where
/// the time can be written so (its year has four digits), the text is the
/// date, the letter `T`, the time of day with nine decimal digits of the
/// second, and the letter `Z`; where it cannot, there is no text. Which
/// digits stand in the text is not stated.
#[verifier::external_body]
pub(crate) fn iso8601(moment: UtcDateTime) -> (text: Option<String>)
    ensures
        text matches Some(t) ==> is_utc_timestamp(t@),
{
    moment.format(&time::format_description::well_known::Iso8601::DEFAULT).ok()
}

} // verus!
