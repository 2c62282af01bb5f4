//! The time of day.
use vstd::prelude::*;
#[allow(unused_imports)]
use crate::outside::{clock_millis, date_text, format_date, http_date_pattern, latest_millis};

verus! {

/// Whether a time can be given as a date.
pub open spec fn is_datable(millis: u64) -> bool {
    millis <= latest_millis()
}

/// The date and time at so many milliseconds since 1970, as requests to the drive give it.
pub open spec fn http_date_of(millis: u64) -> Seq<char> {
    date_text(millis as int, http_date_pattern())
}

/// The date and time at so many milliseconds since 1970, as requests to the drive give it.
pub fn http_date(millis: u64) -> (res: String)
    requires
        is_datable(millis),
    ensures
        res@ == http_date_of(millis),
{
    format_date(millis as i64, "%a, %d %b %Y %H:%M:%S GMT")
}

/// The milliseconds since 1970 that a reading of the clock stands for: a clock before 1970 counts
/// as 1970, and one after the last date as that date.
pub open spec fn datable_of(reading: i64) -> int {
    if reading < 0 {
        0
    } else if reading > latest_millis() {
        latest_millis()
    } else {
        reading as int
    }
}

/// The milliseconds since 1970 that a reading of the clock stands for.
pub fn datable_millis(reading: i64) -> (res: u64)
    ensures
        res == datable_of(reading),
        is_datable(res),
{
    if reading < 0 {
        0
    } else if reading > 8_210_266_876_799_999 {
        8_210_266_876_799_999
    } else {
        reading as u64
    }
}

/// Milliseconds since 1970 by the clock, as [`datable_millis`] makes them of its reading. What
/// the clock reads is left open.
pub fn now_millis() -> (res: u64)
    ensures
        exists|reading: i64| res == #[trigger] datable_of(reading),
        is_datable(res),
{
    datable_millis(clock_millis())
}

/// A reading of the clock counts as it is, as long as it is neither before 1970 nor after the
/// last date. What it counts as never runs backwards.
pub proof fn law_clock_is_taken_at_its_word(reading: i64, later: i64)
    requires
        reading <= later,
    ensures
        0 <= datable_of(reading) <= datable_of(later) <= latest_millis(),
        0 <= reading <= latest_millis() ==> datable_of(reading) == reading,
        reading < 0 ==> datable_of(reading) == 0,
        reading > latest_millis() ==> datable_of(reading) == latest_millis(),
{
}

/// Dates in requests are written in the one form that HTTP prefers.
pub proof fn law_dates_are_in_one_form(millis: u64)
    ensures
        http_date_of(millis) == date_text(millis as int, "%a, %d %b %Y %H:%M:%S GMT"@),
{
}

}
