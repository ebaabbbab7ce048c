//! Moments in time: Unix milliseconds, and stamps of the UTC time.
use crate::session::text_option;
use core::time::Duration;
use std::time::SystemTime;
use vstd::prelude::*;

verus! {

/// A moment of the system clock.
#[verifier::external_type_specification]
#[verifier::external_body]
pub struct ExSystemTime(std::time::SystemTime);

/// The error of a moment that lies before another.
#[verifier::external_type_specification]
#[verifier::external_body]
pub struct ExSystemTimeError(std::time::SystemTimeError);

/// How long after the Unix epoch a moment is; `None` for a moment before it.
pub uninterp spec fn since_epoch(t: SystemTime) -> Option<Duration>;

/// The whole milliseconds of a span of time.
pub uninterp spec fn millis(d: Duration) -> u128;

/// `SystemTime::duration_since` from `UNIX_EPOCH`: the time that has passed, an error for a
/// moment before the epoch.
#[verifier::external_body]
fn duration_since_epoch(t: SystemTime) -> (r: Result<Duration, std::time::SystemTimeError>)
    ensures
        r is Ok <==> since_epoch(t) is Some,
        r is Ok ==> since_epoch(t) == Some(r->Ok_0),
{
    t.duration_since(std::time::UNIX_EPOCH)
}

/// `Duration::as_millis`: the whole milliseconds of a span of time.
pub assume_specification[ Duration::as_millis ](d: &Duration) -> (r: u128)
    ensures
        r == millis(*d),
;

/// The number that the low 64 bits of `n` denote in two's complement.
pub open spec fn low_i64(n: u128) -> int {
    let low = n % 0x1_0000_0000_0000_0000;
    if low < 0x8000_0000_0000_0000 {
        low as int
    } else {
        low - 0x1_0000_0000_0000_0000
    }
}

/// The Unix milliseconds of a moment: 0 before the epoch, reduced to 64 bits.
pub open spec fn unix_millis(t: SystemTime) -> int {
    match since_epoch(t) {
        Some(d) => low_i64(millis(d)),
        None => 0,
    }
}

fn truncate_to_i64(n: u128) -> (r: i64)
    ensures
        r == low_i64(n),
{
    let r = #[verifier::truncate] (n as i64);
    proof {
        let low: u64 = (n % 0x1_0000_0000_0000_0000) as u64;
        assert(n as i64 == low as i64) by (bit_vector)
            requires
                low == (n % 0x1_0000_0000_0000_0000u128) as u64;
        assert(low < 0x8000_0000_0000_0000 ==> low as i64 == low) by (bit_vector);
        assert(low >= 0x8000_0000_0000_0000 ==> low as i64 == low - 0x1_0000_0000_0000_0000) by (bit_vector);
    }
    r
}

/// The Unix milliseconds of a moment of the system clock.
pub fn to_unix_millis(t: SystemTime) -> (r: i64)
    ensures
        r == unix_millis(t),
{
    match duration_since_epoch(t) {
        Ok(d) => truncate_to_i64(d.as_millis()),
        Err(_) => 0,
    }
}

/// Whether a character is a decimal digit.
pub open spec fn is_digit(c: char) -> bool {
    '0' <= c <= '9'
}

/// Whether the text from `at` on is `n` digits.
pub open spec fn digits_at(s: Seq<char>, at: int, n: int) -> bool {
    forall|i: int| at <= i < at + n ==> is_digit(#[trigger] s[i])
}

/// Whether the text has two digits at `at` that denote a number from `low` to `high`.
pub open spec fn number_at(s: Seq<char>, at: int, low: int, high: int) -> bool {
    &&& is_digit(s[at])
    &&& is_digit(s[at + 1])
    &&& low <= 10 * (s[at] as int - '0' as int) + (s[at + 1] as int - '0' as int) <= high
}

/// A year from 1970 on: four digits, or a plus sign and more than four.
pub open spec fn is_year(s: Seq<char>) -> bool {
    ||| s.len() == 4 && digits_at(s, 0, 4)
    ||| s.len() > 5 && s[0] == '+' && digits_at(s, 1, s.len() - 1)
}

/// The shape of a moment written as `YYYYMMDD-HHMMSS`.
pub open spec fn is_compact_stamp(s: Seq<char>) -> bool {
    &&& s.len() >= 15
    &&& is_year(s.take(s.len() - 11))
    &&& number_at(s, s.len() - 11, 1, 12)
    &&& number_at(s, s.len() - 9, 1, 31)
    &&& s[s.len() - 7] == '-'
    &&& number_at(s, s.len() - 6, 0, 23)
    &&& number_at(s, s.len() - 4, 0, 59)
    &&& number_at(s, s.len() - 2, 0, 59)
}

/// The shape of a moment written as `YYYY-MM-DD HH:MM:SS UTC`.
pub open spec fn is_readable_stamp(s: Seq<char>) -> bool {
    &&& s.len() >= 23
    &&& is_year(s.take(s.len() - 19))
    &&& s[s.len() - 19] == '-'
    &&& number_at(s, s.len() - 18, 1, 12)
    &&& s[s.len() - 16] == '-'
    &&& number_at(s, s.len() - 15, 1, 31)
    &&& s[s.len() - 13] == ' '
    &&& number_at(s, s.len() - 12, 0, 23)
    &&& s[s.len() - 10] == ':'
    &&& number_at(s, s.len() - 9, 0, 59)
    &&& s[s.len() - 7] == ':'
    &&& number_at(s, s.len() - 6, 0, 59)
    &&& s.skip(s.len() - 4) == " UTC"@
}

/// The format of the stamp in the name of a conflict copy.
pub const COMPACT_FORMAT: &'static str = "%Y%m%d-%H%M%S";

/// The format of the stamp in a commit message.
pub const READABLE_FORMAT: &'static str = "%Y-%m-%d %H:%M:%S UTC";

/// The last millisecond of the year 9999.
pub const LAST_FOUR_DIGIT_MS: i64 = 253_402_300_799_999;

/// The UTC time of a moment, given in Unix milliseconds, written in a format; `None` for a
/// moment that is out of range.
pub uninterp spec fn utc_text(ms: i64, format: Seq<char>) -> Option<Seq<char>>;

/// `chrono::DateTime::from_timestamp_millis` and `DateTime::format`: the UTC time of a moment,
/// written in the given format, `None` for a moment that is out of range. No moment up to the
/// year 9999 is; its year has four digits. The format fixes the shape of the text; a moment made
/// from milliseconds is in no leap second.
#[verifier::external_body]
fn write_utc(ms: i64, format: &str) -> (r: Option<String>)
    requires
        0 <= ms,
        format@ == COMPACT_FORMAT@ || format@ == READABLE_FORMAT@,
    ensures
        text_option(r) == utc_text(ms, format@),
        ms <= LAST_FOUR_DIGIT_MS ==> r is Some,
        r is Some && format@ == COMPACT_FORMAT@ ==> is_compact_stamp(r->0@),
        r is Some && format@ == READABLE_FORMAT@ ==> is_readable_stamp(r->0@),
        r is Some && format@ == COMPACT_FORMAT@ && ms <= LAST_FOUR_DIGIT_MS ==> r->0@.len() == 15,
        r is Some && format@ == READABLE_FORMAT@ && ms <= LAST_FOUR_DIGIT_MS ==> r->0@.len() == 23,
{
    match chrono::DateTime::from_timestamp_millis(ms) {
        Some(t) => Some(t.format(format).to_string()),
        None => None,
    }
}

/// The UTC time of a moment of the system clock, written in a format; `None` before the epoch,
/// and where the moment is out of range.
pub open spec fn stamp_text(t: SystemTime, format: Seq<char>) -> Option<Seq<char>> {
    match since_epoch(t) {
        Some(d) => if millis(d) <= i64::MAX {
            utc_text(millis(d) as i64, format)
        } else {
            None
        },
        None => None,
    }
}

/// Whether a moment lies between the epoch and the end of the year 9999.
pub open spec fn is_common(t: SystemTime) -> bool {
    since_epoch(t) matches Some(d) && millis(d) <= LAST_FOUR_DIGIT_MS
}

/// The milliseconds since the epoch, for a moment from then on, as far as they fit.
fn millis_since_epoch(t: SystemTime) -> (r: Option<i64>)
    ensures
        r is Some <==> since_epoch(t) is Some && millis(since_epoch(t)->0) <= i64::MAX,
        r is Some ==> r->0 == millis(since_epoch(t)->0),
{
    match duration_since_epoch(t) {
        Ok(d) => {
            let ms = d.as_millis();
            if ms <= 0x7fff_ffff_ffff_ffff {
                Some(ms as i64)
            } else {
                None
            }
        },
        Err(_) => None,
    }
}

/// The UTC time of a moment as `YYYYMMDD-HHMMSS`.
pub fn compact_stamp(t: SystemTime) -> (r: Option<String>)
    ensures
        text_option(r) == stamp_text(t, COMPACT_FORMAT@),
        r is Some ==> is_compact_stamp(r->0@),
        is_common(t) ==> r is Some && r->0@.len() == 15,
{
    match millis_since_epoch(t) {
        Some(ms) => write_utc(ms, COMPACT_FORMAT),
        None => None,
    }
}

/// The UTC time of a moment as `YYYY-MM-DD HH:MM:SS UTC`.
pub fn readable_stamp(t: SystemTime) -> (r: Option<String>)
    ensures
        text_option(r) == stamp_text(t, READABLE_FORMAT@),
        r is Some ==> is_readable_stamp(r->0@),
        is_common(t) ==> r is Some && r->0@.len() == 23,
{
    match millis_since_epoch(t) {
        Some(ms) => write_utc(ms, READABLE_FORMAT),
        None => None,
    }
}

/// The Unix milliseconds of a moment are those since the epoch where they fit, and 0 before it.
pub proof fn milliseconds_since_the_epoch(t: SystemTime)
    ensures
        since_epoch(t) is None ==> unix_millis(t) == 0,
        since_epoch(t) matches Some(d) ==> millis(d) <= i64::MAX ==> unix_millis(t) == millis(d),
        since_epoch(t) matches Some(d) ==> (unix_millis(t) - millis(d)) % 0x1_0000_0000_0000_0000 == 0,
        i64::MIN <= unix_millis(t) <= i64::MAX,
{
}

/// A moment has the stamp of its milliseconds since the epoch, and none before the epoch or where
/// these do not fit.
pub proof fn stamp_of_the_milliseconds(t: SystemTime, format: Seq<char>)
    ensures
        since_epoch(t) is None ==> stamp_text(t, format) is None && !is_common(t),
        since_epoch(t) matches Some(d) ==> {
            &&& millis(d) <= i64::MAX ==> stamp_text(t, format) == utc_text(millis(d) as i64, format)
            &&& millis(d) > i64::MAX ==> stamp_text(t, format) is None
            &&& is_common(t) <==> millis(d) <= 253_402_300_799_999
        },
{
}

} // verus!
