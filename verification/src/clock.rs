//! The clock, and the written form of instants.

use vstd::prelude::*;
use crate::text::option_text;

verus! {

/// The RFC 3339 text, with microseconds and a closing `Z`, that `chrono` gives the instant which
/// lies this many microseconds behind the Unix epoch; nothing where the instant is out of range.
pub uninterp spec fn rfc3339_of_micros(us: i64) -> Option<Seq<char>>;

/// The microseconds between the Unix epoch and the instant that `chrono` reads from a text;
/// nothing where the text is no date and time.
pub uninterp spec fn micros_of_rfc3339(text: Seq<char>) -> Option<i64>;

/// The RFC 3339 text that `chrono` gives the instant at these seconds and nanoseconds behind the
/// Unix epoch; nothing where there is no such instant.
pub uninterp spec fn rfc3339_of_instant(secs: i64, nanos: u32) -> Option<Seq<char>>;

/// How many microseconds the timestamp half of a TID can count.
pub const MICROS_SPAN: i64 = 0x40_0000_0000_0000;

/// `chrono::TimeZone::timestamp_micros` on `Utc`, then `chrono::DateTime::to_rfc3339_opts` with
/// microseconds and `Z`. The outcome is a function of the count. Every count that a TID can hold
/// lies before the year 2600: there the text exists, ends in `Z`, and reads back as the same count.
#[verifier::external_body]
pub(crate) fn write_micros(us: i64) -> (r: Option<String>)
    ensures
        option_text(r) == rfc3339_of_micros(us),
        0 <= us < MICROS_SPAN ==> {
            &&& r is Some
            &&& r->0@.len() > 0
            &&& r->0@.last() == 'Z'
            &&& micros_of_rfc3339(r->0@) == Some(us)
        },
{
    let at = chrono::TimeZone::timestamp_micros(&chrono::Utc, us).single();
    at.map(|dt| dt.to_rfc3339_opts(chrono::SecondsFormat::Micros, true))
}

/// The `FromStr` of `chrono::DateTime<Utc>`, then `timestamp_micros`. The outcome is a function of
/// the text; a text that `chrono` refuses gives nothing.
#[verifier::external_body]
pub(crate) fn read_micros(text: &str) -> (r: Option<i64>)
    ensures
        r == micros_of_rfc3339(text@),
{
    let at = text.parse::<chrono::DateTime<chrono::Utc>>().ok();
    at.map(|dt| dt.timestamp_micros())
}

/// The first second of the year -262143, with which `chrono`'s calendar begins.
pub const FIRST_SECOND: i64 = -8_334_601_228_800;

/// The last second of the year 262142, with which `chrono`'s calendar ends.
pub const LAST_SECOND: i64 = 8_210_266_876_799;

/// `chrono::DateTime::from_timestamp`, then `to_rfc3339`. The outcome is a function of the two
/// numbers; with nanoseconds below one second, it is a text for every second of the calendar and
/// for no other.
#[verifier::external_body]
pub(crate) fn write_instant(secs: i64, nanos: u32) -> (r: Option<String>)
    ensures
        option_text(r) == rfc3339_of_instant(secs, nanos),
        nanos < 1_000_000_000 ==> (r is Some <==> FIRST_SECOND <= secs <= LAST_SECOND),
{
    chrono::DateTime::from_timestamp(secs, nanos).map(|dt| dt.to_rfc3339())
}

/// `std::time::SystemTime::elapsed` on the Unix epoch: whole seconds, and the nanoseconds above
/// them, which are below one second. A clock set before the epoch gives nothing. No two readings
/// need agree.
#[verifier::external_body]
fn elapsed() -> (r: Option<(u64, u32)>)
    ensures
        r matches Some(t) ==> t.1 < 1_000_000_000,
{
    std::time::SystemTime::UNIX_EPOCH.elapsed().ok().map(|d| (d.as_secs(), d.subsec_nanos()))
}

/// Seconds and nanoseconds since the Unix epoch. A clock set before the epoch reads as the epoch.
pub fn now() -> (r: (u64, u32))
    ensures
        r.1 < 1_000_000_000,
{
    reading(elapsed())
}

/// The clock reading for what has elapsed since the Unix epoch, or for a clock set before it, which
/// reads as the epoch.
pub fn reading(elapsed: Option<(u64, u32)>) -> (r: (u64, u32))
    ensures
        r == (match elapsed {
            Some(t) => t,
            None => (0u64, 0u32),
        }),
{
    match elapsed {
        Some(t) => t,
        None => (0, 0),
    }
}

/// The microseconds at a clock reading, kept to 64 bits.
pub open spec fn micros_at(secs: u64, nanos: u32) -> u64 {
    ((secs * 1_000_000 + nanos / 1000) % 0x1_0000_0000_0000_0000) as u64
}

/// The microseconds at a clock reading.
pub fn micros(secs: u64, nanos: u32) -> (r: u64)
    ensures
        r == micros_at(secs, nanos),
{
    let whole: u128 = secs as u128 * 1_000_000 + (nanos / 1000) as u128;
    (whole % 0x1_0000_0000_0000_0000) as u64
}

/// The text that rows give an instant: RFC 3339, or nothing at all for one outside the calendar.
pub open spec fn instant_text(secs: int, nanos: u32) -> Seq<char> {
    if FIRST_SECOND <= secs <= LAST_SECOND {
        rfc3339_of_instant(secs as i64, nanos)->0
    } else {
        Seq::empty()
    }
}

/// Writes the instant at these seconds and nanoseconds behind the Unix epoch.
pub fn instant_string(secs: i64, nanos: u32) -> (r: String)
    requires
        nanos < 1_000_000_000,
    ensures
        r@ == instant_text(secs as int, nanos),
        FIRST_SECOND <= secs <= LAST_SECOND ==> rfc3339_of_instant(secs, nanos) == Some(r@),
{
    match write_instant(secs, nanos) {
        Some(s) => s,
        None => String::new(),
    }
}

/// The second of a clock reading within the calendar. A clock beyond its end reads as its last second.
pub open spec fn calendar_second(secs: u64) -> i64 {
    if secs <= LAST_SECOND {
        secs as i64
    } else {
        LAST_SECOND
    }
}

/// Keeps the second of a clock reading within the calendar.
pub fn within_calendar(secs: u64) -> (r: i64)
    ensures
        r == calendar_second(secs),
{
    if secs <= LAST_SECOND as u64 {
        secs as i64
    } else {
        LAST_SECOND
    }
}

/// The text that rows are stamped with at a clock reading.
pub fn stamp_at(secs: u64, nanos: u32) -> (r: String)
    requires
        nanos < 1_000_000_000,
    ensures
        rfc3339_of_instant(calendar_second(secs), nanos) == Some(r@),
{
    instant_string(within_calendar(secs), nanos)
}

/// Whether a text is what rows are stamped with at some clock reading.
pub open spec fn is_stamp(text: Seq<char>) -> bool {
    exists|secs: u64, nanos: u32|
        nanos < 1_000_000_000 && #[trigger] rfc3339_of_instant(calendar_second(secs), nanos)
            == Some(text)
}

/// The current time as the text that rows are stamped with.
pub fn now_rfc3339() -> (r: String)
    ensures
        is_stamp(r@),
{
    let (secs, nanos) = now();
    stamp_at(secs, nanos)
}

/// A clock reading counts its microseconds: a second has a million of them, and what is below one is
/// dropped.
pub proof fn law_micros_count_the_clock(secs: u64, nanos: u32, micros: u32)
    requires
        (secs + 1) * 1_000_000 <= u64::MAX,
        nanos < 1000,
        micros < 1_000_000,
    ensures
        micros_at(secs, 0) == secs * 1_000_000,
        micros_at(secs, (micros * 1000 + nanos) as u32) == secs * 1_000_000 + micros,
{
}

/// Every second that the calendar has from the epoch on is kept, and every later one reads as the last.
pub proof fn law_calendar_keeps_its_seconds(secs: u64)
    ensures
        secs <= 8_210_266_876_799 ==> calendar_second(secs) == secs,
        secs >= 8_210_266_876_799 ==> calendar_second(secs) == 8_210_266_876_799,
{
}

/// An instant within the calendar has its RFC 3339 text, and one outside it has an empty one.
pub proof fn law_instants_have_their_text(secs: i64, nanos: u32)
    ensures
        -8_334_601_228_800 <= secs <= 8_210_266_876_799 ==> instant_text(secs as int, nanos)
            == rfc3339_of_instant(secs, nanos)->0,
        secs < -8_334_601_228_800 || secs > 8_210_266_876_799 ==> instant_text(secs as int, nanos)
            == Seq::<char>::empty(),
{
}

/// What rows are stamped with is the RFC 3339 text of an instant from the epoch on that the calendar has.
pub proof fn law_stamps_are_instants(text: Seq<char>)
    requires
        is_stamp(text),
    ensures
        exists|secs: i64, nanos: u32|
            0 <= secs <= LAST_SECOND && nanos < 1_000_000_000 && #[trigger] rfc3339_of_instant(
                secs,
                nanos,
            ) == Some(text),
{
    let (secs, nanos) = choose|secs: u64, nanos: u32|
        nanos < 1_000_000_000 && #[trigger] rfc3339_of_instant(calendar_second(secs), nanos) == Some(
            text,
        );
    assert(0 <= calendar_second(secs) <= LAST_SECOND);
}

} // verus!
