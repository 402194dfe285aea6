//! Instants and local time.
//!
//! An instant is a count of milliseconds since 1970-01-01T00:00:00Z, the
//! form in which the store persists it. `LocalTime` is an instant together
//! with the local UTC offset in force at that instant.

use vstd::prelude::*;

use chrono::TimeZone;

use crate::text::{decimal, push_decimal, push_two_digits, two_digits};

verus! {

/// Milliseconds per minute, hour and day.
pub const MINUTE_MS: i64 = 60_000;
pub const HOUR_MS: i64 = 3_600_000;
pub const DAY_MS: i64 = 86_400_000;

/// The earliest instant `chrono::DateTime<Utc>` can hold
/// (year -262143, January 1st, 00:00:00.000).
pub const MIN_UTC_MS: i64 = -8_334_601_228_800_000;

/// The latest instant `chrono::DateTime<Utc>` can hold, to the millisecond
/// (year 262142, December 31st, 23:59:59.999).
pub const MAX_UTC_MS: i64 = 8_210_266_876_799_999;

/// `ms` is an instant that `chrono::DateTime<Utc>` can represent.
pub open spec fn valid_utc_ms(ms: int) -> bool {
    MIN_UTC_MS <= ms <= MAX_UTC_MS
}

/// `chrono::DateTime::<Utc>::from_timestamp_millis`, tested for success.
/// Claims: it succeeds exactly on the instants between `MIN_UTC_MS` and
/// `MAX_UTC_MS`, the millisecond bounds of `DateTime::<Utc>::MIN_UTC` and
/// `MAX_UTC`.
#[verifier::external_body]
pub(crate) fn utc_millis_representable(ms: i64) -> (r: bool)
    ensures
        r == valid_utc_ms(ms as int),
{
    chrono::DateTime::<chrono::Utc>::from_timestamp_millis(ms).is_some()
}

/// The system clock (`std::time::SystemTime::now`) converted with chrono's
/// `From<SystemTime> for DateTime<Utc>`, as milliseconds. Claims only that
/// the instant is representable; the value is whatever the system clock
/// reads, before or after 1970. (The conversion panics only for a clock set
/// beyond chrono's range, past the year 262142 or before -262143.)
#[verifier::external_body]
pub(crate) fn now_utc_millis() -> (r: i64)
    ensures
        valid_utc_ms(r as int),
{
    chrono::DateTime::<chrono::Utc>::from(std::time::SystemTime::now()).timestamp_millis()
}

/// `chrono::Local.offset_from_utc_datetime`: the local UTC offset, in
/// seconds, in force at the instant. Claims only the range that
/// `chrono::FixedOffset` guarantees; the value depends on the machine's time
/// zone. (chrono panics when the zone data cannot be read.)
#[verifier::external_body]
pub(crate) fn local_offset_secs(utc_ms: i64) -> (r: i32)
    requires
        valid_utc_ms(utc_ms as int),
    ensures
        -86_400 < r < 86_400,
{
    let utc = chrono::DateTime::<chrono::Utc>::from_timestamp_millis(utc_ms).unwrap();
    chrono::Local.offset_from_utc_datetime(&utc.naive_utc()).local_minus_utc()
}

/// A point in time as seen on the local clock (a `DateTime<Local>`).
#[derive(Debug, Clone, Copy, PartialEq, Eq)]
pub struct LocalTime {
    /// The instant, in milliseconds since the Unix epoch.
    pub utc_ms: i64,
    /// The local UTC offset at that instant, in seconds.
    pub offset_secs: i32,
}

/// A local time whose offset was read from the local time zone for its
/// instant. Only `LocalTime::at` (and so `LocalTime::now`) makes one.
#[derive(Debug, Clone, Copy)]
pub struct ZoneReading {
    time: LocalTime,
}

impl ZoneReading {
    /// The local time read.
    pub closed spec fn time(&self) -> LocalTime {
        self.time
    }
}

/// `t` is a local time read from the local time zone: its offset is the one
/// the zone reported for its instant.
pub open spec fn from_zone(t: LocalTime) -> bool {
    exists|z: ZoneReading| #[trigger] z.time() == t
}

impl LocalTime {
    /// The instant is representable and the offset is a valid UTC offset.
    pub open spec fn wf(&self) -> bool {
        &&& valid_utc_ms(self.utc_ms as int)
        &&& -86_400 < self.offset_secs < 86_400
    }

    /// Milliseconds since the epoch on the local wall clock.
    pub open spec fn local_ms(&self) -> int {
        self.utc_ms + self.offset_secs * 1000
    }

    /// The current local time (as `chrono::Local::now` gives it).
    pub fn now() -> (t: LocalTime)
        ensures
            t.wf(),
            from_zone(t),
    {
        let utc_ms = now_utc_millis();
        LocalTime::at(utc_ms)
    }

    /// The local time at the instant `utc_ms`, with the offset the local
    /// time zone gives for it.
    pub fn at(utc_ms: i64) -> (t: LocalTime)
        requires
            valid_utc_ms(utc_ms as int),
        ensures
            t.wf(),
            t.utc_ms == utc_ms,
            from_zone(t),
    {
        let offset_secs = local_offset_secs(utc_ms);
        let t = LocalTime { utc_ms, offset_secs };
        let z = ZoneReading { time: t };
        assert(z.time() == t);
        t
    }
}

/// A reading of the system clock. Only `read_clock` makes one.
#[derive(Debug, Clone, Copy)]
pub struct ClockReading {
    ms: i64,
}

impl ClockReading {
    /// The instant read, in milliseconds since the Unix epoch.
    pub closed spec fn instant(&self) -> i64 {
        self.ms
    }

    /// The instant read, in milliseconds since the Unix epoch.
    pub fn ms(&self) -> (r: i64)
        ensures
            r == self.instant(),
    {
        self.ms
    }
}

/// `ms` is an instant the system clock read.
pub open spec fn clock_read(ms: i64) -> bool {
    exists|c: ClockReading| #[trigger] c.instant() == ms
}

/// Reads the system clock (`Utc::now`).
pub fn read_clock() -> (r: ClockReading)
    ensures
        valid_utc_ms(r.instant() as int),
{
    ClockReading { ms: now_utc_millis() }
}

/// The local calendar day (days since 1970-01-01 on the local wall clock)
/// of the wall-clock instant `local_ms`.
pub open spec fn day_number(local_ms: int) -> int {
    local_ms / (DAY_MS as int)
}

/// `H:MM` for the wall-clock instant `local_ms`: hour without a leading zero,
/// minutes with two digits.
pub open spec fn clock_label(local_ms: int) -> Seq<char> {
    let secs_of_day = (local_ms / 1000) % 86_400;
    decimal((secs_of_day / 3600) as nat) + seq![':'] + two_digits(((secs_of_day % 3600) / 60) as nat)
}

/// A multiple of a day, in milliseconds, larger than any wall-clock instant
/// of a representable time, used to move instants into the non-negative range.
pub const SHIFT_MS: i64 = 86_400_000_000_000_000;

/// A wall-clock instant of a representable time lies within `SHIFT_MS` of the epoch.
pub open spec fn within_shift(local_ms: int) -> bool {
    -SHIFT_MS <= local_ms <= SHIFT_MS
}

proof fn lemma_shift_div(x: int, d: int, k: int)
    requires
        0 < d,
    ensures
        (x + d * k) / d == x / d + k,
        (x + d * k) % d == x % d,
{
    vstd::arithmetic::div_mod::lemma_fundamental_div_mod(x, d);
    vstd::arithmetic::div_mod::lemma_mod_bound(x, d);
    assert(x + d * k == (x / d + k) * d + x % d) by (nonlinear_arith)
        requires
            x == d * (x / d) + x % d,
    ;
    vstd::arithmetic::div_mod::lemma_fundamental_div_mod_converse(x + d * k, d, x / d + k, x % d);
}

/// Seconds since local midnight of the wall-clock instant `local_ms`.
pub fn seconds_of_day(local_ms: i64) -> (r: u64)
    requires
        within_shift(local_ms as int),
    ensures
        r == ((local_ms as int) / 1000) % 86_400,
        r < 86_400,
{
    let x: u64 = (local_ms + SHIFT_MS) as u64;
    let secs = x / 1000;
    let r = secs % 86_400;
    proof {
        let l = local_ms as int;
        lemma_shift_div(l, 1000, 86_400_000_000_000_000);
        lemma_shift_div(l / 1000, 86_400, 1_000_000_000);
    }
    r
}

/// The local calendar day of the wall-clock instant `local_ms`, counted
/// from an origin far in the past.
pub fn shifted_day(local_ms: i64) -> (r: u64)
    requires
        within_shift(local_ms as int),
    ensures
        r == day_number(local_ms as int) + 1_000_000_000,
{
    let x: u64 = (local_ms + SHIFT_MS) as u64;
    proof {
        lemma_shift_div(local_ms as int, 86_400_000, 1_000_000_000);
    }
    x / 86_400_000
}

/// Renders `H:MM` for a wall-clock instant.
pub fn format_clock_label(local_ms: i64) -> (s: String)
    requires
        within_shift(local_ms as int),
    ensures
        s@ == clock_label(local_ms as int),
{
    let sod = seconds_of_day(local_ms);
    let mut s = String::new();
    push_decimal(&mut s, sod / 3600);
    proof {
        reveal_strlit(":");
    }
    s.append(":");
    push_two_digits(&mut s, (sod % 3600) / 60);
    assert(s@ =~= clock_label(local_ms as int));
    s
}

} // verus!
