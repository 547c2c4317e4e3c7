//! Instants with a fixed UTC offset, derived from paired epoch readings.
//!
//! An instant is held as milliseconds since the Unix epoch, in UTC, together
//! with the offset of the local clock that recorded it. Whether such an instant
//! exists as a calendar date, and what instant lies a duration later, is asked
//! of `chrono`.

use chrono::{FixedOffset, NaiveDateTime, TimeDelta, TimeZone};
use vstd::prelude::*;

verus! {

/// Milliseconds in a second.
pub const MILLIS_PER_SECOND: i64 = 1000;

/// Nanoseconds in a millisecond.
pub const NANOS_PER_MILLI: u32 = 1_000_000;

/// Seconds in a day: a UTC offset is strictly smaller in magnitude.
pub const SECONDS_PER_DAY: i64 = 86_400;

/// The notation of the two calendar fields of an anchor line:
/// `YYYY-MM-DDTHH:MM:SS` with an optional fraction of a second.
pub const DATETIME_FORMAT: &'static str = "%Y-%m-%dT%H:%M:%S%.f";

/// An absolute instant, annotated with the UTC offset it is to be shown in.
/// The offset is for display only: two timestamps are equal when they are the
/// same instant.
#[derive(Clone, Copy, Debug, Eq)]
pub struct Timestamp {
    /// Milliseconds since the Unix epoch, in UTC.
    pub utc_millis: i64,
    /// Seconds that local time is ahead of UTC.
    pub offset_seconds: i32,
}

impl PartialEq for Timestamp {
    fn eq(&self, other: &Self) -> (same: bool) {
        self.utc_millis == other.utc_millis
    }
}

impl vstd::std_specs::cmp::PartialEqSpecImpl for Timestamp {
    open spec fn obeys_eq_spec() -> bool {
        true
    }

    open spec fn eq_spec(&self, other: &Self) -> bool {
        self.utc_millis == other.utc_millis
    }
}

/// Why a pair of epoch readings gives no timestamp.
#[derive(Clone, Copy, Debug, PartialEq, Eq, Structural)]
pub enum TimeError {
    /// The two readings are a day or more apart.
    OffsetOutOfRange,
    /// The UTC reading is outside the supported calendar.
    InstantOutOfRange,
}

/// Quotient of `a` by a positive `b`, rounded toward zero.
pub open spec fn truncated_quotient(a: int, b: int) -> int {
    if a >= 0 {
        a / b
    } else {
        -((-a) / b)
    }
}

/// Seconds by which the local reading is ahead of the UTC reading. A
/// difference that is not a whole number of seconds loses its fraction.
pub open spec fn offset_seconds_of(utc_millis: int, local_millis: int) -> int {
    truncated_quotient(local_millis - utc_millis, MILLIS_PER_SECOND as int)
}

/// Whether a UTC offset of `seconds` is less than a day in either direction.
pub open spec fn valid_offset(seconds: int) -> bool {
    -SECONDS_PER_DAY < seconds < SECONDS_PER_DAY
}

/// Whole seconds since the epoch at `utc_millis`, rounded down.
pub open spec fn epoch_seconds(utc_millis: int) -> int {
    utc_millis / (MILLIS_PER_SECOND as int)
}

/// Nanoseconds since the last whole second at `utc_millis`.
pub open spec fn subsecond_nanos(utc_millis: int) -> int {
    (utc_millis % (MILLIS_PER_SECOND as int)) * NANOS_PER_MILLI
}

/// Whether `chrono` can represent the instant `seconds` and `nanos` after the
/// epoch in the zone `offset_seconds` east of UTC.
pub uninterp spec fn instant_exists(offset_seconds: i32, seconds: i64, nanos: u32) -> bool;

/// Whether `chrono` reads `text` as a calendar date and time written in
/// `format`.
pub uninterp spec fn datetime_parses(text: Seq<char>, format: Seq<char>) -> bool;

/// The instant, in milliseconds since the epoch, that `chrono` finds
/// `delta_millis` after `utc_millis` in the zone `offset_seconds` east of UTC,
/// if it can represent all of them.
pub uninterp spec fn instant_after(utc_millis: i64, offset_seconds: i32, delta_millis: i64)
    -> Option<i64>;

/// Calls `chrono::FixedOffset::east_opt`, which gives an offset exactly for a
/// number of seconds strictly between minus and plus one day. The contract
/// states that bound.
#[verifier::external_body]
fn fixed_offset_exists(seconds: i32) -> (exists: bool)
    ensures
        exists == valid_offset(seconds as int),
{
    FixedOffset::east_opt(seconds).is_some()
}

/// Calls `chrono::TimeDelta::try_milliseconds`, which gives a duration for
/// every number of milliseconds but the smallest 64-bit integer. The contract
/// states that bound.
#[verifier::external_body]
fn duration_exists(millis: i64) -> (exists: bool)
    ensures
        exists == (millis > i64::MIN),
{
    TimeDelta::try_milliseconds(millis).is_some()
}

/// Calls `chrono::TimeZone::timestamp_opt` on the zone that
/// `chrono::FixedOffset::east_opt` gives for `offset_seconds`, and tells
/// whether there is such a zone and the call yields a single instant in it.
/// The contract only names that answer; it says nothing of which instants
/// exist.
#[verifier::external_body]
fn zone_has_instant(offset_seconds: i32, seconds: i64, nanos: u32) -> (exists: bool)
    ensures
        exists == instant_exists(offset_seconds, seconds, nanos),
{
    match FixedOffset::east_opt(offset_seconds) {
        Some(zone) => zone.timestamp_opt(seconds, nanos).single().is_some(),
        None => false,
    }
}

/// Calls `chrono::NaiveDateTime::parse_from_str` and tells whether it
/// succeeds. The contract only names that answer; it says nothing of which
/// texts are dates.
#[verifier::external_body]
fn naive_datetime_parses(text: &str, format: &str) -> (ok: bool)
    ensures
        ok == datetime_parses(text@, format@),
{
    NaiveDateTime::parse_from_str(text, format).is_ok()
}

/// Calls `chrono::DateTime::checked_add_signed`. The instant is built with
/// `chrono::FixedOffset::east_opt` and `chrono::TimeZone::timestamp_millis_opt`,
/// the duration with `chrono::TimeDelta::try_milliseconds`, and the sum is
/// read with `chrono::DateTime::timestamp_millis`; there is no result where one
/// of them gives none. The contract only names the answer; that it is the sum
/// of the two numbers is not claimed here: the caller compares.
#[verifier::external_body]
fn add_millis(utc_millis: i64, offset_seconds: i32, delta_millis: i64) -> (moved: Option<i64>)
    ensures
        moved == instant_after(utc_millis, offset_seconds, delta_millis),
{
    let zone = FixedOffset::east_opt(offset_seconds)?;
    let start = zone.timestamp_millis_opt(utc_millis).single()?;
    let span = TimeDelta::try_milliseconds(delta_millis)?;
    match start.checked_add_signed(span) {
        Some(end) => Some(end.timestamp_millis()),
        None => None,
    }
}

/// Whether a duration of `millis` milliseconds can be represented.
pub fn valid_duration(millis: i64) -> (ok: bool)
    ensures
        ok == (millis > i64::MIN),
{
    duration_exists(millis)
}

/// Whether `text` is a calendar date and time in the notation of anchor lines.
pub fn valid_datetime(text: &str) -> (ok: bool)
    ensures
        ok == datetime_parses(text@, DATETIME_FORMAT@),
{
    naive_datetime_parses(text, DATETIME_FORMAT)
}

/// Whether the calendar holds the instant of the UTC reading, in the zone
/// that the two readings give. It holds none where they give no zone.
pub fn instant_on_calendar(utc_millis: i64, local_millis: i64) -> (exists: bool)
    ensures
        valid_offset(offset_seconds_of(utc_millis as int, local_millis as int)) ==> exists
            == instant_exists(
            offset_seconds_of(utc_millis as int, local_millis as int) as i32,
            epoch_seconds(utc_millis as int) as i64,
            subsecond_nanos(utc_millis as int) as u32,
        ),
        !valid_offset(offset_seconds_of(utc_millis as int, local_millis as int)) ==> !exists,
{
    match derive_offset(utc_millis, local_millis) {
        Some(offset_seconds) => {
            let (seconds, nanos) = split_epoch_millis(utc_millis);
            zone_has_instant(offset_seconds, seconds, nanos)
        },
        None => false,
    }
}

/// Derives the UTC offset, in seconds, from a UTC and a local epoch reading of
/// the same instant. There is none when the readings are a day or more apart.
pub fn derive_offset(utc_millis: i64, local_millis: i64) -> (offset: Option<i32>)
    ensures
        offset == if valid_offset(offset_seconds_of(utc_millis as int, local_millis as int)) {
            Some(offset_seconds_of(utc_millis as int, local_millis as int) as i32)
        } else {
            None
        },
{
    let difference = match local_millis.checked_sub(utc_millis) {
        Some(d) => d,
        None => {
            return None;
        },
    };
    let quotient = difference / MILLIS_PER_SECOND;
    if quotient < -SECONDS_PER_DAY || quotient > SECONDS_PER_DAY {
        return None;
    }
    let seconds = quotient as i32;
    if fixed_offset_exists(seconds) {
        Some(seconds)
    } else {
        None
    }
}

/// Splits an epoch reading in milliseconds into whole seconds, rounded down,
/// and the nanoseconds that remain. Nothing is lost: the two parts add up to
/// the reading exactly.
pub fn split_epoch_millis(utc_millis: i64) -> (parts: (i64, u32))
    ensures
        parts.0 == epoch_seconds(utc_millis as int),
        parts.1 == subsecond_nanos(utc_millis as int),
        parts.0 * MILLIS_PER_SECOND + parts.1 / NANOS_PER_MILLI == utc_millis,
        parts.1 % NANOS_PER_MILLI == 0,
        parts.1 < MILLIS_PER_SECOND * NANOS_PER_MILLI,
{
    let quotient = utc_millis / MILLIS_PER_SECOND;
    let remainder = utc_millis % MILLIS_PER_SECOND;
    if remainder < 0 {
        (quotient - 1, (remainder + MILLIS_PER_SECOND) as u32 * NANOS_PER_MILLI)
    } else {
        (quotient, remainder as u32 * NANOS_PER_MILLI)
    }
}

impl Timestamp {
    /// Whether the offset is one that a clock can have: less than a day.
    pub open spec fn wf(&self) -> bool {
        valid_offset(self.offset_seconds as int)
    }

    /// The timestamp that a UTC and a local reading of one instant give, when
    /// `exists` tells whether the calendar holds the UTC reading.
    pub open spec fn resolved(utc_millis: i64, local_millis: i64, exists: bool) -> Result<
        Timestamp,
        TimeError,
    > {
        let offset = offset_seconds_of(utc_millis as int, local_millis as int);
        if !valid_offset(offset) {
            Err(TimeError::OffsetOutOfRange)
        } else if !exists {
            Err(TimeError::InstantOutOfRange)
        } else {
            Ok(Timestamp { utc_millis, offset_seconds: offset as i32 })
        }
    }

    /// The timestamp that a UTC and a local reading of one instant give.
    pub open spec fn resolution(utc_millis: i64, local_millis: i64) -> Result<
        Timestamp,
        TimeError,
    > {
        Self::resolved(
            utc_millis,
            local_millis,
            instant_exists(
                offset_seconds_of(utc_millis as int, local_millis as int) as i32,
                epoch_seconds(utc_millis as int) as i64,
                subsecond_nanos(utc_millis as int) as u32,
            ),
        )
    }

    /// This timestamp `delta_millis` later, when the calendar gives `end` as
    /// that instant. There is none unless `end` is exactly the sum.
    pub open spec fn moved_to(&self, delta_millis: i64, end: Option<i64>) -> Option<Timestamp> {
        match end {
            Some(utc_millis) => if utc_millis == self.utc_millis + delta_millis {
                Some(Timestamp { utc_millis, offset_seconds: self.offset_seconds })
            } else {
                None
            },
            None => None,
        }
    }

    /// Builds the timestamp of a UTC and a local reading of one instant, given
    /// whether the calendar holds the UTC reading. The instant of the result is
    /// the UTC reading itself; the local reading only fixes the offset.
    pub fn from_readings(utc_millis: i64, local_millis: i64, exists: bool) -> (out: Result<
        Timestamp,
        TimeError,
    >)
        ensures
            out == Self::resolved(utc_millis, local_millis, exists),
            out matches Ok(stamp) ==> stamp.wf() && stamp.utc_millis == utc_millis,
    {
        match derive_offset(utc_millis, local_millis) {
            None => Err(TimeError::OffsetOutOfRange),
            Some(offset_seconds) => {
                if exists {
                    Ok(Timestamp { utc_millis, offset_seconds })
                } else {
                    Err(TimeError::InstantOutOfRange)
                }
            },
        }
    }

    /// Builds the timestamp of a UTC and a local reading of one instant. The
    /// UTC reading is split into seconds and nanoseconds and looked up in the
    /// calendar under the derived offset.
    pub fn resolve(utc_millis: i64, local_millis: i64) -> (out: Result<Timestamp, TimeError>)
        ensures
            out == Self::resolution(utc_millis, local_millis),
            out matches Ok(stamp) ==> stamp.wf() && stamp.utc_millis == utc_millis,
    {
        let exists = instant_on_calendar(utc_millis, local_millis);
        Self::from_readings(utc_millis, local_millis, exists)
    }

    /// The instant, in milliseconds since the epoch, that the calendar finds
    /// `delta_millis` after this one, if it holds both.
    pub fn instant_plus(&self, delta_millis: i64) -> (end: Option<i64>)
        ensures
            end == instant_after(self.utc_millis, self.offset_seconds, delta_millis),
    {
        add_millis(self.utc_millis, self.offset_seconds, delta_millis)
    }

    /// Moves this timestamp `delta_millis` later, given the instant `end` that
    /// the calendar found. The offset is kept. The move is made only where
    /// `end` is the exact sum of this instant and the duration.
    pub fn moved(&self, delta_millis: i64, end: Option<i64>) -> (out: Option<Timestamp>)
        ensures
            out == self.moved_to(delta_millis, end),
            out matches Some(later) ==> later.utc_millis == self.utc_millis + delta_millis
                && later.offset_seconds == self.offset_seconds,
    {
        match (end, self.utc_millis.checked_add(delta_millis)) {
            (Some(utc_millis), Some(sum)) => {
                if utc_millis == sum {
                    Some(Timestamp { utc_millis, offset_seconds: self.offset_seconds })
                } else {
                    None
                }
            },
            _ => None,
        }
    }

    /// The timestamp `delta_millis` later, in the same offset, if the calendar
    /// holds both instants.
    pub fn plus_millis(&self, delta_millis: i64) -> (out: Option<Timestamp>)
        ensures
            out == self.moved_to(
                delta_millis,
                instant_after(self.utc_millis, self.offset_seconds, delta_millis),
            ),
            out matches Some(later) ==> later.utc_millis == self.utc_millis + delta_millis
                && later.offset_seconds == self.offset_seconds,
    {
        let end = self.instant_plus(delta_millis);
        self.moved(delta_millis, end)
    }

    /// Whether the two timestamps are the same instant, whatever their offsets.
    pub fn same_instant(&self, other: &Timestamp) -> (same: bool)
        ensures
            same == (self.utc_millis == other.utc_millis),
    {
        self.utc_millis == other.utc_millis
    }

    /// Whether this instant comes strictly before `other`, whatever their
    /// offsets.
    pub fn is_before(&self, other: &Timestamp) -> (before: bool)
        ensures
            before == (self.utc_millis < other.utc_millis),
    {
        self.utc_millis < other.utc_millis
    }
}

} // verus!
