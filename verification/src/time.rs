//! Instants and spans of time as plain integers.

use vstd::prelude::*;
use chrono::{DateTime, FixedOffset, SecondsFormat};
use std::time::{SystemTime, UNIX_EPOCH};

verus! {

/// Nanoseconds in one second.
pub const NANOS_PER_SECOND: i128 = 1_000_000_000;

/// An instant on the UTC time line: whole seconds since 1970-01-01T00:00:00Z
/// and the nanoseconds past that second.
#[derive(Clone, Copy, Debug, PartialEq, Eq, Structural)]
pub struct Timestamp {
    pub secs: i64,
    pub nanos: u32,
}

/// A signed span of time in nanoseconds.
#[derive(Clone, Copy, Debug, PartialEq, Eq, Structural)]
pub struct Duration {
    pub nanos: i128,
}

impl Timestamp {
    /// The instant as a count of nanoseconds since the epoch.
    pub open spec fn nanos_since_epoch(self) -> int {
        self.secs as int * 1_000_000_000 + self.nanos as int
    }

    /// The instant `nanos` nanoseconds after second `secs` of the UNIX time
    /// line.
    pub fn new(secs: i64, nanos: u32) -> (t: Timestamp)
        ensures
            t.secs == secs,
            t.nanos == nanos,
    {
        Timestamp { secs, nanos }
    }

    /// The instant as a count of nanoseconds since the epoch.
    pub fn total_nanos(&self) -> (n: i128)
        ensures
            n == self.nanos_since_epoch(),
    {
        self.secs as i128 * NANOS_PER_SECOND + self.nanos as i128
    }

    /// The span from `earlier` to `self`; negative when `self` comes first.
    pub fn signed_duration_since(&self, earlier: &Timestamp) -> (d: Duration)
        ensures
            d.nanos == self.nanos_since_epoch() - earlier.nanos_since_epoch(),
    {
        Duration { nanos: self.total_nanos() - earlier.total_nanos() }
    }
}

impl Duration {
    /// Whole seconds in the span, rounded toward zero.
    pub open spec fn whole_seconds(self) -> int {
        if self.nanos >= 0 {
            self.nanos as int / 1_000_000_000
        } else {
            -((-(self.nanos as int)) / 1_000_000_000)
        }
    }

    /// Whole seconds in the span, rounded toward zero.
    pub fn num_seconds(&self) -> (s: i128)
        ensures
            s == self.whole_seconds(),
    {
        if self.nanos >= 0 {
            self.nanos / NANOS_PER_SECOND
        } else if self.nanos == i128::MIN {
            self.nanos / NANOS_PER_SECOND
        } else {
            -((-self.nanos) / NANOS_PER_SECOND)
        }
    }
}

/// What the clock of the machine shows: how far it stands from the UNIX
/// epoch, and on which side.
#[derive(Clone, Copy, Debug, PartialEq, Eq, Structural)]
pub struct ClockReading {
    /// Whether the clock stands at or after the epoch.
    pub after_epoch: bool,
    /// The whole seconds between the clock and the epoch.
    pub secs: u64,
    /// The nanoseconds above the whole seconds.
    pub nanos: u32,
}

/// The first instant that a timestamp with nanoseconds under one second can
/// hold, in nanoseconds since the epoch.
pub open spec fn first_instant() -> int {
    i64::MIN * 1_000_000_000
}

/// The last such instant.
pub open spec fn last_instant() -> int {
    i64::MAX * 1_000_000_000 + 999_999_999
}

impl ClockReading {
    /// The reading in nanoseconds since the epoch, negative before it.
    pub open spec fn nanos_since_epoch(self) -> int {
        let span = self.secs as int * 1_000_000_000 + self.nanos as int;
        if self.after_epoch {
            span
        } else {
            -span
        }
    }

    /// The instant of the reading; the first or the last instant that a
    /// timestamp holds where the reading lies beyond them.
    pub fn instant(self) -> (at: Timestamp)
        ensures
            at.nanos < 1_000_000_000,
            at.nanos_since_epoch() == if self.nanos_since_epoch() < first_instant() {
                first_instant()
            } else if self.nanos_since_epoch() > last_instant() {
                last_instant()
            } else {
                self.nanos_since_epoch()
            },
    {
        let span: i128 = self.secs as i128 * NANOS_PER_SECOND + self.nanos as i128;
        let signed: i128 = if self.after_epoch {
            span
        } else {
            -span
        };
        let first: i128 = i64::MIN as i128 * NANOS_PER_SECOND;
        let last: i128 = i64::MAX as i128 * NANOS_PER_SECOND + 999_999_999;
        let kept: i128 = if signed < first {
            first
        } else if signed > last {
            last
        } else {
            signed
        };
        let below: i128 = kept % NANOS_PER_SECOND;
        let (secs, nanos): (i128, i128) = if below < 0 {
            (kept / NANOS_PER_SECOND - 1, below + NANOS_PER_SECOND)
        } else {
            (kept / NANOS_PER_SECOND, below)
        };
        assert(secs == (kept as int) / 1_000_000_000 && nanos == (kept as int) % 1_000_000_000);
        Timestamp { secs: secs as i64, nanos: nanos as u32 }
    }
}

/// std's point on the clock of the machine. Nothing is known of what it
/// holds.
#[verifier::external_type_specification]
#[verifier::external_body]
pub struct ExSystemTime(SystemTime);

/// Reads the clock of the machine by std's `SystemTime::now`. Nothing is
/// known of what comes back.
#[verifier::external_body]
fn system_time() -> (at: SystemTime) {
    SystemTime::now()
}

/// Measures a point on the clock against the UNIX epoch by std's
/// `SystemTime::duration_since`, on whichever side of the epoch the point
/// lies, and takes the span apart into seconds and nanoseconds. Nothing is
/// claimed of the reading.
#[verifier::external_body]
fn since_epoch(at: SystemTime) -> (reading: ClockReading) {
    match at.duration_since(UNIX_EPOCH) {
        Ok(after) => ClockReading {
            after_epoch: true,
            secs: after.as_secs(),
            nanos: after.subsec_nanos(),
        },
        Err(before) => ClockReading {
            after_epoch: false,
            secs: before.duration().as_secs(),
            nanos: before.duration().subsec_nanos(),
        },
    }
}

/// The instant that the clock of the machine shows.
pub fn now() -> (at: Timestamp)
    ensures
        at.nanos < 1_000_000_000,
{
    since_epoch(system_time()).instant()
}

/// The instant that chrono reads out of a text in its relaxed form of RFC
/// 3339, or `None` where the text is no such date and time.
pub uninterp spec fn instant_of_text(text: Seq<char>) -> Option<Timestamp>;

/// The text that chrono writes for an instant in the form of RFC 3339, with
/// `Z` for UTC and as many digits of the second as the instant needs; `None`
/// for an instant beyond chrono's range.
pub uninterp spec fn text_of_instant(at: Timestamp) -> Option<Seq<char>>;

/// Reads a date and time by chrono's `FromStr` for `DateTime<FixedOffset>`
/// and takes the instant apart with `DateTime::timestamp` and
/// `DateTime::timestamp_subsec_nanos`. Trusted: the instant depends on the
/// text alone.
#[verifier::external_body]
fn read_instant(text: &str) -> (at: Option<Timestamp>)
    ensures
        at == instant_of_text(text@),
{
    match text.parse::<DateTime<FixedOffset>>() {
        Ok(at) => Some(Timestamp { secs: at.timestamp(), nanos: at.timestamp_subsec_nanos() }),
        Err(_) => None,
    }
}

/// Makes chrono's date and time of an instant by `DateTime::from_timestamp`
/// and writes it by `DateTime::to_rfc3339_opts`, with `SecondsFormat::AutoSi`
/// and `Z` for UTC. Trusted: the text depends on the instant alone.
#[verifier::external_body]
fn write_instant(at: Timestamp) -> (text: Option<String>)
    ensures
        match text {
            Some(text) => text_of_instant(at) == Some(text@),
            None => text_of_instant(at) is None,
        },
{
    match DateTime::from_timestamp(at.secs, at.nanos) {
        Some(at) => Some(at.to_rfc3339_opts(SecondsFormat::AutoSi, true)),
        None => None,
    }
}

/// Reads an instant out of a text that holds a date and time.
pub fn parse_instant(text: &str) -> (at: Option<Timestamp>)
    ensures
        at == instant_of_text(text@),
{
    read_instant(text)
}

/// Whether an instant can be written as text and read back unchanged.
pub open spec fn instant_round_trips(at: Timestamp) -> bool {
    match text_of_instant(at) {
        Some(text) => instant_of_text(text) == Some(at),
        None => false,
    }
}

/// Writes an instant as text, where reading the text gives the instant back.
pub fn instant_text(at: Timestamp) -> (text: Option<String>)
    ensures
        text is Some <==> instant_round_trips(at),
        text is Some ==> text_of_instant(at) == Some(text.unwrap()@),
        text is Some ==> instant_of_text(text.unwrap()@) == Some(at),
{
    match write_instant(at) {
        Some(text) => {
            match read_instant(text.as_str()) {
                Some(back) => {
                    if back == at {
                        Some(text)
                    } else {
                        None
                    }
                },
                None => None,
            }
        },
        None => None,
    }
}

} // verus!
