//! Wall-clock readings and the absolute instants they stand for.

use chrono::TimeZone;
use vstd::prelude::*;
use vstd::string::*;

verus! {

/// The layout in which a timestamp is written: `YYYY-MM-DD HH:MM:SS`.
pub const TIMESTAMP_FORMAT: &'static str = "%Y-%m-%d %H:%M:%S";

/// What a clock on the wall shows, with no time zone attached: the seconds and
/// nanoseconds that separate the reading from `1970-01-01 00:00:00` on the same
/// clock.
///
/// A leap second (`23:59:60`) keeps the seconds of `23:59:59` and adds one
/// thousand million to the nanoseconds.
#[derive(Clone, Copy, Debug, PartialEq, Eq, Structural)]
pub struct WallTime {
    pub seconds: i64,
    pub nanoseconds: u32,
}

/// An absolute point in time: seconds and nanoseconds since
/// `1970-01-01T00:00:00Z`. The nanoseconds always count forwards.
#[derive(Clone, Copy, Debug, PartialEq, Eq, Structural)]
pub struct Instant {
    pub seconds: i64,
    pub nanoseconds: u32,
}

/// Why the text of a timestamp yields no instant.
#[derive(Clone, Copy, Debug, PartialEq, Eq, Structural)]
pub enum TimeError {
    /// The text is not a date and time in the layout [`TIMESTAMP_FORMAT`].
    Malformed,
    /// The local time zone maps the reading to no instant, or to two.
    Unresolvable,
}

impl Instant {
    /// The nanoseconds stay below one second.
    pub open spec fn wf(self) -> bool {
        self.nanoseconds < 1_000_000_000
    }

    /// The instant `seconds` and `nanoseconds` after the epoch, unless the
    /// nanoseconds reach a full second.
    pub fn new(seconds: i64, nanoseconds: u32) -> (made: Option<Instant>)
        ensures
            made == if nanoseconds < 1_000_000_000 {
                Some(Instant { seconds, nanoseconds })
            } else {
                None::<Instant>
            },
    {
        if nanoseconds < 1_000_000_000 {
            Some(Instant { seconds, nanoseconds })
        } else {
            None
        }
    }
}

/// The reading that chrono's parser finds in `text` under the layout `format`,
/// if it finds one.
pub uninterp spec fn wall_time_read(text: Seq<char>, format: Seq<char>) -> Option<WallTime>;

/// Calls `chrono::NaiveDateTime::parse_from_str` and hands the date and time
/// back as a [`WallTime`]: the `timestamp` and the `timestamp_subsec_nanos` of
/// the same date and time taken as UTC.
///
/// Trusted: the parser reads nothing but the two texts, so its result is given
/// the name [`wall_time_read`], and nothing more is claimed of it. A `format`
/// that the parser does not know is an error, not a panic.
#[verifier::external_body]
fn read_wall_time(text: &str, format: &str) -> (reading: Option<WallTime>)
    ensures
        reading == wall_time_read(text@, format@),
{
    let parsed = chrono::NaiveDateTime::parse_from_str(text, format).ok()?;
    let shown = parsed.and_utc();
    Some(WallTime { seconds: shown.timestamp(), nanoseconds: shown.timestamp_subsec_nanos() })
}

/// Whether a time zone can give `seconds` and `nanoseconds` for the instant at
/// which its clock shows `wall`: a zone is less than a day off UTC and leaves
/// the part below the second alone.
pub open spec fn in_some_zone(wall: WallTime, seconds: i64, nanoseconds: u32) -> bool {
    &&& nanoseconds == wall.nanoseconds
    &&& wall.seconds - 86_400 < seconds < wall.seconds + 86_400
}

/// Asks chrono's `Local` zone, with `from_local_datetime` and `single`, for the
/// one instant at which the local clock shows `wall`, and hands back its
/// `timestamp` and its `timestamp_subsec_nanos`. `None` stands for a reading
/// that `chrono::DateTime::from_timestamp` does not take for a date and time,
/// and for one that the zone maps to no instant or to two.
///
/// Trusted: the answer depends on the time zone of the machine, so it has no
/// name, and only what holds of every answer is claimed. `from_local_datetime`
/// takes an offset from the reading; chrono's `FixedOffset` is always more
/// than -86400 and less than 86400 seconds, and the subtraction keeps the part
/// below the second. In a leap second that part reaches a full second and
/// more, here as in the reading; [`carry`] makes up for it.
#[verifier::external_body]
fn local_reading(wall: WallTime) -> (found: Option<(i64, u32)>)
    ensures
        found matches Some(pair) ==> in_some_zone(wall, pair.0, pair.1),
{
    let naive = chrono::DateTime::from_timestamp(wall.seconds, wall.nanoseconds)?.naive_utc();
    let local = chrono::Local.from_local_datetime(&naive).single()?;
    Some((local.timestamp(), local.timestamp_subsec_nanos()))
}

/// The instant `seconds` and `nanoseconds` after the epoch, the whole seconds
/// among the nanoseconds carried over, if the seconds can hold them.
pub open spec fn carried(seconds: i64, nanoseconds: u32) -> Option<Instant> {
    let whole = seconds + nanoseconds / 1_000_000_000;
    if whole <= i64::MAX {
        Some(
            Instant { seconds: whole as i64, nanoseconds: (nanoseconds % 1_000_000_000) as u32 },
        )
    } else {
        None
    }
}

/// The instant that is `nanoseconds` past the second `seconds`, with the
/// nanoseconds brought below one second: each whole second among them goes to
/// the seconds. There is none if the seconds overflow.
pub fn carry(seconds: i64, nanoseconds: u32) -> (made: Option<Instant>)
    ensures
        made == carried(seconds, nanoseconds),
        made matches Some(instant) ==> instant.wf(),
{
    let over: u32 = nanoseconds / 1_000_000_000;
    let rest: u32 = nanoseconds % 1_000_000_000;
    match seconds.checked_add(over as i64) {
        Some(whole) => Some(Instant { seconds: whole, nanoseconds: rest }),
        None => None,
    }
}

/// What [`parse_timestamp`] makes of a parser's answer.
pub open spec fn reading_or_error(reading: Option<WallTime>) -> Result<WallTime, TimeError> {
    match reading {
        Some(wall) => Ok(wall),
        None => Err(TimeError::Malformed),
    }
}

/// What [`resolve`] makes of the local zone's answer.
pub open spec fn instant_or_error(found: Option<Instant>) -> Result<Instant, TimeError> {
    match found {
        Some(instant) => Ok(instant),
        None => Err(TimeError::Unresolvable),
    }
}

/// Reads `text` as a timestamp in the layout [`TIMESTAMP_FORMAT`].
pub fn parse_timestamp(text: &str) -> (read: Result<WallTime, TimeError>)
    ensures
        read == reading_or_error(wall_time_read(text@, TIMESTAMP_FORMAT@)),
{
    match read_wall_time(text, TIMESTAMP_FORMAT) {
        Some(wall) => Ok(wall),
        None => Err(TimeError::Malformed),
    }
}

/// Turns the local zone's answer into the instant to apply: a reading that
/// falls in a gap or a fold of the local clock is an error.
pub fn resolve(found: Option<Instant>) -> (resolved: Result<Instant, TimeError>)
    ensures
        resolved == instant_or_error(found),
{
    match found {
        Some(instant) => Ok(instant),
        None => Err(TimeError::Unresolvable),
    }
}

/// What [`settle`] makes of the seconds and nanoseconds that the local zone
/// answers with, or of its giving no single answer.
pub open spec fn answer_or_error(found: Option<(i64, u32)>) -> Result<Instant, TimeError> {
    match found {
        Some(pair) => instant_or_error(carried(pair.0, pair.1)),
        None => Err(TimeError::Unresolvable),
    }
}

/// Turns the local zone's answer into the instant to apply: the nanoseconds
/// are brought below one second, and no single answer is an error.
pub fn settle(found: Option<(i64, u32)>) -> (resolved: Result<Instant, TimeError>)
    ensures
        resolved == answer_or_error(found),
{
    match found {
        Some((seconds, nanoseconds)) => resolve(carry(seconds, nanoseconds)),
        None => Err(TimeError::Unresolvable),
    }
}

/// Whether `instant` can be the instant at which the clock of some time zone
/// shows `wall`: the part below the second is that of the reading, and once
/// the whole seconds among the reading's nanoseconds are taken off, the
/// seconds are less than a day from the reading's.
pub open spec fn shows(wall: WallTime, instant: Instant) -> bool {
    &&& instant.nanoseconds == wall.nanoseconds % 1_000_000_000
    &&& wall.seconds - 86_400 < instant.seconds - wall.nanoseconds / 1_000_000_000
        < wall.seconds + 86_400
}

/// Whether `resolved` can be what the local zone makes of `wall`: an instant
/// that shows `wall`, or the error that there is no single one.
pub open spec fn resolution_of(wall: WallTime, resolved: Result<Instant, TimeError>) -> bool {
    match resolved {
        Ok(instant) => instant.wf() && shows(wall, instant),
        Err(error) => error == TimeError::Unresolvable,
    }
}

/// Whether `resolved` can be what a timestamp comes to, where `reading` is
/// what the parser finds in it: with no reading the timestamp is malformed,
/// and a reading goes to the local zone.
pub open spec fn timestamp_comes_to(
    reading: Option<WallTime>,
    resolved: Result<Instant, TimeError>,
) -> bool {
    match reading {
        Some(wall) => resolution_of(wall, resolved),
        None => resolved == Err::<Instant, TimeError>(TimeError::Malformed),
    }
}

/// The instant at which the local clock shows `wall`.
///
/// Which instant that is depends on the machine's time zone. Whatever the zone
/// answers, the result is what [`settle`] makes of it, and so an instant that
/// shows `wall` in some zone, or [`TimeError::Unresolvable`].
pub fn resolve_local(wall: WallTime) -> (resolved: Result<Instant, TimeError>)
    ensures
        resolution_of(wall, resolved),
{
    settle(local_reading(wall))
}

/// The instant that the timestamp `text` names on the local clock.
///
/// A text that does not parse is [`TimeError::Malformed`] and the zone is never
/// asked. For one that parses, the zone decides between an instant that shows
/// the reading and [`TimeError::Unresolvable`].
pub fn resolve_instant(text: &str) -> (resolved: Result<Instant, TimeError>)
    ensures
        timestamp_comes_to(wall_time_read(text@, TIMESTAMP_FORMAT@), resolved),
{
    match parse_timestamp(text) {
        Ok(wall) => resolve_local(wall),
        Err(error) => Err(error),
    }
}

impl TimeError {
    /// The sentence that reports this error.
    pub fn message(&self) -> (text: String)
        ensures
            text@ == match *self {
                TimeError::Malformed => "Timestamp is not of the form YYYY-MM-DD HH:MM:SS"@,
                TimeError::Unresolvable => "Invalid or ambiguous datetime"@,
            },
    {
        match self {
            TimeError::Malformed => String::from_str(
                "Timestamp is not of the form YYYY-MM-DD HH:MM:SS",
            ),
            TimeError::Unresolvable => String::from_str("Invalid or ambiguous datetime"),
        }
    }
}

} // verus!
