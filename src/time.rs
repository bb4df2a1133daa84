use std::fmt::Write;
use vstd::prelude::*;

verus! {

/// Seconds in a day: a fixed offset lies strictly within one day of UTC.
pub const DAY_SECONDS: i32 = 86400;

/// A moment with the fixed UTC offset that it is shown in.
#[derive(Clone, Copy, Debug, PartialEq, Eq, Structural)]
pub struct Timestamp {
    /// Whole seconds since 1970-01-01T00:00:00 UTC.
    pub seconds: i64,
    /// Nanoseconds past `seconds`.
    pub nanos: u32,
    /// Seconds to add to UTC to get the local clock time.
    pub offset_seconds: i32,
}

/// Whether `offset` is a fixed UTC offset: less than a day either way.
pub open spec fn valid_offset(offset: int) -> bool {
    -DAY_SECONDS < offset < DAY_SECONDS
}

impl Timestamp {
    pub open spec fn wf(self) -> bool {
        valid_offset(self.offset_seconds as int)
    }

    /// The clock time that the timestamp shows, in seconds since the epoch.
    pub open spec fn local_seconds(self) -> int {
        self.seconds + self.offset_seconds
    }
}

/// The timestamp shown in `offset` where one is given: the same moment, with
/// the offset replaced.
pub open spec fn shown_in(t: Timestamp, offset: Option<i32>) -> Timestamp {
    match offset {
        Some(o) => Timestamp { offset_seconds: o, ..t },
        None => t,
    }
}

pub fn with_offset(t: Timestamp, offset: Option<i32>) -> (r: Timestamp)
    ensures
        r == shown_in(t, offset),
        r.seconds == t.seconds,
        r.nanos == t.nanos,
{
    match offset {
        Some(o) => Timestamp { seconds: t.seconds, nanos: t.nanos, offset_seconds: o },
        None => t,
    }
}

/// The offset that a text such as `+05:00` or `-02:30` denotes, if it is one.
pub uninterp spec fn offset_of(text: Seq<char>) -> Option<i32>;

/// Relies on chrono's `FixedOffset::from_str`: the parsed offset, which
/// `FixedOffset::east_opt` keeps within a day of UTC.
#[verifier::external_body]
pub(crate) fn parse_offset(text: &str) -> (r: Option<i32>)
    ensures
        r == offset_of(text@),
        r matches Some(o) ==> valid_offset(o as int),
{
    <chrono::FixedOffset as std::str::FromStr>::from_str(text).ok().map(|o| o.local_minus_utc())
}

/// The text that a strftime template gives for a moment shown in an offset,
/// if the template is well formed and the moment representable.
pub uninterp spec fn strftime_bytes(
    template: Seq<char>,
    seconds: int,
    nanos: int,
    offset: int,
) -> Option<Seq<u8>>;

/// Relies on chrono's `DateTime::format`: renders `t` by `template`; `None`
/// where chrono cannot represent `t` or the template holds an unknown item.
#[verifier::external_body]
pub(crate) fn render(t: Timestamp, template: &str) -> (r: Option<Vec<u8>>)
    ensures
        r matches Some(v) ==> strftime_bytes(
            template@,
            t.seconds as int,
            t.nanos as int,
            t.offset_seconds as int,
        ) == Some(v@),
        r is None ==> strftime_bytes(
            template@,
            t.seconds as int,
            t.nanos as int,
            t.offset_seconds as int,
        ) is None,
{
    let offset = chrono::FixedOffset::east_opt(t.offset_seconds)?;
    let moment = chrono::DateTime::from_timestamp(t.seconds, t.nanos)?.with_timezone(&offset);
    let mut out = String::new();
    write!(out, "{}", moment.format(template)).ok()?;
    Some(out.into_bytes())
}

} // verus!
