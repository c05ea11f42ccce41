//! Points in time, and the calendar operations on them.
//!
//! A point in time is held as plain integers. Reading the clock, and
//! turning text into a point in time and back, is the work of `chrono`; the
//! functions that call it here are trusted, not proved.

use vstd::prelude::*;

verus! {

/// The form of the date in an archive file's name.
pub const ARCHIVE_FORMAT: &'static str = "%m-%d-%y %H:%M";

/// The form of the date at the start of a log line.
pub const LOG_FORMAT: &'static str = "%m/%d/%y %H:%M:%S";

/// A local date and time: whole seconds since midnight of January 1, 1970,
/// without regard to time zone, and the nanoseconds since the last whole
/// second.
#[derive(Debug, Default, Clone, Copy, PartialEq, Eq, Structural)]
pub struct Timestamp {
    pub seconds: i64,
    pub nanos: u32,
}

impl Timestamp {
    /// Whether `self` lies strictly before `other`.
    pub open spec fn is_before(self, other: Timestamp) -> bool {
        self.seconds < other.seconds || (self.seconds == other.seconds && self.nanos
            < other.nanos)
    }

    /// Whether `self` lies strictly before `other`.
    pub fn before(&self, other: &Timestamp) -> (earlier: bool)
        ensures
            earlier == self.is_before(*other),
    {
        self.seconds < other.seconds || (self.seconds == other.seconds && self.nanos
            < other.nanos)
    }
}

/// The date and time that `chrono` reads from `text` under `format`, or
/// nothing where it rejects the text.
pub uninterp spec fn parsed_stamp(text: Seq<char>, format: Seq<char>) -> Option<Timestamp>;

/// The shape of a date written under `ARCHIVE_FORMAT`, with `0` for a digit.
pub const ARCHIVE_SHAPE: &'static str = "00-00-00 00:00";

/// The shape of a date written under `LOG_FORMAT`, with `0` for a digit.
pub const LOG_SHAPE: &'static str = "00/00/00 00:00:00";

/// Whether `c` is one of the digits `0` to `9`.
pub open spec fn is_digit(c: char) -> bool {
    '0' <= c <= '9'
}

/// Whether `text` has the given shape: it is as long, holds a digit
/// wherever the shape holds `0`, and the shape's own character elsewhere.
pub open spec fn has_shape(text: Seq<char>, shape: Seq<char>) -> bool {
    &&& text.len() == shape.len()
    &&& forall|i: int|
        0 <= i < shape.len() ==> if shape[i] == '0' {
            is_digit(#[trigger] text[i])
        } else {
            text[i] == shape[i]
        }
}

/// The date and time that `text` holds under `format`.
///
/// Trusted: calls `chrono::NaiveDateTime::parse_from_str`, which depends on
/// its two arguments alone, and hands its result on as `parsed_stamp`. The
/// seconds and nanoseconds are those of `DateTime::timestamp` and
/// `DateTime::timestamp_subsec_nanos`; by them `chrono` orders its dates.
#[verifier::external_body]
pub(crate) fn parse_stamp(text: &str, format: &str) -> (stamp: Option<Timestamp>)
    ensures
        stamp == parsed_stamp(text@, format@),
{
    match chrono::NaiveDateTime::parse_from_str(text, format) {
        Ok(date) => {
            let utc = date.and_utc();
            Some(Timestamp { seconds: utc.timestamp(), nanos: utc.timestamp_subsec_nanos() })
        },
        Err(_) => None,
    }
}

/// The local date and time at the moment of the call, written under
/// `format`, which is one of the two formats of this module.
///
/// Trusted: calls `chrono::Local::now` and writes the result with
/// `DateTime::format`. Which date comes out is up to the clock; claimed is
/// only its shape: under these two formats `chrono` writes each of month,
/// day, year, hour, minute and second as two digits, and the characters
/// between them as they stand in the format.
#[verifier::external_body]
pub(crate) fn local_time_text(format: &str) -> (text: String)
    requires
        format@ == ARCHIVE_FORMAT@ || format@ == LOG_FORMAT@,
    ensures
        format@ == ARCHIVE_FORMAT@ ==> has_shape(text@, ARCHIVE_SHAPE@),
        format@ == LOG_FORMAT@ ==> has_shape(text@, LOG_SHAPE@),
{
    chrono::Local::now().format(format).to_string()
}

/// The local date and time at the moment of the call.
///
/// Trusted: calls `chrono::Local::now` and `DateTime::naive_local`. Nothing
/// is claimed of the result: it is whatever the clock says.
#[verifier::external_body]
pub(crate) fn local_now() -> Timestamp {
    let now = chrono::Local::now().naive_local().and_utc();
    Timestamp { seconds: now.timestamp(), nanos: now.timestamp_subsec_nanos() }
}

} // verus!
