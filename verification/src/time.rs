use vstd::prelude::*;
use vstd::string::*;

use crate::error::BackupError;

verus! {

/// What chrono's `DateTime<Utc>` parsing makes of a piece of text: the
/// second count since the Unix epoch when the text parses, nothing when it
/// does not. The result depends on the text alone.
pub uninterp spec fn utc_seconds_of(s: Seq<char>) -> Option<int>;

/// Relies on chrono's `FromStr` for `DateTime<Utc>` and on
/// `DateTime::timestamp`: both depend on the text alone, and chrono's
/// representable range of about ±262,000 years keeps the second count
/// strictly inside ±2^50.
#[verifier::external_body]
fn parse_utc_seconds(s: &str) -> (r: Option<i64>)
    ensures
        match r {
            Some(v) => utc_seconds_of(s@) == Some(v as int) && -0x4_0000_0000_0000i64 < v
                < 0x4_0000_0000_0000i64,
            None => utc_seconds_of(s@) is None,
        },
{
    s.parse::<chrono::DateTime<chrono::Utc>>().ok().map(|d| d.timestamp())
}

/// The whole-hour part of a second count, truncated toward zero.
pub open spec fn whole_hours(diff: int) -> int {
    if diff >= 0 {
        diff / 3600
    } else {
        -((-diff) / 3600)
    }
}

/// The whole-hour difference between two timestamps, `date2 - date1`,
/// truncated toward zero and possibly negative; each timestamp is read at
/// whole-second precision. Either timestamp being empty (the never-run
/// sentinel) gives zero hours; otherwise both must parse, and a timestamp
/// that does not parse is a parse error.
pub fn hour_check(date1_str: &str, date2_str: &str) -> (r: Result<i64, BackupError>)
    ensures
        (date1_str@.len() == 0 || date2_str@.len() == 0) ==> r == Ok::<i64, BackupError>(0i64),
        (date1_str@.len() > 0 && date2_str@.len() > 0) ==> match (
            utc_seconds_of(date1_str@),
            utc_seconds_of(date2_str@),
        ) {
            (Some(s1), Some(s2)) => r matches Ok(h) && h == whole_hours(s2 - s1),
            _ => r matches Err(BackupError::Parse(_)),
        },
{
    if date1_str.unicode_len() == 0 || date2_str.unicode_len() == 0 {
        return Ok(0);
    }
    let s1 = match parse_utc_seconds(date1_str) {
        Some(v) => v,
        None => {
            return Err(BackupError::Parse(String::from_str("failed to parse date")));
        },
    };
    let s2 = match parse_utc_seconds(date2_str) {
        Some(v) => v,
        None => {
            return Err(BackupError::Parse(String::from_str("failed to parse date")));
        },
    };
    if s2 >= s1 {
        let d: u64 = (s2 - s1) as u64;
        let h: i64 = (d / 3600) as i64;
        Ok(h)
    } else {
        let d: u64 = (s1 - s2) as u64;
        let h: i64 = (d / 3600) as i64;
        Ok(-h)
    }
}

} // verus!
