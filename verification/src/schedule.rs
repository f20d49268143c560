//! Per-profile meeting times.

use vstd::prelude::*;
use vstd::string::*;
use vstd::utf8::*;

use crate::error::AppError;
use crate::text::{digit_field, digit_field_exec, owned};
use crate::week::err_says;

verus! {

/// Midweek and weekend meeting times in the machine's local timezone.
#[derive(Debug)]
pub struct MeetingScheduleSetting {
    /// ISO weekday, 1 = Monday ... 7 = Sunday.
    pub midweek_weekday: u8,
    /// 24h `HH:mm`.
    pub midweek_time: String,
    pub weekend_weekday: u8,
    pub weekend_time: String,
}

impl Default for MeetingScheduleSetting {
    fn default() -> (r: MeetingScheduleSetting)
        ensures
            r.midweek_weekday == 2,
            r.midweek_time@ == "19:00"@,
            r.weekend_weekday == 7,
            r.weekend_time@ == "10:00"@,
    {
        MeetingScheduleSetting {
            midweek_weekday: 2,
            midweek_time: owned("19:00"),
            weekend_weekday: 7,
            weekend_time: owned("10:00"),
        }
    }
}

/// An ISO weekday.
pub open spec fn weekday_ok(v: u8) -> bool {
    1 <= v <= 7
}

/// A zero-padded 24h `HH:mm` (as bytes): five bytes, two ASCII digits, `:`,
/// two ASCII digits, hour at most 23 and minute at most 59.
pub open spec fn hhmm_ok(b: Seq<u8>) -> bool {
    b.len() == 5 && b[2] == 58 && match (digit_field(b.subrange(0, 2)), digit_field(b.subrange(3, 5))) {
        (Some(h), Some(m)) => h <= 23 && m <= 59,
        _ => false,
    }
}

/// Whether a weekday number is 1..=7.
pub fn is_weekday(value: u8) -> (b: bool)
    ensures
        b == weekday_ok(value),
{
    1 <= value && value <= 7
}

/// Whether a text is a zero-padded `HH:mm`.
pub fn is_hhmm(value: &str) -> (ok: bool)
    ensures
        ok == hhmm_ok(value.spec_bytes()),
{
    let b = value.as_bytes();
    if b.len() != 5 || b[2] != 58 {
        return false;
    }
    let hour = match digit_field_exec(&b[0..2]) {
        Some(h) => h,
        None => return false,
    };
    let minute = match digit_field_exec(&b[3..5]) {
        Some(m) => m,
        None => return false,
    };
    hour <= 23 && minute <= 59
}

/// The complaint about a schedule, if any: weekdays first, then times.
pub open spec fn schedule_problem(s: MeetingScheduleSetting) -> Option<Seq<char>> {
    if !weekday_ok(s.midweek_weekday) || !weekday_ok(s.weekend_weekday) {
        Some("weekday must be 1-7"@)
    } else if !hhmm_ok(encode_utf8(s.midweek_time@)) || !hhmm_ok(encode_utf8(s.weekend_time@)) {
        Some("time must be HH:mm"@)
    } else {
        None
    }
}

/// Rejects weekdays outside 1–7 and times that are not zero-padded `HH:mm`.
pub fn validate_meeting_schedule(value: &MeetingScheduleSetting) -> (r: Result<(), AppError>)
    ensures
        match schedule_problem(*value) {
            None => r is Ok,
            Some(msg) => r is Err && err_says(r->Err_0, msg),
        },
{
    if !is_weekday(value.midweek_weekday) || !is_weekday(value.weekend_weekday) {
        return Err(AppError::rule("weekday must be 1-7"));
    }
    if !is_hhmm(value.midweek_time.as_str()) || !is_hhmm(value.weekend_time.as_str()) {
        return Err(AppError::rule("time must be HH:mm"));
    }
    Ok(())
}

} // verus!
