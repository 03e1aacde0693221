//! Trigger-policy math: when an enabled alarm should next ring.
//!
//! A fixed alarm rings at one time of day; a window alarm rings at a
//! randomized offset inside a start/end range. Both scan the next eight
//! days for the first active weekday whose occurrence still lies in the
//! future. Times of day travel as `"HH:MM"` strings, parsed here with an
//! exact grammar; the actual calendar arithmetic (time zones,
//! daylight-saving gaps) and the random offset are the platform's, reached
//! through the trusted wrappers at the top of the file.

use vstd::prelude::*;

use crate::error::ValidationError;
use crate::models::{AlarmInput, AlarmMode, InputModel};

verus! {

/// Relies on chrono's `Local::now`, `Datelike::weekday` and
/// `Weekday::num_days_from_sunday`: the current local time in epoch
/// milliseconds, and today's weekday counted from Sunday as zero, which
/// chrono documents to lie between zero and six.
#[verifier::external_body]
fn local_now() -> (r: (i64, u8))
    ensures
        r.1 <= 6,
{
    let now = chrono::Local::now();
    let weekday = chrono::Datelike::weekday(&now).num_days_from_sunday() as u8;
    (now.timestamp_millis(), weekday)
}

/// Relies on chrono's local calendar arithmetic (`checked_add_days`,
/// `NaiveDate::and_time`, `and_local_timezone`, `MappedLocalTime::earliest`):
/// the epoch-millisecond timestamp of the given time of day on the day
/// `days_ahead` days from today, or `None` when that local time does not
/// exist (a daylight-saving gap or an out-of-range date). The result
/// depends on the machine's clock and time zone, so nothing is promised of
/// its value.
#[verifier::external_body]
fn local_timestamp_on(days_ahead: u8, hour: u8, minute: u8) -> (r: Option<i64>)
    requires
        hour <= 23,
        minute <= 59,
{
    let time = chrono::NaiveTime::from_hms_opt(hour as u32, minute as u32, 0)?;
    let day = chrono::Local::now().checked_add_days(chrono::Days::new(days_ahead as u64))?;
    chrono::TimeZone::from_local_datetime(&chrono::Local, &day.date_naive().and_time(time))
        .earliest()
        .map(|dt| dt.timestamp_millis())
}

/// Relies on rand's `thread_rng` and `Rng::gen_range`, documented to return
/// a uniform value of the half-open range and to panic only on an empty
/// one, which the precondition rules out.
#[verifier::external_body]
fn random_below(bound: i64) -> (r: i64)
    requires
        bound > 0,
    ensures
        0 <= r < bound,
{
    rand::Rng::gen_range(&mut rand::thread_rng(), 0..bound)
}

/// Whether `c` is a decimal digit.
pub open spec fn is_digit(c: char) -> bool {
    48 <= c as u32 <= 57
}

/// The value of the decimal digit `c`.
pub open spec fn digit_val(c: char) -> int {
    c as u32 - 48
}

/// The exact grammar of a time-of-day string: two digits of an hour below
/// twenty-four, a colon, two digits of a minute below sixty.
pub open spec fn valid_hhmm(s: Seq<char>) -> bool {
    &&& s.len() == 5
    &&& is_digit(s[0])
    &&& is_digit(s[1])
    &&& s[2] == ':'
    &&& is_digit(s[3])
    &&& is_digit(s[4])
    &&& digit_val(s[0]) * 10 + digit_val(s[1]) <= 23
    &&& digit_val(s[3]) * 10 + digit_val(s[4]) <= 59
}

/// The hour of a well-formed time-of-day string.
pub open spec fn hhmm_hour(s: Seq<char>) -> int {
    digit_val(s[0]) * 10 + digit_val(s[1])
}

/// The minute of a well-formed time-of-day string.
pub open spec fn hhmm_minute(s: Seq<char>) -> int {
    digit_val(s[3]) * 10 + digit_val(s[4])
}

/// Parse an `"HH:MM"` time of day; `Some` exactly on the strings of
/// [`valid_hhmm`], with the hour and minute they spell.
pub fn parse_hhmm(s: &str) -> (r: Option<(u8, u8)>)
    ensures
        r is Some <==> valid_hhmm(s@),
        r matches Some(p) ==> p.0 as int == hhmm_hour(s@) && p.1 as int == hhmm_minute(s@)
            && p.0 <= 23 && p.1 <= 59,
{
    let n = s.unicode_len();
    if n != 5 {
        return None;
    }
    let u0 = s.get_char(0) as u32;
    let u1 = s.get_char(1) as u32;
    let c2 = s.get_char(2);
    let u3 = s.get_char(3) as u32;
    let u4 = s.get_char(4) as u32;
    if u0 < 48 || u0 > 57 || u1 < 48 || u1 > 57 || u3 < 48 || u3 > 57 || u4 < 48 || u4 > 57 {
        return None;
    }
    if c2 != ':' {
        return None;
    }
    let hour = ((u0 - 48) * 10 + (u1 - 48)) as u8;
    let minute = ((u3 - 48) * 10 + (u4 - 48)) as u8;
    if hour > 23 || minute > 59 {
        return None;
    }
    Some((hour, minute))
}

/// Whether `weekday` is one of the alarm's active weekdays.
fn day_active(active_days: &Vec<i32>, weekday: u8) -> (r: bool)
    ensures
        r == active_days@.contains(weekday as i32),
{
    let mut i: usize = 0;
    while i < active_days.len()
        invariant
            i <= active_days.len(),
            forall|j: int| 0 <= j < i ==> active_days@[j] != weekday as i32,
        decreases active_days.len() - i,
    {
        if active_days[i] == weekday as i32 {
            return true;
        }
        i = i + 1;
    }
    false
}

/// Whether any valid weekday at all is active.
pub open spec fn some_day_active(active_days: Seq<i32>) -> bool {
    exists|d: i32| 0 <= d <= 6 && active_days.contains(d)
}

/// Keep a calendar candidate only when it lies strictly in the future:
/// the first-future-occurrence selection of both trigger scans, stated
/// where a check can reach it.
pub fn pick_future(now_ms: i64, candidate: i64) -> (r: Option<i64>)
    ensures
        r is Some <==> candidate > now_ms,
        r matches Some(t) ==> t == candidate,
{
    if candidate > now_ms {
        Some(candidate)
    } else {
        None
    }
}

/// Place the drawn random offset (in seconds) inside the window: the
/// trigger is the window start plus the offset, unless that leaves the
/// machine's range.
pub fn offset_into_window(window_start: i64, offset_secs: i64) -> (r: Option<i64>)
    requires
        0 <= offset_secs <= 86400,
    ensures
        r is Some <==> window_start + offset_secs * 1000 <= i64::MAX,
        r matches Some(t) ==> t == window_start + offset_secs * 1000,
{
    window_start.checked_add(offset_secs * 1000)
}

/// The first future occurrence of `hour:minute` on an active weekday
/// within the next eight days, in epoch milliseconds.
///
/// `None` when no weekday is active, and possibly when the platform's
/// calendar can place no such occurrence; `Some` only with an active
/// weekday.
fn calculate_fixed_trigger(hour: u8, minute: u8, active_days: &Vec<i32>) -> (r: Option<i64>)
    requires
        hour <= 23,
        minute <= 59,
    ensures
        !some_day_active(active_days@) ==> r is None,
        r is Some ==> some_day_active(active_days@),
{
    let (now_ms, today) = local_now();
    let mut days_ahead: u8 = 0;
    while days_ahead < 8
        invariant
            today <= 6,
            days_ahead <= 8,
            hour <= 23,
            minute <= 59,
        decreases 8 - days_ahead,
    {
        let weekday = (today + days_ahead) % 7;
        if day_active(active_days, weekday) {
            proof {
                assert(0 <= weekday as i32 <= 6);
            }
            match local_timestamp_on(days_ahead, hour, minute) {
                Some(candidate) => {
                    match pick_future(now_ms, candidate) {
                        Some(trigger) => {
                            return Some(trigger);
                        },
                        None => {},
                    }
                },
                None => {},
            }
        }
        days_ahead = days_ahead + 1;
    }
    None
}

/// The first future occurrence of the window's start on an active weekday
/// within the next eight days, plus a random offset inside the window, in
/// epoch milliseconds.
///
/// `None` when no weekday is active, and possibly when the platform's
/// calendar can place no such occurrence; `Some` only with an active
/// weekday.
fn calculate_window_trigger(
    start_hour: u8,
    start_minute: u8,
    end_hour: u8,
    end_minute: u8,
    active_days: &Vec<i32>,
) -> (r: Option<i64>)
    requires
        start_hour <= 23,
        start_minute <= 59,
        end_hour <= 23,
        end_minute <= 59,
        end_hour * 60 + end_minute > start_hour * 60 + start_minute,
    ensures
        !some_day_active(active_days@) ==> r is None,
        r is Some ==> some_day_active(active_days@),
{
    let (now_ms, today) = local_now();
    let window_secs: i64 = ((end_hour as i64) * 60 + (end_minute as i64) - (start_hour as i64)
        * 60 - (start_minute as i64)) * 60;
    let mut days_ahead: u8 = 0;
    while days_ahead < 8
        invariant
            today <= 6,
            days_ahead <= 8,
            start_hour <= 23,
            start_minute <= 59,
            window_secs > 0,
            window_secs <= 86400,
        decreases 8 - days_ahead,
    {
        let weekday = (today + days_ahead) % 7;
        if day_active(active_days, weekday) {
            proof {
                assert(0 <= weekday as i32 <= 6);
            }
            match local_timestamp_on(days_ahead, start_hour, start_minute) {
                Some(candidate) => {
                    match pick_future(now_ms, candidate) {
                        Some(window_start) => {
                            let offset = random_below(window_secs);
                            match offset_into_window(window_start, offset) {
                                Some(trigger) => {
                                    return Some(trigger);
                                },
                                None => {},
                            }
                        },
                        None => {},
                    }
                },
                None => {},
            }
        }
        days_ahead = days_ahead + 1;
    }
    None
}

/// The validation verdict of a trigger-policy input: the error a save of it
/// is rejected with, or nothing when its configuration is well-formed.
pub open spec fn spec_validate(a: InputModel) -> Option<ValidationError> {
    match a.mode {
        AlarmMode::Fixed => match a.fixed_time {
            None => Some(ValidationError::MissingFixedTime),
            Some(t) => if !valid_hhmm(t) {
                Some(ValidationError::UnparseableTime)
            } else {
                None
            },
        },
        AlarmMode::Window => match a.window_start {
            None => Some(ValidationError::MissingWindowStart),
            Some(ws) => match a.window_end {
                None => Some(ValidationError::MissingWindowEnd),
                Some(we) => if !valid_hhmm(ws) || !valid_hhmm(we) {
                    Some(ValidationError::UnparseableTime)
                } else if hhmm_hour(we) * 60 + hhmm_minute(we) <= hhmm_hour(ws) * 60 + hhmm_minute(
                    ws,
                ) {
                    Some(ValidationError::EmptyWindow)
                } else {
                    None
                },
            },
        },
    }
}

/// Calculate the next trigger timestamp for an alarm.
///
/// A disabled alarm always resolves to no trigger, consuming no validation.
/// An enabled alarm is validated first — a malformed policy is rejected
/// with exactly the verdict of [`spec_validate`] — and then resolved
/// against the local calendar: no trigger when no weekday is active (or the
/// calendar can place none), otherwise the first future occurrence.
pub fn calculate_next_trigger(alarm: &AlarmInput) -> (r: Result<Option<i64>, ValidationError>)
    ensures
        !alarm.enabled ==> r == Result::<Option<i64>, ValidationError>::Ok(None),
        alarm.enabled ==> match spec_validate(alarm@) {
            Some(e) => r == Result::<Option<i64>, ValidationError>::Err(e),
            None => r is Ok,
        },
        r matches Ok(Some(t)) ==> alarm.enabled && spec_validate(alarm@) is None
            && some_day_active(alarm.active_days@),
        r matches Ok(None) && alarm.enabled ==> spec_validate(alarm@) is None,
{
    if !alarm.enabled {
        return Ok(None);
    }
    match alarm.mode {
        AlarmMode::Fixed => {
            let time = match &alarm.fixed_time {
                Some(t) => t,
                None => {
                    return Err(ValidationError::MissingFixedTime);
                },
            };
            let (hour, minute) = match parse_hhmm(time.as_str()) {
                Some(p) => p,
                None => {
                    return Err(ValidationError::UnparseableTime);
                },
            };
            Ok(calculate_fixed_trigger(hour, minute, &alarm.active_days))
        },
        AlarmMode::Window => {
            let start = match &alarm.window_start {
                Some(t) => t,
                None => {
                    return Err(ValidationError::MissingWindowStart);
                },
            };
            let end = match &alarm.window_end {
                Some(t) => t,
                None => {
                    return Err(ValidationError::MissingWindowEnd);
                },
            };
            let start_parsed = parse_hhmm(start.as_str());
            let end_parsed = parse_hhmm(end.as_str());
            let (start_hour, start_minute) = match start_parsed {
                Some(p) => p,
                None => {
                    return Err(ValidationError::UnparseableTime);
                },
            };
            let (end_hour, end_minute) = match end_parsed {
                Some(p) => p,
                None => {
                    return Err(ValidationError::UnparseableTime);
                },
            };
            if (end_hour as u32) * 60 + (end_minute as u32) <= (start_hour as u32) * 60 + (
            start_minute as u32) {
                return Err(ValidationError::EmptyWindow);
            }
            Ok(
                calculate_window_trigger(
                    start_hour,
                    start_minute,
                    end_hour,
                    end_minute,
                    &alarm.active_days,
                ),
            )
        },
    }
}

} // verus!
