//! The persisted form of entries and statistics: timestamps as RFC 3339
//! text, a statistic's day as `YYYY-MM-DD`, and the decoding back.

use vstd::prelude::*;

use crate::entries::TimerEntry;
use crate::statistics::TimerStatistic;
use crate::store::TimerError;
use crate::time::{
    day_number, day_of, format_rfc3339, parse_date, parse_rfc3339, parsed_date, rfc3339_seconds,
    rfc3339_text, valid_timestamp, MAX_TIMESTAMP, MIN_TIMESTAMP,
};

verus! {

/// A row of the `timers` table.
#[derive(Debug, Clone)]
pub struct TimerEntryRow {
    pub id: i64,
    pub activity: Option<String>,
    pub area: Option<String>,
    pub start_time: String,
    pub end_time: Option<String>,
    pub duration: i64,
    pub is_pomodoro: bool,
    pub created_at: String,
    pub updated_at: String,
}

/// A row of the `timer_statistics` table.
#[derive(Debug, Clone)]
pub struct TimerStatisticRow {
    pub id: i64,
    pub date_string: String,
    pub timers_started: i64,
    pub timers_finished: i64,
    pub timers_cancelled: i64,
    pub created_at: String,
    pub updated_at: String,
}

/// The second that RFC 3339 text `s` denotes, where it denotes a valid one.
pub open spec fn decoded_time(s: Seq<char>) -> Option<i64> {
    match rfc3339_seconds(s) {
        Some(t) => if valid_timestamp(t as int) {
            Some(t)
        } else {
            None
        },
        None => None,
    }
}

/// The day that `YYYY-MM-DD` text `s` denotes, where it denotes a valid one.
pub open spec fn decoded_day(s: Seq<char>) -> Option<i64> {
    match parsed_date(s, "%Y-%m-%d"@) {
        Some(t) => if valid_timestamp(t as int) {
            Some(day_of(t as int) as i64)
        } else {
            None
        },
        None => None,
    }
}

/// The second of `s`, where it decodes to a valid one.
fn decode_time(s: &str) -> (r: Option<i64>)
    ensures
        r == decoded_time(s@),
{
    match parse_rfc3339(s) {
        Some(t) => if MIN_TIMESTAMP <= t && t <= MAX_TIMESTAMP {
            Some(t)
        } else {
            None
        },
        None => None,
    }
}

/// The entry that row `row` holds, as read at second `now`: its timestamps
/// decoded, an ended entry's duration as stored, an active one's the seconds
/// elapsed up to `now`. `Decode` where a
/// timestamp does not decode or the identifier is not positive.
pub open spec fn decoded_entry(row: TimerEntryRow, now: int) -> Option<TimerEntry> {
    let end = match row.end_time {
        Some(e) => match decoded_time(e@) {
            Some(t) => Some(Some(t)),
            None => None,
        },
        None => Some(None),
    };
    if row.id >= 1 && decoded_time(row.start_time@) is Some && end is Some && decoded_time(
        row.created_at@,
    ) is Some && decoded_time(row.updated_at@) is Some {
        let start = decoded_time(row.start_time@).unwrap();
        let e = TimerEntry {
            id: row.id,
            activity: row.activity,
            area: row.area,
            start_time: start,
            end_time: end.unwrap(),
            duration: row.duration,
            is_pomodoro: row.is_pomodoro,
            created_at: decoded_time(row.created_at@).unwrap(),
            updated_at: decoded_time(row.updated_at@).unwrap(),
        };
        Some(e.read_at(now))
    } else {
        None
    }
}

/// The statistic that row `row` holds; `None` where a timestamp or the date
/// does not decode, a counter is negative or the identifier not positive.
pub open spec fn decoded_statistic(row: TimerStatisticRow) -> Option<TimerStatistic> {
    if row.id >= 1 && decoded_day(row.date_string@) is Some && row.timers_started >= 0
        && row.timers_finished >= 0 && row.timers_cancelled >= 0 && decoded_time(
        row.created_at@,
    ) is Some && decoded_time(row.updated_at@) is Some {
        Some(
            TimerStatistic {
                id: row.id,
                day: decoded_day(row.date_string@).unwrap(),
                date_string: row.date_string,
                timers_started: row.timers_started,
                timers_finished: row.timers_finished,
                timers_cancelled: row.timers_cancelled,
                created_at: decoded_time(row.created_at@).unwrap(),
                updated_at: decoded_time(row.updated_at@).unwrap(),
            },
        )
    } else {
        None
    }
}

impl TimerEntry {
    /// Decodes a persisted row as read at second `now` (see `decoded_entry`).
    pub fn from_row(row: &TimerEntryRow, now: i64) -> (r: Result<TimerEntry, TimerError>)
        requires
            valid_timestamp(now as int),
        ensures
            match decoded_entry(*row, now as int) {
                Some(e) => r == Ok::<TimerEntry, TimerError>(e),
                None => r == Err::<TimerEntry, TimerError>(TimerError::Decode),
            },
            r is Ok ==> r.unwrap().valid(),
    {
        if row.id < 1 {
            return Err(TimerError::Decode);
        }
        let start = match decode_time(row.start_time.as_str()) {
            Some(t) => t,
            None => {
                return Err(TimerError::Decode);
            },
        };
        let end: Option<i64> = match &row.end_time {
            Some(e) => match decode_time(e.as_str()) {
                Some(t) => Some(t),
                None => {
                    return Err(TimerError::Decode);
                },
            },
            None => None,
        };
        let created_at = match decode_time(row.created_at.as_str()) {
            Some(t) => t,
            None => {
                return Err(TimerError::Decode);
            },
        };
        let updated_at = match decode_time(row.updated_at.as_str()) {
            Some(t) => t,
            None => {
                return Err(TimerError::Decode);
            },
        };
        let duration = match end {
            Some(_) => row.duration,
            None => now - start,
        };
        Ok(
            TimerEntry {
                id: row.id,
                activity: crate::entries::copy_text(&row.activity),
                area: crate::entries::copy_text(&row.area),
                start_time: start,
                end_time: end,
                duration,
                is_pomodoro: row.is_pomodoro,
                created_at,
                updated_at,
            },
        )
    }

    /// The persisted row of `self`.
    pub fn to_row(&self) -> (r: TimerEntryRow)
        requires
            self.valid(),
        ensures
            r.id == self.id,
            r.activity == self.activity,
            r.area == self.area,
            r.start_time@ == rfc3339_text(self.start_time as int),
            match self.end_time {
                Some(e) => r.end_time is Some && r.end_time.unwrap()@ == rfc3339_text(e as int),
                None => r.end_time is None,
            },
            r.duration == self.duration,
            r.is_pomodoro == self.is_pomodoro,
            r.created_at@ == rfc3339_text(self.created_at as int),
            r.updated_at@ == rfc3339_text(self.updated_at as int),
    {
        TimerEntryRow {
            id: self.id,
            activity: crate::entries::copy_text(&self.activity),
            area: crate::entries::copy_text(&self.area),
            start_time: format_rfc3339(self.start_time),
            end_time: match self.end_time {
                Some(e) => Some(format_rfc3339(e)),
                None => None,
            },
            duration: self.duration,
            is_pomodoro: self.is_pomodoro,
            created_at: format_rfc3339(self.created_at),
            updated_at: format_rfc3339(self.updated_at),
        }
    }
}

impl TimerStatistic {
    /// Decodes a persisted row (see `decoded_statistic`).
    pub fn from_row(row: &TimerStatisticRow) -> (r: Result<TimerStatistic, TimerError>)
        ensures
            match decoded_statistic(*row) {
                Some(s) => r == Ok::<TimerStatistic, TimerError>(s),
                None => r == Err::<TimerStatistic, TimerError>(TimerError::Decode),
            },
            r is Ok ==> r.unwrap().valid(),
    {
        if row.id < 1 || row.timers_started < 0 || row.timers_finished < 0 || row.timers_cancelled
            < 0 {
            return Err(TimerError::Decode);
        }
        let day = match parse_date(row.date_string.as_str(), "%Y-%m-%d") {
            Some(t) => if MIN_TIMESTAMP <= t && t <= MAX_TIMESTAMP {
                day_number(t)
            } else {
                return Err(TimerError::Decode);
            },
            None => {
                return Err(TimerError::Decode);
            },
        };
        let created_at = match decode_time(row.created_at.as_str()) {
            Some(t) => t,
            None => {
                return Err(TimerError::Decode);
            },
        };
        let updated_at = match decode_time(row.updated_at.as_str()) {
            Some(t) => t,
            None => {
                return Err(TimerError::Decode);
            },
        };
        Ok(
            TimerStatistic {
                id: row.id,
                day,
                date_string: row.date_string.clone(),
                timers_started: row.timers_started,
                timers_finished: row.timers_finished,
                timers_cancelled: row.timers_cancelled,
                created_at,
                updated_at,
            },
        )
    }

    /// The persisted row of `self`.
    pub fn to_row(&self) -> (r: TimerStatisticRow)
        requires
            self.valid(),
        ensures
            r.id == self.id,
            r.date_string@ == self.date_string@,
            r.timers_started == self.timers_started,
            r.timers_finished == self.timers_finished,
            r.timers_cancelled == self.timers_cancelled,
            r.created_at@ == rfc3339_text(self.created_at as int),
            r.updated_at@ == rfc3339_text(self.updated_at as int),
    {
        TimerStatisticRow {
            id: self.id,
            date_string: self.date_string.clone(),
            timers_started: self.timers_started,
            timers_finished: self.timers_finished,
            timers_cancelled: self.timers_cancelled,
            created_at: format_rfc3339(self.created_at),
            updated_at: format_rfc3339(self.updated_at),
        }
    }
}

} // verus!
