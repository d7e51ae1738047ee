//! Per-day summaries by activity.

use vstd::prelude::*;

use crate::entries::TimerEntry;

verus! {

/// The time tracked on one day, in total and by activity.
pub struct TodaysStatistics {
    pub total_timers_duration: i64,
    pub activities: Vec<ActivityStatistic>,
}

/// The time tracked on one activity, and its entries.
pub struct ActivityStatistic {
    pub activity: String,
    pub total_timers_duration: i64,
    pub timers: Vec<TimerEntry>,
}

} // verus!
