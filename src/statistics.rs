//! Daily statistics: how many pomodoro timers were started, finished and
//! cancelled on each calendar day.

use vstd::prelude::*;

use crate::store::{TimerError, TimerStore};
use crate::time::{
    date_text, day_number, day_of, formatted_date, valid_day, valid_timestamp,
    MAX_DAY, MAX_TIMESTAMP, MIN_DAY, MIN_TIMESTAMP,
};

verus! {

/// The counters of one UTC calendar day.
#[derive(Debug, Clone)]
pub struct TimerStatistic {
    pub id: i64,
    /// Days since 1970-01-01.
    pub day: i64,
    /// The day as `YYYY-MM-DD`.
    pub date_string: String,
    pub timers_started: i64,
    pub timers_finished: i64,
    pub timers_cancelled: i64,
    pub created_at: i64,
    pub updated_at: i64,
}

/// One of a day's three counters.
#[derive(Debug, Clone, Copy, PartialEq, Eq, Structural)]
pub enum Counter {
    Started,
    Finished,
    Cancelled,
}

/// The counters (started, finished, cancelled) of `s`.
pub open spec fn counts_of(s: TimerStatistic) -> (int, int, int) {
    (s.timers_started as int, s.timers_finished as int, s.timers_cancelled as int)
}

/// `c` with counter `which` one higher.
pub open spec fn bumped(c: (int, int, int), which: Counter) -> (int, int, int) {
    match which {
        Counter::Started => (c.0 + 1, c.1, c.2),
        Counter::Finished => (c.0, c.1 + 1, c.2),
        Counter::Cancelled => (c.0, c.1, c.2 + 1),
    }
}

pub open spec fn counter_value(c: (int, int, int), which: Counter) -> int {
    match which {
        Counter::Started => c.0,
        Counter::Finished => c.1,
        Counter::Cancelled => c.2,
    }
}

/// Some row of `stats` is for `day`.
pub open spec fn has_day(stats: Seq<TimerStatistic>, day: int) -> bool {
    exists|i: int| 0 <= i < stats.len() && (#[trigger] stats[i]).day == day
}

/// No two rows of `stats` share a day.
pub open spec fn unique_days(stats: Seq<TimerStatistic>) -> bool {
    forall|i: int, j: int|
        0 <= i < stats.len() && 0 <= j < stats.len() && i != j ==> (#[trigger] stats[i]).day
            != (#[trigger] stats[j]).day
}

/// The counters recorded for `day`: zero where no row exists yet.
pub open spec fn counts_on(stats: Seq<TimerStatistic>, day: int) -> (int, int, int) {
    if has_day(stats, day) {
        counts_of(stats[choose|i: int| 0 <= i < stats.len() && (#[trigger] stats[i]).day == day])
    } else {
        (0, 0, 0)
    }
}

/// `day` lies in the `days`-day window that ends the day before `today`.
pub open spec fn in_history_window(day: int, today: int, days: int) -> bool {
    today - days - 1 <= day <= today - 1
}

pub proof fn lemma_counts_at(stats: Seq<TimerStatistic>, i: int)
    requires
        unique_days(stats),
        0 <= i < stats.len(),
    ensures
        counts_on(stats, stats[i].day as int) == counts_of(stats[i]),
{
    let d = stats[i].day as int;
    assert(has_day(stats, d));
    let k = choose|k: int| 0 <= k < stats.len() && (#[trigger] stats[k]).day == d;
    assert(k == i);
}

/// Replacing a row by one of the same day changes the counters of that day
/// alone.
pub proof fn lemma_counts_update(stats: Seq<TimerStatistic>, i: int, v: TimerStatistic)
    requires
        unique_days(stats),
        0 <= i < stats.len(),
        stats[i].day == v.day,
    ensures
        unique_days(stats.update(i, v)),
        counts_on(stats.update(i, v), v.day as int) == counts_of(v),
        forall|d: int| d != v.day ==> counts_on(stats.update(i, v), d) == counts_on(stats, d),
{
    let s2 = stats.update(i, v);
    assert(unique_days(s2)) by {
        assert forall|a: int, b: int|
            0 <= a < s2.len() && 0 <= b < s2.len() && a != b implies (#[trigger] s2[a]).day
            != (#[trigger] s2[b]).day by {
            assert(stats[a].day != stats[b].day);
        }
    }
    lemma_counts_at(s2, i);
    assert forall|d: int| d != v.day implies counts_on(s2, d) == counts_on(stats, d) by {
        if has_day(stats, d) {
            let j = choose|j: int| 0 <= j < stats.len() && (#[trigger] stats[j]).day == d;
            lemma_counts_at(stats, j);
            assert(s2[j] == stats[j]);
            lemma_counts_at(s2, j);
        } else {
            assert(!has_day(s2, d)) by {
                if has_day(s2, d) {
                    let j = choose|j: int| 0 <= j < s2.len() && (#[trigger] s2[j]).day == d;
                    assert(stats[j].day == d);
                }
            }
        }
    }
}

/// Appending a row for a new day changes the counters of that day alone.
pub proof fn lemma_counts_push(stats: Seq<TimerStatistic>, v: TimerStatistic)
    requires
        unique_days(stats),
        !has_day(stats, v.day as int),
    ensures
        unique_days(stats.push(v)),
        counts_on(stats.push(v), v.day as int) == counts_of(v),
        forall|d: int| d != v.day ==> counts_on(stats.push(v), d) == counts_on(stats, d),
{
    let s2 = stats.push(v);
    assert(unique_days(s2)) by {
        assert forall|a: int, b: int|
            0 <= a < s2.len() && 0 <= b < s2.len() && a != b implies (#[trigger] s2[a]).day
            != (#[trigger] s2[b]).day by {
            if a < stats.len() && b < stats.len() {
                assert(stats[a].day != stats[b].day);
            } else if a < stats.len() {
                assert(stats[a].day != v.day);
            } else {
                assert(stats[b].day != v.day);
            }
        }
    }
    lemma_counts_at(s2, stats.len() as int);
    assert forall|d: int| d != v.day implies counts_on(s2, d) == counts_on(stats, d) by {
        if has_day(stats, d) {
            let j = choose|j: int| 0 <= j < stats.len() && (#[trigger] stats[j]).day == d;
            lemma_counts_at(stats, j);
            assert(s2[j] == stats[j]);
            lemma_counts_at(s2, j);
        } else {
            assert(!has_day(s2, d)) by {
                if has_day(s2, d) {
                    let j = choose|j: int| 0 <= j < s2.len() && (#[trigger] s2[j]).day == d;
                    assert(j < stats.len());
                    assert(stats[j].day == d);
                }
            }
        }
    }
}

pub proof fn lemma_wf_unique_days(store: &TimerStore)
    requires
        store.wf(),
    ensures
        unique_days(store.statistics@),
{
    let s = store.statistics@;
    assert forall|i: int, j: int|
        0 <= i < s.len() && 0 <= j < s.len() && i != j implies (#[trigger] s[i]).day
        != (#[trigger] s[j]).day by {
        if i < j {
            assert(s[i].day != s[j].day);
        } else {
            assert(s[j].day != s[i].day);
        }
    }
}

/// What raising counter `which` of row `s0` at second `now` leaves: the row
/// `s1`, the store `t1` in place of `t0`, and the outcome `r`.
pub open spec fn increment_outcome(
    s0: TimerStatistic,
    s1: TimerStatistic,
    t0: TimerStore,
    t1: TimerStore,
    which: Counter,
    now: i64,
    r: Result<(), TimerError>,
) -> bool {
    if counter_value(counts_of(s0), which) == i64::MAX {
        &&& r == Err::<(), TimerError>(TimerError::CounterOverflow)
        &&& s1 == s0
        &&& t1 == t0
    } else {
        &&& counts_of(s1) == bumped(counts_of(s0), which)
        &&& s1 == (TimerStatistic {
            timers_started: s1.timers_started,
            timers_finished: s1.timers_finished,
            timers_cancelled: s1.timers_cancelled,
            updated_at: now,
            ..s0
        })
        &&& match r {
            Ok(()) => exists|i: int|
                0 <= i < t0.statistics@.len() && (#[trigger] t0.statistics@[i]).id == s0.id
                    && t1.statistics@ == t0.statistics@.update(
                    i,
                    s1.saved_over(t0.statistics@[i], now as int),
                ),
            Err(err) => {
                &&& err == TimerError::NotFound
                &&& t1 == t0
                &&& forall|i: int|
                    0 <= i < t0.statistics@.len() ==> (#[trigger] t0.statistics@[i]).id != s0.id
            },
        }
    }
}

impl TimerStatistic {
    pub open spec fn valid(&self) -> bool {
        &&& self.id >= 1
        &&& valid_day(self.day as int)
        &&& self.timers_started >= 0
        &&& self.timers_finished >= 0
        &&& self.timers_cancelled >= 0
        &&& valid_timestamp(self.created_at as int)
        &&& valid_timestamp(self.updated_at as int)
    }

    /// The row that saving `self` at second `now` leaves in place of
    /// `stored`: the counters of `self`, the update time `now`.
    pub open spec fn saved_over(self, stored: TimerStatistic, now: int) -> TimerStatistic {
        TimerStatistic {
            timers_started: self.timers_started,
            timers_finished: self.timers_finished,
            timers_cancelled: self.timers_cancelled,
            updated_at: now as i64,
            ..stored
        }
    }

    pub fn is_valid(&self) -> (r: bool)
        ensures
            r == self.valid(),
    {
        self.id >= 1 && MIN_DAY <= self.day && self.day <= MAX_DAY && self.timers_started >= 0
            && self.timers_finished >= 0 && self.timers_cancelled >= 0 && MIN_TIMESTAMP
            <= self.created_at && self.created_at <= MAX_TIMESTAMP && MIN_TIMESTAMP
            <= self.updated_at && self.updated_at <= MAX_TIMESTAMP
    }

    pub fn copy(&self) -> (r: TimerStatistic)
        ensures
            r == *self,
    {
        TimerStatistic {
            id: self.id,
            day: self.day,
            date_string: self.date_string.clone(),
            timers_started: self.timers_started,
            timers_finished: self.timers_finished,
            timers_cancelled: self.timers_cancelled,
            created_at: self.created_at,
            updated_at: self.updated_at,
        }
    }

    /// A new, not yet stored row of zero counters for `day`, made at `now`.
    pub fn new(day: i64, now: i64) -> (r: TimerStatistic)
        requires
            valid_day(day as int),
        ensures
            r.id == 0,
            r.day == day,
            r.date_string@ == formatted_date("%Y-%m-%d"@, day * 86400),
            counts_of(r) == (0int, 0int, 0int),
            r.created_at == now,
            r.updated_at == now,
    {
        let date_string = date_text(day);
        TimerStatistic {
            id: 0,
            day,
            date_string,
            timers_started: 0,
            timers_finished: 0,
            timers_cancelled: 0,
            created_at: now,
            updated_at: now,
        }
    }

    /// Stores a new row of zero counters for `day`; fails with `Storage`
    /// where `day` has a row already or identifiers are used up.
    pub fn create(store: &mut TimerStore, day: i64, now: i64) -> (r: Result<TimerStatistic, TimerError>)
        requires
            old(store).wf(),
            valid_day(day as int),
            valid_timestamp(now as int),
        ensures
            final(store).wf(),
            final(store).entries@ == old(store).entries@,
            final(store).next_entry_id == old(store).next_entry_id,
            r is Ok <==> !has_day(old(store).statistics@, day as int) && old(store).next_statistic_id < i64::MAX,
            match r {
                Ok(s) => {
                    &&& s.id == old(store).next_statistic_id
                    &&& s.day == day
                    &&& s.date_string@ == formatted_date("%Y-%m-%d"@, day * 86400)
                    &&& counts_of(s) == (0int, 0int, 0int)
                    &&& s.created_at == now
                    &&& s.updated_at == now
                    &&& final(store).statistics@ == old(store).statistics@.push(s)
                    &&& final(store).next_statistic_id == old(store).next_statistic_id + 1
                },
                Err(err) => err == TimerError::Storage && *final(store) == *old(store),
            },
    {
        match store.statistic_index(day) {
            Some(_) => {
                return Err(TimerError::Storage);
            },
            None => {},
        }
        if store.next_statistic_id == i64::MAX {
            return Err(TimerError::Storage);
        }
        let mut row = TimerStatistic::new(day, now);
        row.id = store.next_statistic_id;
        store.statistics.push(row.copy());
        store.next_statistic_id = store.next_statistic_id + 1;
        Ok(row)
    }

    /// The row for `day`, stored first (with zero counters) where there is
    /// none.
    pub fn find_or_create(store: &mut TimerStore, day: i64, now: i64) -> (r: Result<
        TimerStatistic,
        TimerError,
    >)
        requires
            old(store).wf(),
            valid_day(day as int),
            valid_timestamp(now as int),
        ensures
            final(store).wf(),
            final(store).entries@ == old(store).entries@,
            final(store).next_entry_id == old(store).next_entry_id,
            r is Ok <==> has_day(old(store).statistics@, day as int) || old(store).next_statistic_id
                < i64::MAX,
            match r {
                Ok(s) => {
                    &&& s.day == day
                    &&& s.valid()
                    &&& exists|i: int|
                        0 <= i < final(store).statistics@.len() && (#[trigger] final(store).statistics@[i]) == s
                    &&& counts_of(s) == counts_on(old(store).statistics@, day as int)
                    &&& has_day(old(store).statistics@, day as int) ==> *final(store) == *old(store)
                    &&& !has_day(old(store).statistics@, day as int) ==> {
                        &&& final(store).statistics@ == old(store).statistics@.push(s)
                        &&& final(store).next_statistic_id == old(store).next_statistic_id + 1
                        &&& s.id == old(store).next_statistic_id
                        &&& s.date_string@ == formatted_date("%Y-%m-%d"@, day * 86400)
                        &&& s.created_at == now
                        &&& s.updated_at == now
                    }
                },
                Err(err) => err == TimerError::Storage && *final(store) == *old(store),
            },
    {
        proof {
            lemma_wf_unique_days(store);
        }
        match store.statistic_index(day) {
            Some(i) => {
                proof {
                    lemma_counts_at(store.statistics@, i as int);
                }
                Ok(store.statistics[i].copy())
            },
            None => {
                let r = TimerStatistic::create(store, day, now);
                proof {
                    if r is Ok {
                        let s = r.unwrap();
                        assert(final(store).statistics@[old(store).statistics@.len() as int] == s);
                    }
                }
                r
            },
        }
    }

    /// Raises counter `which` by one and saves the row at second `now`; fails
    /// with `CounterOverflow`, changing nothing, where the counter is at its
    /// largest value.
    pub fn increment(&mut self, which: Counter, store: &mut TimerStore, now: i64) -> (r: Result<
        (),
        TimerError,
    >)
        requires
            old(store).wf(),
            old(self).timers_started >= 0,
            old(self).timers_finished >= 0,
            old(self).timers_cancelled >= 0,
            valid_timestamp(now as int),
        ensures
            final(store).wf(),
            final(store).entries@ == old(store).entries@,
            final(store).next_entry_id == old(store).next_entry_id,
            final(store).next_statistic_id == old(store).next_statistic_id,
            increment_outcome(*old(self), *final(self), *old(store), *final(store), which, now, r),
    {
        match which {
            Counter::Started => {
                if self.timers_started == i64::MAX {
                    return Err(TimerError::CounterOverflow);
                }
                self.timers_started = self.timers_started + 1;
            },
            Counter::Finished => {
                if self.timers_finished == i64::MAX {
                    return Err(TimerError::CounterOverflow);
                }
                self.timers_finished = self.timers_finished + 1;
            },
            Counter::Cancelled => {
                if self.timers_cancelled == i64::MAX {
                    return Err(TimerError::CounterOverflow);
                }
                self.timers_cancelled = self.timers_cancelled + 1;
            },
        }
        self.updated_at = now;
        self.save(store, now)
    }

    /// Raises `timers_started` by one and saves the row (see `increment`).
    pub fn increment_timers_started(&mut self, store: &mut TimerStore, now: i64) -> (r: Result<
        (),
        TimerError,
    >)
        requires
            old(store).wf(),
            old(self).timers_started >= 0,
            old(self).timers_finished >= 0,
            old(self).timers_cancelled >= 0,
            valid_timestamp(now as int),
        ensures
            final(store).wf(),
            final(store).entries@ == old(store).entries@,
            final(store).next_entry_id == old(store).next_entry_id,
            final(store).next_statistic_id == old(store).next_statistic_id,
            increment_outcome(*old(self), *final(self), *old(store), *final(store), Counter::Started, now, r),
    {
        self.increment(Counter::Started, store, now)
    }

    /// Raises `timers_finished` by one and saves the row (see `increment`).
    pub fn increment_timers_finished(&mut self, store: &mut TimerStore, now: i64) -> (r: Result<
        (),
        TimerError,
    >)
        requires
            old(store).wf(),
            old(self).timers_started >= 0,
            old(self).timers_finished >= 0,
            old(self).timers_cancelled >= 0,
            valid_timestamp(now as int),
        ensures
            final(store).wf(),
            final(store).entries@ == old(store).entries@,
            final(store).next_entry_id == old(store).next_entry_id,
            final(store).next_statistic_id == old(store).next_statistic_id,
            increment_outcome(*old(self), *final(self), *old(store), *final(store), Counter::Finished, now, r),
    {
        self.increment(Counter::Finished, store, now)
    }

    /// Raises `timers_cancelled` by one and saves the row (see `increment`).
    pub fn increment_timers_cancelled(&mut self, store: &mut TimerStore, now: i64) -> (r: Result<
        (),
        TimerError,
    >)
        requires
            old(store).wf(),
            old(self).timers_started >= 0,
            old(self).timers_finished >= 0,
            old(self).timers_cancelled >= 0,
            valid_timestamp(now as int),
        ensures
            final(store).wf(),
            final(store).entries@ == old(store).entries@,
            final(store).next_entry_id == old(store).next_entry_id,
            final(store).next_statistic_id == old(store).next_statistic_id,
            increment_outcome(*old(self), *final(self), *old(store), *final(store), Counter::Cancelled, now, r),
    {
        self.increment(Counter::Cancelled, store, now)
    }

    /// Writes the counters of `self` over the stored row with the same
    /// identifier, at second `now`; fails with `NotFound` where there is none.
    pub fn save(&self, store: &mut TimerStore, now: i64) -> (r: Result<(), TimerError>)
        requires
            old(store).wf(),
            self.timers_started >= 0,
            self.timers_finished >= 0,
            self.timers_cancelled >= 0,
            valid_timestamp(now as int),
        ensures
            final(store).wf(),
            final(store).entries@ == old(store).entries@,
            final(store).next_entry_id == old(store).next_entry_id,
            final(store).next_statistic_id == old(store).next_statistic_id,
            match r {
                Ok(()) => exists|i: int|
                    0 <= i < old(store).statistics@.len() && (#[trigger] old(store).statistics@[i]).id == self.id && final(store).statistics@ == old(store).statistics@.update(i, self.saved_over(old(store).statistics@[i], now as int)),
                Err(err) => {
                    &&& err == TimerError::NotFound
                    &&& *final(store) == *old(store)
                    &&& forall|i: int|
                        0 <= i < old(store).statistics@.len() ==> (#[trigger] old(store).statistics@[i]).id != self.id
                },
            },
    {
        let mut k: usize = 0;
        while k < store.statistics.len()
            invariant
                *store == *old(store),
                store.wf(),
                self.timers_started >= 0,
                self.timers_finished >= 0,
                self.timers_cancelled >= 0,
                valid_timestamp(now as int),
                k <= store.statistics@.len(),
                forall|i: int| 0 <= i < k ==> (#[trigger] store.statistics@[i]).id != self.id,
            decreases store.statistics@.len() - k,
        {
            if store.statistics[k].id == self.id {
                let stored = &store.statistics[k];
                let saved = TimerStatistic {
                    id: stored.id,
                    day: stored.day,
                    date_string: stored.date_string.clone(),
                    timers_started: self.timers_started,
                    timers_finished: self.timers_finished,
                    timers_cancelled: self.timers_cancelled,
                    created_at: stored.created_at,
                    updated_at: now,
                };
                store.statistics.set(k, saved);
                proof {
                    let s0 = old(store).statistics@;
                    let s1 = store.statistics@;
                    assert forall|i: int| 0 <= i < s1.len() implies (#[trigger] s1[i]).valid()
                        && s1[i].id < store.next_statistic_id by {
                        if i != k {
                            assert(s1[i] == s0[i]);
                        }
                    }
                    assert forall|i: int, j: int| 0 <= i < j < s1.len() implies (#[trigger] s1[i]).id
                        < (#[trigger] s1[j]).id && s1[i].day != s1[j].day by {
                        assert(s0[i].id < s0[j].id && s0[i].day != s0[j].day);
                    }
                }
                return Ok(());
            }
            k = k + 1;
        }
        Err(TimerError::NotFound)
    }
}

} // verus!

verus! {

/// `s` with counter `which` one higher and update time `now`.
pub open spec fn bump_row(s: TimerStatistic, which: Counter, now: int) -> TimerStatistic {
    match which {
        Counter::Started => TimerStatistic {
            timers_started: (s.timers_started + 1) as i64,
            updated_at: now as i64,
            ..s
        },
        Counter::Finished => TimerStatistic {
            timers_finished: (s.timers_finished + 1) as i64,
            updated_at: now as i64,
            ..s
        },
        Counter::Cancelled => TimerStatistic {
            timers_cancelled: (s.timers_cancelled + 1) as i64,
            updated_at: now as i64,
            ..s
        },
    }
}

/// `s` is the row that recording event `which` at second `now` creates for
/// `day`, under identifier `id`: that counter at one, the others at zero.
pub open spec fn fresh_row(s: TimerStatistic, id: i64, day: int, now: i64, which: Counter) -> bool {
    &&& s.id == id
    &&& s.day == day
    &&& s.date_string@ == formatted_date("%Y-%m-%d"@, day * 86400)
    &&& counts_of(s) == bumped((0int, 0int, 0int), which)
    &&& s.created_at == now
    &&& s.updated_at == now
}

/// The statistics of `t1` are those of `t0` after recording event `which`
/// at second `now`: the row of the day of `now` raised in place, or, where
/// the day had none, a new row appended under the next identifier. So that
/// day's counter is one higher and every other day's counters are as they
/// were.
pub open spec fn statistics_marked(t0: TimerStore, t1: TimerStore, now: i64, which: Counter) -> bool {
    let d = day_of(now as int);
    &&& counts_on(t1.statistics@, d) == bumped(counts_on(t0.statistics@, d), which)
    &&& forall|d2: int| d2 != d ==> counts_on(t1.statistics@, d2) == counts_on(t0.statistics@, d2)
    &&& if has_day(t0.statistics@, d) {
        &&& t1.next_statistic_id == t0.next_statistic_id
        &&& exists|i: int|
            0 <= i < t0.statistics@.len() && (#[trigger] t0.statistics@[i]).day == d
                && t1.statistics@ == t0.statistics@.update(
                i,
                bump_row(t0.statistics@[i], which, now as int),
            )
    } else {
        &&& t1.next_statistic_id == t0.next_statistic_id + 1
        &&& t1.statistics@.len() == t0.statistics@.len() + 1
        &&& t1.statistics@.drop_last() == t0.statistics@
        &&& fresh_row(t1.statistics@.last(), t0.next_statistic_id, d, now, which)
    }
}

/// `statistics_marked` reads the statistics and their next identifier
/// alone.
pub proof fn lemma_marked_frame(
    t0: TimerStore,
    t1: TimerStore,
    u0: TimerStore,
    u1: TimerStore,
    now: i64,
    which: Counter,
)
    requires
        statistics_marked(t0, t1, now, which),
        u0.statistics@ == t0.statistics@,
        u0.next_statistic_id == t0.next_statistic_id,
        u1.statistics@ == t1.statistics@,
        u1.next_statistic_id == t1.next_statistic_id,
    ensures
        statistics_marked(u0, u1, now, which),
{
}

/// What recording event `which` at second `now` leaves: the store `t1` in
/// place of `t0`, and the outcome `r`. On success the counter of the day of
/// `now` is one higher and every other day's counters are as they were; on
/// failure nothing changed.
pub open spec fn mark_outcome(
    t0: TimerStore,
    t1: TimerStore,
    now: i64,
    which: Counter,
    r: Result<(), TimerError>,
) -> bool {
    let d = day_of(now as int);
    let c = counts_on(t0.statistics@, d);
    &&& t1.wf()
    &&& t1.entries@ == t0.entries@
    &&& t1.next_entry_id == t0.next_entry_id
    &&& (r is Ok <==> counter_value(c, which) < i64::MAX && (has_day(t0.statistics@, d)
        || t0.next_statistic_id < i64::MAX))
    &&& match r {
        Ok(()) => statistics_marked(t0, t1, now, which),
        Err(err) => {
            &&& t1 == t0
            &&& if counter_value(c, which) == i64::MAX {
                err == TimerError::CounterOverflow
            } else {
                err == TimerError::Storage
            }
        },
    }
}

/// Records event `which` on the row of the day of `now`, creating the row
/// where the day has none.
pub fn mark_timer(store: &mut TimerStore, now: i64, which: Counter) -> (r: Result<(), TimerError>)
    requires
        old(store).wf(),
        valid_timestamp(now as int),
    ensures
        mark_outcome(*old(store), *final(store), now, which, r),
{
    let d = day_number(now);
    proof {
        lemma_wf_unique_days(store);
    }
    let ghost t0 = *store;
    let found = TimerStatistic::find_or_create(store, d, now);
    match found {
        Ok(stat) => {
            let ghost t_mid = *store;
            let ghost i = choose|i: int|
                0 <= i < t_mid.statistics@.len() && (#[trigger] t_mid.statistics@[i]) == stat;
            proof {
                lemma_wf_unique_days(store);
                if !has_day(t0.statistics@, d as int) {
                    lemma_counts_push(t0.statistics@, stat);
                }
            }
            let ghost stat0 = stat;
            let mut stat = stat;
            let r = stat.increment(which, store, now);
            proof {
                if r is Ok {
                    let j = choose|j: int|
                        0 <= j < t_mid.statistics@.len() && (#[trigger] t_mid.statistics@[j]).id
                            == t_mid.statistics@[i].id && store.statistics@
                            == t_mid.statistics@.update(
                            j,
                            stat.saved_over(t_mid.statistics@[j], now as int),
                        );
                    if i < j {
                        assert(t_mid.statistics@[i].id < t_mid.statistics@[j].id);
                    } else if j < i {
                        assert(t_mid.statistics@[j].id < t_mid.statistics@[i].id);
                    }
                    lemma_counts_update(
                        t_mid.statistics@,
                        i,
                        stat.saved_over(t_mid.statistics@[i], now as int),
                    );
                    let saved = stat.saved_over(t_mid.statistics@[i], now as int);
                    match which {
                        Counter::Started => assert(saved == bump_row(stat0, which, now as int)),
                        Counter::Finished => assert(saved == bump_row(stat0, which, now as int)),
                        Counter::Cancelled => assert(saved == bump_row(stat0, which, now as int)),
                    }
                    if has_day(t0.statistics@, d as int) {
                        assert(t0.statistics@[i].day == d);
                    } else {
                        if i < t0.statistics@.len() {
                            assert(t0.statistics@[i] == t_mid.statistics@[i]);
                            assert(has_day(t0.statistics@, d as int));
                        }
                        assert(store.statistics@.drop_last() =~= t0.statistics@);
                        assert(store.statistics@.last() == saved);
                    }
                } else if counter_value(counts_of(t_mid.statistics@[i]), which) < i64::MAX {
                    assert(t_mid.statistics@[i].id == stat.id);
                }
            }
            r
        },
        Err(e) => Err(e),
    }
}

/// Records that a pomodoro timer started at `now`.
pub fn mark_timer_started(store: &mut TimerStore, now: i64) -> (r: Result<(), TimerError>)
    requires
        old(store).wf(),
        valid_timestamp(now as int),
    ensures
        mark_outcome(*old(store), *final(store), now, Counter::Started, r),
{
    mark_timer(store, now, Counter::Started)
}

/// Records that a pomodoro timer finished at `now`.
pub fn mark_timer_finished(store: &mut TimerStore, now: i64) -> (r: Result<(), TimerError>)
    requires
        old(store).wf(),
        valid_timestamp(now as int),
    ensures
        mark_outcome(*old(store), *final(store), now, Counter::Finished, r),
{
    mark_timer(store, now, Counter::Finished)
}

/// Records that a timer was cancelled at `now`.
pub fn mark_timer_cancelled(store: &mut TimerStore, now: i64) -> (r: Result<(), TimerError>)
    requires
        old(store).wf(),
        valid_timestamp(now as int),
    ensures
        mark_outcome(*old(store), *final(store), now, Counter::Cancelled, r),
{
    mark_timer(store, now, Counter::Cancelled)
}

/// The row of the day of `now`, created where there is none.
pub fn load_statistic_for_date(store: &mut TimerStore, now: i64) -> (r: Result<
    TimerStatistic,
    TimerError,
>)
    requires
        old(store).wf(),
        valid_timestamp(now as int),
    ensures
        final(store).wf(),
        final(store).entries@ == old(store).entries@,
        r is Ok <==> has_day(old(store).statistics@, day_of(now as int)) || old(store).next_statistic_id < i64::MAX,
        match r {
            Ok(s) => {
                &&& s.valid()
                &&& s.day == day_of(now as int)
                &&& counts_of(s) == counts_on(old(store).statistics@, day_of(now as int))
                &&& has_day(old(store).statistics@, day_of(now as int)) ==> {
                    &&& *final(store) == *old(store)
                    &&& old(store).statistics@.contains(s)
                }
                &&& !has_day(old(store).statistics@, day_of(now as int)) ==> {
                    &&& final(store).statistics@ == old(store).statistics@.push(s)
                    &&& final(store).next_statistic_id == old(store).next_statistic_id + 1
                    &&& s.id == old(store).next_statistic_id
                    &&& s.date_string@ == formatted_date("%Y-%m-%d"@, day_of(now as int) * 86400)
                    &&& s.created_at == now
                    &&& s.updated_at == now
                }
            },
            Err(err) => err == TimerError::Storage && *final(store) == *old(store),
        },
{
    let d = day_number(now);
    proof {
        lemma_wf_unique_days(store);
    }
    let r = TimerStatistic::find_or_create(store, d, now);
    proof {
        if r is Ok {
            let s = r.unwrap();
            if has_day(old(store).statistics@, d as int) {
                let i = choose|i: int|
                    0 <= i < store.statistics@.len() && (#[trigger] store.statistics@[i]) == s;
                assert(old(store).statistics@[i] == s);
            }
        }
    }
    r
}

} // verus!

verus! {

impl TimerStatistic {
    /// The rows of the `days + 1` days that end the day before the day of
    /// `now`, latest day first. The day of `now` itself is never included.
    pub fn load_statistics_history(store: &TimerStore, now: i64, days: i64) -> (r: Vec<
        TimerStatistic,
    >)
        requires
            store.wf(),
            valid_timestamp(now as int),
        ensures
            forall|k: int|
                0 <= k < r@.len() ==> store.statistics@.contains(#[trigger] r@[k])
                    && in_history_window(r@[k].day as int, day_of(now as int), days as int),
            forall|k: int, l: int| 0 <= k < l < r@.len() ==> (#[trigger] r@[k]).day > (#[trigger] r@[l]).day,
            forall|i: int|
                0 <= i < store.statistics@.len() && in_history_window(
                    (#[trigger] store.statistics@[i]).day as int,
                    day_of(now as int),
                    days as int,
                ) ==> r@.contains(store.statistics@[i]),
    {
        let ghost ss = store.statistics@;
        let ghost today = day_of(now as int);
        let mut result: Vec<TimerStatistic> = Vec::new();
        if days < 0 {
            return result;
        }
        let t = day_number(now);
        let lo: i64 = if days >= t - 1 - MIN_DAY {
            MIN_DAY
        } else {
            t - 1 - days
        };
        let mut hi: i64 = t - 1;
        let mut done = false;
        while !done
            invariant
                ss == store.statistics@,
                store.wf(),
                t == today,
                valid_day(t as int),
                days >= 0,
                MIN_DAY <= lo,
                lo - 1 <= hi <= t - 1,
                (lo == MIN_DAY && today - days - 1 <= MIN_DAY) || lo == today - days - 1,
                forall|k: int|
                    0 <= k < result@.len() ==> ss.contains(#[trigger] result@[k]) && in_history_window(
                        result@[k].day as int,
                        today,
                        days as int,
                    ) && result@[k].day > hi,
                forall|k: int, l: int|
                    0 <= k < l < result@.len() ==> (#[trigger] result@[k]).day > (#[trigger] result@[l]).day,
                forall|i: int|
                    0 <= i < ss.len() && in_history_window((#[trigger] ss[i]).day as int, today, days as int)
                        && (done || ss[i].day > hi) ==> result@.contains(ss[i]),
            decreases hi - lo + 1 + if done {
                0int
            } else {
                1int
            },
        {
            let mut best: Option<usize> = None;
            let mut k: usize = 0;
            while k < store.statistics.len()
                invariant
                    ss == store.statistics@,
                    k <= ss.len(),
                    match best {
                        Some(b) => {
                            &&& b < k
                            &&& lo <= ss[b as int].day <= hi
                            &&& forall|j: int|
                                0 <= j < k && lo <= (#[trigger] ss[j]).day <= hi ==> ss[j].day
                                    <= ss[b as int].day
                        },
                        None => forall|j: int| 0 <= j < k ==> !(lo <= (#[trigger] ss[j]).day <= hi),
                    },
                decreases ss.len() - k,
            {
                let dk = store.statistics[k].day;
                if lo <= dk && dk <= hi {
                    match best {
                        Some(b) => {
                            if dk > store.statistics[b].day {
                                best = Some(k);
                            }
                        },
                        None => {
                            best = Some(k);
                        },
                    }
                }
                k = k + 1;
            }
            match best {
                None => {
                    done = true;
                    proof {
                        assert forall|i: int|
                            0 <= i < ss.len() && in_history_window((#[trigger] ss[i]).day as int, today, days as int)
                            implies result@.contains(ss[i]) by {
                            assert(ss[i].valid());
                            if ss[i].day <= hi {
                                assert(!(lo <= ss[i].day <= hi));
                            }
                        }
                    }
                },
                Some(b) => {
                    let ghost old_result = result@;
                    let ghost old_hi = hi;
                    result.push(store.statistics[b].copy());
                    hi = store.statistics[b].day - 1;
                    proof {
                        assert(ss[b as int].valid());
                        assert(result@[old_result.len() as int] == ss[b as int]);
                        assert(ss.contains(ss[b as int]));
                        assert forall|k: int|
                            0 <= k < result@.len() implies ss.contains(#[trigger] result@[k])
                            && in_history_window(result@[k].day as int, today, days as int)
                            && result@[k].day > hi by {
                            if k < old_result.len() {
                                assert(result@[k] == old_result[k]);
                            }
                        }
                        assert forall|k: int, l: int|
                            0 <= k < l < result@.len() implies (#[trigger] result@[k]).day
                            > (#[trigger] result@[l]).day by {
                            assert(result@[k] == old_result[k]);
                            if l < old_result.len() {
                                assert(result@[l] == old_result[l]);
                            }
                        }
                        assert forall|i: int|
                            0 <= i < ss.len() && in_history_window((#[trigger] ss[i]).day as int, today, days as int)
                                && (done || ss[i].day > hi) implies result@.contains(ss[i]) by {
                            assert(ss[i].valid());
                            if ss[i].day > old_hi {
                                let w = choose|w: int| 0 <= w < old_result.len() && old_result[w] == ss[i];
                                assert(result@[w] == ss[i]);
                            } else {
                                assert(ss[i].day <= ss[b as int].day);
                                if i != b {
                                    if i < b {
                                        assert(ss[i].day != ss[b as int].day);
                                    } else {
                                        assert(ss[b as int].day != ss[i].day);
                                    }
                                }
                                assert(result@[old_result.len() as int] == ss[i]);
                            }
                        }
                    }
                },
            }
        }
        result
    }
}

} // verus!
