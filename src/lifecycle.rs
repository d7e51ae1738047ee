//! The lifecycle operations: start a plain or a pomodoro timer, cancel or
//! finish the active one. Each takes the store by `&mut`, so operations on
//! one store never interleave, and each checks before it writes, so a failed
//! operation leaves the store as it was.

use vstd::prelude::*;

use crate::entries::TimerEntry;
use crate::history::{flatten, grouped_by_day, is_history, DayGroup};
use crate::notifications::Notice;
use crate::statistics::{
    bumped, counter_value, counts_of, counts_on, has_day, lemma_counts_at, lemma_wf_unique_days,
    in_history_window, lemma_marked_frame, load_statistic_for_date, mark_timer, mark_outcome,
    statistics_marked, Counter, TimerStatistic,
};
use crate::store::{at_most_one_active, has_active, TimerError, TimerStore};
use crate::time::{day_number, day_of, formatted_date, valid_timestamp};

verus! {

/// Counter `which` of the day of `now` can be raised: it is below its
/// largest value, and a row for the day exists or can be created.
pub open spec fn can_mark(store: TimerStore, now: i64, which: Counter) -> bool {
    let d = day_of(now as int);
    &&& counter_value(counts_on(store.statistics@, d), which) < i64::MAX
    &&& (has_day(store.statistics@, d) || store.next_statistic_id < i64::MAX)
}

/// `e` ended at second `now`.
pub open spec fn ended(e: TimerEntry, now: int) -> TimerEntry {
    TimerEntry {
        end_time: Some(now as i64),
        duration: (now - e.start_time) as i64,
        updated_at: now as i64,
        ..e
    }
}

/// Entry `i` is the active entry that a read picks: active, and started no
/// earlier than any other active entry.
pub open spec fn is_latest_active(entries: Seq<TimerEntry>, i: int) -> bool {
    &&& 0 <= i < entries.len()
    &&& entries[i].is_active()
    &&& forall|j: int|
        0 <= j < entries.len() && (#[trigger] entries[j]).is_active() ==> entries[j].start_time
            <= entries[i].start_time
}

/// The entry that starting a timer at `now` stores, under identifier `id`.
pub open spec fn started_entry(
    id: i64,
    activity: Option<String>,
    area: Option<String>,
    now: i64,
    is_pomodoro: bool,
) -> TimerEntry {
    TimerEntry {
        id,
        activity,
        area,
        start_time: now,
        end_time: None,
        duration: 0,
        is_pomodoro,
        created_at: now,
        updated_at: now,
    }
}

/// Why starting a pomodoro at `now` is refused, if it is.
pub open spec fn pomodoro_refusal(store: TimerStore, now: i64) -> Option<TimerError> {
    let c = counts_on(store.statistics@, day_of(now as int));
    if has_active(store.entries@) {
        Some(TimerError::InvariantViolation)
    } else if store.next_entry_id == i64::MAX {
        Some(TimerError::Storage)
    } else if c.0 == i64::MAX {
        Some(TimerError::CounterOverflow)
    } else if !has_day(store.statistics@, day_of(now as int)) && store.next_statistic_id
        == i64::MAX {
        Some(TimerError::Storage)
    } else {
        None
    }
}

/// Why ending the active entry at `now` and raising counter `which` is
/// refused, if it is.
pub open spec fn mark_refusal(store: TimerStore, now: i64, which: Counter) -> TimerError {
    if counter_value(counts_on(store.statistics@, day_of(now as int)), which) == i64::MAX {
        TimerError::CounterOverflow
    } else {
        TimerError::Storage
    }
}

/// Whether counter `which` of the day of `now` can be raised.
pub fn check_mark(store: &TimerStore, now: i64, which: Counter) -> (r: bool)
    requires
        store.wf(),
        valid_timestamp(now as int),
    ensures
        r == can_mark(*store, now, which),
{
    let d = day_number(now);
    proof {
        lemma_wf_unique_days(store);
    }
    match store.statistic_index(d) {
        Some(i) => {
            proof {
                lemma_counts_at(store.statistics@, i as int);
            }
            let s = &store.statistics[i];
            match which {
                Counter::Started => s.timers_started < i64::MAX,
                Counter::Finished => s.timers_finished < i64::MAX,
                Counter::Cancelled => s.timers_cancelled < i64::MAX,
            }
        },
        None => store.next_statistic_id < i64::MAX,
    }
}

proof fn lemma_push_active(entries: Seq<TimerEntry>, e: TimerEntry)
    requires
        !has_active(entries),
    ensures
        at_most_one_active(entries.push(e)),
{
    let s = entries.push(e);
    assert forall|i: int, j: int|
        0 <= i < s.len() && 0 <= j < s.len() && (#[trigger] s[i]).is_active()
            && (#[trigger] s[j]).is_active() implies i == j by {
        if i < entries.len() {
            assert(entries[i].is_active());
        }
        if j < entries.len() {
            assert(entries[j].is_active());
        }
    }
}

proof fn lemma_end_keeps_single(entries: Seq<TimerEntry>, i: int, e: TimerEntry)
    requires
        0 <= i < entries.len(),
        !e.is_active(),
    ensures
        !has_active(entries) ==> !has_active(entries.update(i, e)),
        at_most_one_active(entries) ==> at_most_one_active(entries.update(i, e)),
        at_most_one_active(entries) && entries[i].is_active() ==> !has_active(entries.update(i, e)),
{
    let s = entries.update(i, e);
    if at_most_one_active(entries) {
        assert forall|a: int, b: int|
            0 <= a < s.len() && 0 <= b < s.len() && (#[trigger] s[a]).is_active()
                && (#[trigger] s[b]).is_active() implies a == b by {
            assert(entries[a].is_active() && entries[b].is_active());
        }
    }
    if !has_active(entries) {
        assert forall|a: int| 0 <= a < s.len() implies !(#[trigger] s[a]).is_active() by {
            if a != i {
                assert(!entries[a].is_active());
            }
        }
    }
    if at_most_one_active(entries) && entries[i].is_active() {
        assert forall|a: int| 0 <= a < s.len() implies !(#[trigger] s[a]).is_active() by {
            if a != i && entries[a].is_active() {
                assert(entries[i].is_active());
            }
        }
    }
}

/// Starts a plain timer at `now`. Refused with `InvariantViolation` while
/// another entry is active, and with `Storage` once identifiers are used up.
/// Statistics are left alone.
pub fn start_timer_command(
    store: &mut TimerStore,
    activity: Option<String>,
    area: Option<String>,
    now: i64,
) -> (r: Result<TimerEntry, TimerError>)
    requires
        old(store).wf(),
        valid_timestamp(now as int),
    ensures
        final(store).wf(),
        final(store).statistics@ == old(store).statistics@,
        final(store).next_statistic_id == old(store).next_statistic_id,
        old(store).at_most_one_active() ==> final(store).at_most_one_active(),
        r is Ok <==> !has_active(old(store).entries@) && old(store).next_entry_id < i64::MAX,
        match r {
            Ok(e) => {
                &&& e == started_entry(old(store).next_entry_id, activity, area, now, false)
                &&& final(store).entries@ == old(store).entries@.push(e)
            },
            Err(err) => {
                &&& *final(store) == *old(store)
                &&& err == if has_active(old(store).entries@) {
                    TimerError::InvariantViolation
                } else {
                    TimerError::Storage
                }
            },
        },
{
    if store.active_index().is_some() {
        return Err(TimerError::InvariantViolation);
    }
    let r = TimerEntry::create(activity, area, store, now, false);
    proof {
        if r is Ok {
            lemma_push_active(old(store).entries@, r.unwrap());
        }
    }
    r
}

/// Starts a pomodoro timer at `now`: raises the day's `timers_started` and
/// stores a new active entry; the caller shows the `Started` notice. Refused,
/// changing nothing, as `pomodoro_refusal` says.
pub fn start_pomodoro_timer_command(
    store: &mut TimerStore,
    activity: Option<String>,
    now: i64,
) -> (r: Result<TimerEntry, TimerError>)
    requires
        old(store).wf(),
        valid_timestamp(now as int),
    ensures
        final(store).wf(),
        old(store).at_most_one_active() ==> final(store).at_most_one_active(),
        r is Ok <==> pomodoro_refusal(*old(store), now) is None,
        match r {
            Ok(e) => {
                &&& e == started_entry(old(store).next_entry_id, activity, None, now, true)
                &&& final(store).entries@ == old(store).entries@.push(e)
                &&& final(store).next_entry_id == old(store).next_entry_id + 1
                &&& statistics_marked(*old(store), *final(store), now, Counter::Started)
            },
            Err(err) => {
                &&& *final(store) == *old(store)
                &&& pomodoro_refusal(*old(store), now) == Some(err)
            },
        },
{
    if store.active_index().is_some() {
        return Err(TimerError::InvariantViolation);
    }
    if store.next_entry_id == i64::MAX {
        return Err(TimerError::Storage);
    }
    if !check_mark(store, now, Counter::Started) {
        proof {
            lemma_wf_unique_days(store);
        }
        let d = day_number(now);
        match store.statistic_index(d) {
            Some(j) => {
                proof {
                    lemma_counts_at(store.statistics@, j as int);
                }
                return Err(TimerError::CounterOverflow);
            },
            None => {
                return Err(TimerError::Storage);
            },
        }
    }
    let ghost t0 = *store;
    let m = mark_timer(store, now, Counter::Started);
    assert(m is Ok);
    let ghost t_mid = *store;
    let r = TimerEntry::create(activity, None, store, now, true);
    proof {
        lemma_push_active(old(store).entries@, r.unwrap());
        lemma_marked_frame(t0, t_mid, t0, *store, now, Counter::Started);
    }
    r
}

/// Cancels the active entry at `now`: ends it and raises the day's
/// `timers_cancelled`, whether it is a pomodoro or not, and asks for the
/// `Cancelled` notice. With no active entry nothing happens.
pub fn cancel_timer_command(store: &mut TimerStore, now: i64) -> (r: Result<
    Option<Notice>,
    TimerError,
>)
    requires
        old(store).wf(),
        valid_timestamp(now as int),
    ensures
        final(store).wf(),
        old(store).at_most_one_active() ==> final(store).at_most_one_active(),
        !has_active(old(store).entries@) ==> r == Ok::<Option<Notice>, TimerError>(None) && *final(store) == *old(store),
        has_active(old(store).entries@) ==> {
            &&& r is Ok <==> can_mark(*old(store), now, Counter::Cancelled)
            &&& match r {
                Ok(n) => {
                    &&& n == Some(Notice::Cancelled)
                    &&& final(store).next_entry_id == old(store).next_entry_id
                    &&& exists|i: int|
                        is_latest_active(old(store).entries@, i) && (#[trigger] final(store).entries@) == old(store).entries@.update(
                            i,
                            ended(old(store).entries@[i], now as int),
                        )
                    &&& statistics_marked(*old(store), *final(store), now, Counter::Cancelled)
                    &&& old(store).at_most_one_active() ==> !has_active(final(store).entries@)
                },
                Err(err) => {
                    &&& *final(store) == *old(store)
                    &&& err == mark_refusal(*old(store), now, Counter::Cancelled)
                },
            }
        },
{
    end_active(store, now, true)
}

/// Finishes the active entry at `now`: ends it; where it is a pomodoro, also
/// raises the day's `timers_finished` and asks for the `Finished` notice. A
/// plain entry ends with no other effect. With no active entry nothing
/// happens.
pub fn finish_timer_command(store: &mut TimerStore, now: i64) -> (r: Result<
    Option<Notice>,
    TimerError,
>)
    requires
        old(store).wf(),
        valid_timestamp(now as int),
    ensures
        final(store).wf(),
        old(store).at_most_one_active() ==> final(store).at_most_one_active(),
        !has_active(old(store).entries@) ==> r == Ok::<Option<Notice>, TimerError>(None) && *final(store) == *old(store),
        has_active(old(store).entries@) ==> exists|i: int|
            is_latest_active(old(store).entries@, i) && #[trigger] finish_outcome(
                *old(store),
                *final(store),
                i,
                now,
                r,
            ),
{
    end_active(store, now, false)
}

/// What finishing entry `i`, the latest active one, at `now` leaves.
pub open spec fn finish_outcome(
    t0: TimerStore,
    t1: TimerStore,
    i: int,
    now: i64,
    r: Result<Option<Notice>, TimerError>,
) -> bool {
    let pomodoro = t0.entries@[i].is_pomodoro;
    &&& r is Ok <==> !pomodoro || can_mark(t0, now, Counter::Finished)
    &&& match r {
        Ok(n) => {
            &&& n == if pomodoro {
                Some(Notice::Finished)
            } else {
                None
            }
            &&& t1.next_entry_id == t0.next_entry_id
            &&& t1.entries@ == t0.entries@.update(i, ended(t0.entries@[i], now as int))
            &&& t0.at_most_one_active() ==> !has_active(t1.entries@)
            &&& pomodoro ==> statistics_marked(t0, t1, now, Counter::Finished)
            &&& !pomodoro ==> t1.statistics@ == t0.statistics@ && t1.next_statistic_id
                == t0.next_statistic_id
        },
        Err(err) => {
            &&& t1 == t0
            &&& err == mark_refusal(t0, now, Counter::Finished)
        },
    }
}

/// Ends the latest active entry at `now`; on a cancel, or on finishing a
/// pomodoro, raises the matching counter.
fn end_active(store: &mut TimerStore, now: i64, cancel: bool) -> (r: Result<
    Option<Notice>,
    TimerError,
>)
    requires
        old(store).wf(),
        valid_timestamp(now as int),
    ensures
        final(store).wf(),
        old(store).at_most_one_active() ==> final(store).at_most_one_active(),
        !has_active(old(store).entries@) ==> r == Ok::<Option<Notice>, TimerError>(None) && *final(store) == *old(store),
        has_active(old(store).entries@) ==> exists|i: int|
            is_latest_active(old(store).entries@, i) && {
                if cancel {
                    &&& r is Ok <==> can_mark(*old(store), now, Counter::Cancelled)
                    &&& match r {
                        Ok(n) => {
                            &&& n == Some(Notice::Cancelled)
                            &&& final(store).next_entry_id == old(store).next_entry_id
                            &&& final(store).entries@ == old(store).entries@.update(
                                i,
                                ended(old(store).entries@[i], now as int),
                            )
                            &&& statistics_marked(
                                *old(store),
                                *final(store),
                                now,
                                Counter::Cancelled,
                            )
                            &&& old(store).at_most_one_active() ==> !has_active(
                                final(store).entries@,
                            )
                        },
                        Err(err) => {
                            &&& *final(store) == *old(store)
                            &&& err == mark_refusal(*old(store), now, Counter::Cancelled)
                        },
                    }
                } else {
                    finish_outcome(*old(store), *final(store), i, now, r)
                }
            },
{
    let idx = store.active_index();
    match idx {
        None => Ok(None),
        Some(i) => {
            let pomodoro = store.entries[i].is_pomodoro;
            let which = if cancel {
                Counter::Cancelled
            } else {
                Counter::Finished
            };
            let counts = cancel || pomodoro;
            assert(is_latest_active(store.entries@, i as int));
            if counts && !check_mark(store, now, which) {
                let d = day_number(now);
                proof {
                    lemma_wf_unique_days(store);
                }
                match store.statistic_index(d) {
                    Some(j) => {
                        proof {
                            lemma_counts_at(store.statistics@, j as int);
                        }
                        return Err(TimerError::CounterOverflow);
                    },
                    None => {
                        return Err(TimerError::Storage);
                    },
                }
            }
            let ghost t0 = *store;
            let mut entry = store.entries[i].read(now);
            let e = entry.end(store, now);
            proof {
                assert(t0.entries@[i as int].id == entry.id);
                let k = choose|k: int|
                    0 <= k < t0.entries@.len() && (#[trigger] t0.entries@[k]).id == t0.entries@[i as int].id
                        && store.entries@ == t0.entries@.update(
                        k,
                        entry.saved_over(t0.entries@[k], now as int),
                    );
                if k < i {
                    assert(t0.entries@[k].id < t0.entries@[i as int].id);
                } else if i < k {
                    assert(t0.entries@[i as int].id < t0.entries@[k].id);
                }
                assert(entry.saved_over(t0.entries@[i as int], now as int) == ended(
                    t0.entries@[i as int],
                    now as int,
                ));
                lemma_end_keeps_single(t0.entries@, i as int, ended(t0.entries@[i as int], now as int));
            }
            if counts {
                let ghost t_mid = *store;
                let m = mark_timer(store, now, which);
                assert(m is Ok);
                proof {
                    lemma_marked_frame(t_mid, *store, t0, *store, now, which);
                }
                if cancel {
                    Ok(Some(Notice::Cancelled))
                } else {
                    Ok(Some(Notice::Finished))
                }
            } else {
                Ok(None)
            }
        },
    }
}

} // verus!

verus! {

/// The active entry as read at `now`; `NotFound` where no entry is active.
pub fn get_active_timer_command(store: &TimerStore, now: i64) -> (r: Result<TimerEntry, TimerError>)
    requires
        store.wf(),
        valid_timestamp(now as int),
    ensures
        r is Ok <==> has_active(store.entries@),
        match r {
            Ok(e) => exists|i: int|
                is_latest_active(store.entries@, i) && e == (#[trigger] store.entries@[i]).read_at(
                    now as int,
                ),
            Err(err) => err == TimerError::NotFound,
        },
{
    match TimerEntry::get_active_entry(store, now) {
        Some(e) => {
            proof {
                let i = choose|i: int|
                    0 <= i < store.entries@.len() && (#[trigger] store.entries@[i]).is_active()
                        && e == store.entries@[i].read_at(now as int) && forall|j: int|
                        0 <= j < store.entries@.len() && (#[trigger] store.entries@[j]).is_active()
                            ==> store.entries@[j].start_time <= store.entries@[i].start_time;
                assert(is_latest_active(store.entries@, i));
            }
            Ok(e)
        },
        None => Err(TimerError::NotFound),
    }
}

/// Sets the activity of entry `time_entry_id` at `now`, saves it and returns
/// it; `NotFound`, changing nothing, where there is no such entry.
pub fn update_time_entry_activity_command(
    store: &mut TimerStore,
    activity: String,
    time_entry_id: i64,
    now: i64,
) -> (r: Result<TimerEntry, TimerError>)
    requires
        old(store).wf(),
        valid_timestamp(now as int),
    ensures
        final(store).wf(),
        final(store).statistics@ == old(store).statistics@,
        final(store).next_statistic_id == old(store).next_statistic_id,
        final(store).next_entry_id == old(store).next_entry_id,
        old(store).at_most_one_active() ==> final(store).at_most_one_active(),
        match r {
            Ok(e) => exists|i: int|
                0 <= i < old(store).entries@.len() && (#[trigger] old(store).entries@[i]).id
                    == time_entry_id && e == (TimerEntry {
                    activity: Some(activity),
                    updated_at: now,
                    ..old(store).entries@[i].read_at(now as int)
                }) && final(store).entries@ == old(store).entries@.update(
                    i,
                    e.saved_over(old(store).entries@[i], now as int),
                ),
            Err(err) => {
                &&& err == TimerError::NotFound
                &&& *final(store) == *old(store)
                &&& forall|i: int|
                    0 <= i < old(store).entries@.len() ==> (#[trigger] old(store).entries@[i]).id
                        != time_entry_id
            },
        },
{
    match TimerEntry::find(time_entry_id, store, now) {
        Some(t) => {
            let ghost t0 = *store;
            let ghost i = choose|i: int|
                0 <= i < t0.entries@.len() && (#[trigger] t0.entries@[i]).id == time_entry_id
                    && t == t0.entries@[i].read_at(now as int);
            let mut t = t;
            let res = t.set_activity(activity, store, now);
            proof {
                assert(t0.entries@[i].valid());
                let k = choose|k: int|
                    0 <= k < t0.entries@.len() && (#[trigger] t0.entries@[k]).id == time_entry_id
                        && store.entries@ == t0.entries@.update(
                        k,
                        t.saved_over(t0.entries@[k], now as int),
                    );
                if k < i {
                    assert(t0.entries@[k].id < t0.entries@[i].id);
                } else if i < k {
                    assert(t0.entries@[i].id < t0.entries@[k].id);
                }
                lemma_same_activity_keeps_single(
                    t0.entries@,
                    i,
                    t.saved_over(t0.entries@[i], now as int),
                );
            }
            Ok(t)
        },
        None => Err(TimerError::NotFound),
    }
}

proof fn lemma_same_activity_keeps_single(entries: Seq<TimerEntry>, i: int, e: TimerEntry)
    requires
        0 <= i < entries.len(),
        e.end_time == entries[i].end_time,
    ensures
        at_most_one_active(entries) ==> at_most_one_active(entries.update(i, e)),
{
    let s = entries.update(i, e);
    if at_most_one_active(entries) {
        assert forall|a: int, b: int|
            0 <= a < s.len() && 0 <= b < s.len() && (#[trigger] s[a]).is_active()
                && (#[trigger] s[b]).is_active() implies a == b by {
            assert(entries[a].is_active() && entries[b].is_active());
        }
    }
}

/// The completed-entry history (see `TimerEntry::get_history`).
pub fn load_timer_entries_history_command(store: &TimerStore) -> (r: Vec<TimerEntry>)
    requires
        store.wf(),
    ensures
        is_history(store.entries@, r@),
{
    TimerEntry::get_history(store)
}

/// The completed-entry history grouped by day (see
/// `TimerEntry::get_history_by_date`).
pub fn load_daily_history_command(store: &TimerStore) -> (r: Vec<DayGroup>)
    requires
        store.wf(),
    ensures
        is_history(store.entries@, flatten(r@)),
        grouped_by_day(r@),
{
    TimerEntry::get_history_by_date(store)
}

/// The statistic of the day of `now`, created where there is none.
pub fn load_daily_statistics_command(store: &mut TimerStore, now: i64) -> (r: Result<
    TimerStatistic,
    TimerError,
>)
    requires
        old(store).wf(),
        valid_timestamp(now as int),
    ensures
        final(store).wf(),
        final(store).entries@ == old(store).entries@,
        r is Ok <==> has_day(old(store).statistics@, day_of(now as int)) || old(store).next_statistic_id
            < i64::MAX,
        match r {
            Ok(s) => {
                &&& s.valid()
                &&& s.day == day_of(now as int)
                &&& counts_of(s) == counts_on(old(store).statistics@, day_of(now as int))
                &&& has_day(old(store).statistics@, day_of(now as int)) ==> {
                    &&& *final(store) == *old(store)
                    &&& old(store).statistics@.contains(s)
                }
                &&& !has_day(old(store).statistics@, day_of(now as int)) ==> {
                    &&& final(store).statistics@ == old(store).statistics@.push(s)
                    &&& final(store).next_statistic_id == old(store).next_statistic_id + 1
                    &&& s.id == old(store).next_statistic_id
                    &&& s.date_string@ == formatted_date("%Y-%m-%d"@, day_of(now as int) * 86400)
                    &&& s.created_at == now
                    &&& s.updated_at == now
                }
            },
            Err(err) => err == TimerError::Storage && *final(store) == *old(store),
        },
{
    load_statistic_for_date(store, now)
}

/// How many days before yesterday the statistics history reaches back.
pub const STATISTICS_HISTORY_DAYS: i64 = 10;

/// The statistics of the eleven days that end yesterday, latest first.
pub fn load_statistics_history_command(store: &TimerStore, now: i64) -> (r: Vec<TimerStatistic>)
    requires
        store.wf(),
        valid_timestamp(now as int),
    ensures
        forall|k: int|
            0 <= k < r@.len() ==> store.statistics@.contains(#[trigger] r@[k]) && in_history_window(
                r@[k].day as int,
                day_of(now as int),
                STATISTICS_HISTORY_DAYS as int,
            ),
        forall|k: int, l: int| 0 <= k < l < r@.len() ==> (#[trigger] r@[k]).day > (#[trigger] r@[l]).day,
        forall|i: int|
            0 <= i < store.statistics@.len() && in_history_window(
                (#[trigger] store.statistics@[i]).day as int,
                day_of(now as int),
                STATISTICS_HISTORY_DAYS as int,
            ) ==> r@.contains(store.statistics@[i]),
{
    TimerStatistic::load_statistics_history(store, now, STATISTICS_HISTORY_DAYS)
}

} // verus!
