//! Properties that relate several operations, proved from their contracts.

use vstd::prelude::*;

use crate::entries::TimerEntry;
use crate::lifecycle::{is_latest_active, started_entry};
use crate::statistics::in_history_window;
use crate::store::{has_active, TimerStore};
use crate::time::valid_timestamp;

verus! {

/// Every lifecycle operation keeps at most one entry active (each one's
/// `ensures` says so of the store before and after it). So along any run of
/// them that starts from a store with at most one active entry, such as a new
/// one, every store has at most one active entry.
pub proof fn lemma_single_active_along_run(run: Seq<TimerStore>)
    requires
        run.len() > 0,
        run[0].at_most_one_active(),
        forall|k: int|
            0 <= k < run.len() - 1 ==> (#[trigger] run[k]).at_most_one_active() ==> run[k
                + 1].at_most_one_active(),
    ensures
        forall|k: int| 0 <= k < run.len() ==> (#[trigger] run[k]).at_most_one_active(),
    decreases run.len(),
{
    if run.len() > 1 {
        let prefix = run.drop_last();
        assert forall|k: int|
            0 <= k < prefix.len() - 1 && (#[trigger] prefix[k]).at_most_one_active() implies prefix[k
            + 1].at_most_one_active() by {
            assert(prefix[k] == run[k] && prefix[k + 1] == run[k + 1]);
        }
        lemma_single_active_along_run(prefix);
        assert forall|k: int| 0 <= k < run.len() implies (#[trigger] run[k]).at_most_one_active() by {
            if k < run.len() - 1 {
                assert(prefix[k] == run[k]);
            } else {
                assert(prefix[k - 1] == run[k - 1]);
            }
        }
    }
}

/// A plain timer started at `now` (in `t1`, from `t0`, as
/// `start_timer_command` leaves them on success) is what a later read of the
/// active entry finds: active, not a pomodoro, and `later - now` seconds long.
pub proof fn lemma_started_plain_is_active(
    t0: TimerStore,
    t1: TimerStore,
    activity: Option<String>,
    area: Option<String>,
    now: i64,
    later: i64,
)
    requires
        t0.wf(),
        valid_timestamp(now as int),
        valid_timestamp(later as int),
        !has_active(t0.entries@),
        t1.entries@ == t0.entries@.push(
            started_entry(t0.next_entry_id, activity, area, now, false),
        ),
    ensures
        has_active(t1.entries@),
        forall|i: int|
            #![trigger is_latest_active(t1.entries@, i)]
            is_latest_active(t1.entries@, i) ==> {
                let e = t1.entries@[i].read_at(later as int);
                &&& e.end_time is None
                &&& !e.is_pomodoro
                &&& e.duration == later - now
                &&& e.id == t0.next_entry_id
            },
{
    let n = t0.entries@.len() as int;
    assert(t1.entries@[n].is_active());
    assert forall|i: int| #![trigger is_latest_active(t1.entries@, i)] is_latest_active(t1.entries@, i) implies i == n by {
        if i < n {
            assert(t0.entries@[i].is_active());
        }
    }
}

/// An entry created, then ended at second `at`, reads back with end time
/// `at` and a duration of exactly `at` minus its start, whenever it is read.
/// `t1` is the store after `TimerEntry::create` returned `e`; `t2` the store
/// after `TimerEntry::end` turned the copy `x` of `e` into its final form.
pub proof fn lemma_create_end_find(
    t0: TimerStore,
    t1: TimerStore,
    t2: TimerStore,
    e: TimerEntry,
    x: TimerEntry,
    k: int,
    at: i64,
    now: i64,
)
    requires
        t1.entries@ == t0.entries@.push(e),
        0 <= k < t1.entries@.len(),
        t1.entries@[k].id == e.id,
        x.end_time == Some(at),
        x.start_time == e.start_time,
        t2.entries@ == t1.entries@.update(k, x.saved_over(t1.entries@[k], at as int)),
        t2.wf(),
    ensures
        forall|j: int|
            0 <= j < t2.entries@.len() && (#[trigger] t2.entries@[j]).id == e.id ==> {
                &&& t2.entries@[j].read_at(now as int).end_time == Some(at)
                &&& t2.entries@[j].read_at(now as int).duration == at - e.start_time
            },
{
    assert forall|j: int|
        0 <= j < t2.entries@.len() && (#[trigger] t2.entries@[j]).id == e.id implies j == k by {
        if j < k {
            assert(t2.entries@[j].id < t2.entries@[k].id);
        } else if k < j {
            assert(t2.entries@[k].id < t2.entries@[j].id);
        }
    }
}

/// The statistics history never holds the day it is asked on.
pub proof fn lemma_history_window_excludes_today(today: int, days: int)
    ensures
        !in_history_window(today, today, days),
{
}

} // verus!
