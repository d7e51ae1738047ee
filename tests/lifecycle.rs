use timers::entries::TimerEntry;
use timers::lifecycle::{
    cancel_timer_command, finish_timer_command, get_active_timer_command,
    load_daily_history_command, load_daily_statistics_command, load_statistics_history_command,
    load_timer_entries_history_command, start_pomodoro_timer_command, start_timer_command,
    update_time_entry_activity_command,
};
use timers::notifications::Notice;
use timers::statistics::{mark_timer_started, load_statistic_for_date, TimerStatistic};
use timers::store::{TimerError, TimerStore};

// 2024-01-01T10:00:00Z
const T0: i64 = 1704103200;
const DAY: i64 = 86400;

fn stat_for(store: &TimerStore, day: i64) -> Option<(i64, i64, i64)> {
    store
        .statistics
        .iter()
        .find(|s| s.day == day)
        .map(|s| (s.timers_started, s.timers_finished, s.timers_cancelled))
}

fn active_count(store: &TimerStore) -> usize {
    store.entries.iter().filter(|e| e.end_time.is_none()).count()
}

#[test]
fn pomodoro_started_then_finished_after_25_minutes() {
    let mut store = TimerStore::new();
    assert_eq!((store.next_entry_id, store.next_statistic_id), (1, 1));
    let e = start_pomodoro_timer_command(&mut store, None, T0).unwrap();
    assert_eq!(e.id, 1);
    assert!(e.is_pomodoro);
    let n = finish_timer_command(&mut store, T0 + 1500).unwrap();
    assert_eq!(n, Some(Notice::Finished));
    let found = TimerEntry::find(e.id, &store, T0 + 4000).unwrap();
    assert_eq!(found.duration, 1500);
    assert!(found.is_pomodoro);
    assert_eq!(found.end_time, Some(T0 + 1500));
    let row = found.to_row();
    assert_eq!(row.end_time.as_deref(), Some("2024-01-01T10:25:00+00:00"));
    assert_eq!(row.start_time, "2024-01-01T10:00:00+00:00");
    let day = T0.div_euclid(DAY);
    assert_eq!(stat_for(&store, day), Some((1, 1, 0)));
    assert_eq!(store.statistics.len(), 1);
    let s = &store.statistics[0];
    assert_eq!(s.date_string, "2024-01-01");
    assert_eq!(s.updated_at, T0 + 1500);
}

#[test]
fn plain_start_then_active_entry_reads_elapsed_time() {
    let mut store = TimerStore::new();
    let e = start_timer_command(
        &mut store,
        Some("reading".to_string()),
        Some("home".to_string()),
        T0,
    )
    .unwrap();
    assert_eq!(e.activity.as_deref(), Some("reading"));
    assert_eq!(e.area.as_deref(), Some("home"));
    let a = TimerEntry::get_active_entry(&store, T0 + 42).unwrap();
    assert_eq!(a.id, e.id);
    assert_eq!(a.end_time, None);
    assert!(!a.is_pomodoro);
    assert_eq!(a.duration, 42);
    assert!(store.statistics.is_empty());
    let b = get_active_timer_command(&store, T0 + 60).unwrap();
    assert_eq!(b.duration, 60);
}

#[test]
fn pomodoro_start_raises_only_started() {
    let mut store = TimerStore::new();
    let day = T0.div_euclid(DAY);
    mark_timer_started(&mut store, T0 - 3600).unwrap();
    assert_eq!(stat_for(&store, day), Some((1, 0, 0)));
    start_pomodoro_timer_command(&mut store, Some("reading".to_string()), T0).unwrap();
    assert_eq!(stat_for(&store, day), Some((2, 0, 0)));
}

#[test]
fn finishing_plain_timer_leaves_statistics() {
    let mut store = TimerStore::new();
    let e = start_timer_command(&mut store, None, None, T0).unwrap();
    let n = finish_timer_command(&mut store, T0 + 300).unwrap();
    assert_eq!(n, None);
    assert!(store.statistics.is_empty());
    let f = TimerEntry::find(e.id, &store, T0 + 900).unwrap();
    assert_eq!(f.end_time, Some(T0 + 300));
    assert_eq!(f.duration, 300);
    assert_eq!(active_count(&store), 0);
}

#[test]
fn finishing_pomodoro_raises_finished_by_one() {
    let mut store = TimerStore::new();
    let day = T0.div_euclid(DAY);
    start_pomodoro_timer_command(&mut store, None, T0).unwrap();
    finish_timer_command(&mut store, T0 + 60).unwrap();
    assert_eq!(stat_for(&store, day), Some((1, 1, 0)));
}

#[test]
fn cancelling_pomodoro_raises_cancelled() {
    let mut store = TimerStore::new();
    let day = T0.div_euclid(DAY);
    let e = start_pomodoro_timer_command(&mut store, None, T0).unwrap();
    let n = cancel_timer_command(&mut store, T0 + 1).unwrap();
    assert_eq!(n, Some(Notice::Cancelled));
    assert_eq!(stat_for(&store, day), Some((1, 0, 1)));
    let f = TimerEntry::find(e.id, &store, T0 + 100).unwrap();
    assert_eq!(f.end_time, Some(T0 + 1));
    assert_eq!(f.duration, 1);
}

#[test]
fn cancelling_plain_timer_also_counts() {
    let mut store = TimerStore::new();
    let day = T0.div_euclid(DAY);
    start_timer_command(&mut store, None, None, T0).unwrap();
    cancel_timer_command(&mut store, T0 + 10).unwrap();
    assert_eq!(stat_for(&store, day), Some((0, 0, 1)));
}

#[test]
fn session_across_midnight_counts_on_each_day() {
    let mut store = TimerStore::new();
    let day = T0.div_euclid(DAY);
    let late = (day + 1) * DAY - 600;
    start_pomodoro_timer_command(&mut store, None, late).unwrap();
    finish_timer_command(&mut store, late + 1500).unwrap();
    assert_eq!(stat_for(&store, day), Some((1, 0, 0)));
    assert_eq!(stat_for(&store, day + 1), Some((0, 1, 0)));
}

#[test]
fn starting_while_active_is_refused() {
    let mut store = TimerStore::new();
    start_timer_command(&mut store, None, None, T0).unwrap();
    assert_eq!(
        start_timer_command(&mut store, None, None, T0 + 5).unwrap_err(),
        TimerError::InvariantViolation
    );
    assert_eq!(
        start_pomodoro_timer_command(&mut store, None, T0 + 5).unwrap_err(),
        TimerError::InvariantViolation
    );
    assert_eq!(store.entries.len(), 1);
    assert!(store.statistics.is_empty());
    assert_eq!(active_count(&store), 1);
}

#[test]
fn cancel_and_finish_without_active_do_nothing() {
    let mut store = TimerStore::new();
    assert_eq!(cancel_timer_command(&mut store, T0).unwrap(), None);
    assert_eq!(finish_timer_command(&mut store, T0).unwrap(), None);
    assert!(store.entries.is_empty());
    assert!(store.statistics.is_empty());
    assert_eq!(
        get_active_timer_command(&store, T0).unwrap_err(),
        TimerError::NotFound
    );
}

#[test]
fn many_lifecycle_calls_keep_one_active() {
    let mut store = TimerStore::new();
    let mut t = T0;
    for k in 0..30 {
        t += 37;
        match k % 5 {
            0 => {
                let _ = start_timer_command(&mut store, None, None, t);
            }
            1 => {
                let _ = start_pomodoro_timer_command(&mut store, None, t);
            }
            2 => {
                let _ = finish_timer_command(&mut store, t);
            }
            3 => {
                let _ = start_pomodoro_timer_command(&mut store, None, t);
            }
            _ => {
                let _ = cancel_timer_command(&mut store, t);
            }
        }
        assert!(active_count(&store) <= 1);
    }
}

#[test]
fn history_holds_five_latest_completed() {
    let mut store = TimerStore::new();
    for k in 0..7 {
        let s = T0 + k * 1000;
        start_timer_command(&mut store, None, None, s).unwrap();
        finish_timer_command(&mut store, s + 100).unwrap();
    }
    start_timer_command(&mut store, None, None, T0 + 9000).unwrap();
    let h = load_timer_entries_history_command(&store);
    assert_eq!(h.len(), 5);
    for e in &h {
        assert!(e.end_time.is_some());
    }
    let starts: Vec<i64> = h.iter().map(|e| e.start_time).collect();
    assert_eq!(
        starts,
        vec![T0 + 6000, T0 + 5000, T0 + 4000, T0 + 3000, T0 + 2000]
    );
}

#[test]
fn history_of_few_entries_holds_them_all() {
    let mut store = TimerStore::new();
    assert!(TimerEntry::get_history(&store).is_empty());
    start_timer_command(&mut store, None, None, T0).unwrap();
    finish_timer_command(&mut store, T0 + 10).unwrap();
    start_timer_command(&mut store, None, None, T0 + 20).unwrap();
    let h = TimerEntry::get_history(&store);
    assert_eq!(h.len(), 1);
    assert_eq!(h[0].start_time, T0);
}

#[test]
fn history_by_date_groups_runs_of_days() {
    let mut store = TimerStore::new();
    let day = T0.div_euclid(DAY);
    for s in [T0 - DAY, T0, T0 + 100, T0 + DAY] {
        start_timer_command(&mut store, None, None, s).unwrap();
        finish_timer_command(&mut store, s + 10).unwrap();
    }
    let groups = load_daily_history_command(&store);
    let days: Vec<i64> = groups.iter().map(|g| g.day).collect();
    assert_eq!(days, vec![day + 1, day, day - 1]);
    let sizes: Vec<usize> = groups.iter().map(|g| g.entries.len()).collect();
    assert_eq!(sizes, vec![1, 2, 1]);
    assert_eq!(groups[1].entries[0].start_time, T0 + 100);
}

#[test]
fn statistics_history_excludes_today() {
    let mut store = TimerStore::new();
    let day = T0.div_euclid(DAY);
    for back in [0, 1, 5, 11, 12] {
        mark_timer_started(&mut store, T0 - back * DAY).unwrap();
    }
    let h = load_statistics_history_command(&store, T0);
    let days: Vec<i64> = h.iter().map(|s| s.day).collect();
    assert_eq!(days, vec![day - 1, day - 5, day - 11]);
    assert!(h.iter().all(|s| s.date_string != "2024-01-01"));
    assert!(TimerStatistic::load_statistics_history(&store, T0, -1).is_empty());
    assert_eq!(TimerStatistic::load_statistics_history(&store, T0, 0).len(), 1);
    assert_eq!(
        TimerStatistic::load_statistics_history(&store, T0, i64::MAX).len(),
        4
    );
}

#[test]
fn daily_statistics_are_created_on_first_read() {
    let mut store = TimerStore::new();
    let s = load_daily_statistics_command(&mut store, T0).unwrap();
    assert_eq!(s.date_string, "2024-01-01");
    assert_eq!((s.timers_started, s.timers_finished, s.timers_cancelled), (0, 0, 0));
    assert_eq!(store.statistics.len(), 1);
    assert_eq!(store.statistics[0].id, s.id);
    mark_timer_started(&mut store, T0 + 60).unwrap();
    let again = load_statistic_for_date(&mut store, T0 + 3600).unwrap();
    assert_eq!(again.id, s.id);
    assert_eq!(again.timers_started, 1);
    assert_eq!(again.updated_at, T0 + 60);
    assert_eq!(store.statistics.len(), 1);
}

#[test]
fn created_entry_ended_reads_back_exact_duration() {
    let mut store = TimerStore::new();
    let mut e = TimerEntry::create(None, None, &mut store, T0, false).unwrap();
    e.end(&mut store, T0 + 4321).unwrap();
    let f = TimerEntry::find(e.id, &store, T0 + 99999).unwrap();
    assert_eq!(f.duration, 4321);
    assert_eq!(f.end_time, Some(T0 + 4321));
    assert!(TimerEntry::find(e.id + 1, &store, T0).is_none());
}

#[test]
fn activity_update_changes_stored_entry() {
    let mut store = TimerStore::new();
    let e = start_timer_command(&mut store, None, None, T0).unwrap();
    let u = update_time_entry_activity_command(&mut store, "writing".to_string(), e.id, T0 + 5)
        .unwrap();
    assert_eq!(u.activity.as_deref(), Some("writing"));
    assert_eq!(u.updated_at, T0 + 5);
    assert_eq!(store.entries[0].activity.as_deref(), Some("writing"));
    assert_eq!(
        update_time_entry_activity_command(&mut store, "x".to_string(), 99, T0).unwrap_err(),
        TimerError::NotFound
    );
}

#[test]
fn exhausted_identifiers_fail_with_storage() {
    let mut store = TimerStore::new();
    store.next_entry_id = i64::MAX;
    assert_eq!(
        start_timer_command(&mut store, None, None, T0).unwrap_err(),
        TimerError::Storage
    );
    assert_eq!(
        start_pomodoro_timer_command(&mut store, None, T0).unwrap_err(),
        TimerError::Storage
    );
    let mut fresh = TimerStore::new();
    fresh.next_statistic_id = i64::MAX;
    assert_eq!(
        start_pomodoro_timer_command(&mut fresh, None, T0).unwrap_err(),
        TimerError::Storage
    );
    assert!(fresh.entries.is_empty());
}

#[test]
fn full_counter_fails_with_overflow_and_changes_nothing() {
    let mut store = TimerStore::new();
    mark_timer_started(&mut store, T0).unwrap();
    store.statistics[0].timers_started = i64::MAX;
    assert_eq!(
        start_pomodoro_timer_command(&mut store, None, T0).unwrap_err(),
        TimerError::CounterOverflow
    );
    assert!(store.entries.is_empty());
    store.statistics[0].timers_cancelled = i64::MAX;
    start_timer_command(&mut store, None, None, T0).unwrap();
    assert_eq!(
        cancel_timer_command(&mut store, T0 + 1).unwrap_err(),
        TimerError::CounterOverflow
    );
    assert_eq!(active_count(&store), 1);
}
