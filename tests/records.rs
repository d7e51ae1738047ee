use timers::configuration::{join_path, Configuration};
use timers::entries::TimerEntry;
use timers::notifications::Notice;
use timers::rows::{TimerEntryRow, TimerStatisticRow};
use timers::statistics::TimerStatistic;
use timers::store::{TimerError, TimerStore};
use timers::time::day_number;

const T0: i64 = 1704103200;

fn entry_row() -> TimerEntryRow {
    TimerEntryRow {
        id: 3,
        activity: Some("reading".to_string()),
        area: None,
        start_time: "2024-01-01T10:00:00+00:00".to_string(),
        end_time: Some("2024-01-01T10:25:00Z".to_string()),
        duration: 1500,
        is_pomodoro: true,
        created_at: "2024-01-01T10:00:00+00:00".to_string(),
        updated_at: "2024-01-01T12:25:00+02:00".to_string(),
    }
}

#[test]
fn entry_row_decodes() {
    let e = TimerEntry::from_row(&entry_row(), T0 + 9999).unwrap();
    assert_eq!(e.id, 3);
    assert_eq!(e.start_time, T0);
    assert_eq!(e.end_time, Some(T0 + 1500));
    assert_eq!(e.duration, 1500);
    assert_eq!(e.updated_at, T0 + 1500);
    assert!(e.is_pomodoro);
}

#[test]
fn ended_entry_row_keeps_its_stored_duration() {
    let mut row = entry_row();
    row.start_time = "2024-01-01T10:00:00.700+00:00".to_string();
    row.end_time = Some("2024-01-01T10:25:00.200+00:00".to_string());
    row.duration = 1499;
    let e = TimerEntry::from_row(&row, T0 + 9999).unwrap();
    assert_eq!(e.start_time, T0);
    assert_eq!(e.end_time, Some(T0 + 1500));
    assert_eq!(e.duration, 1499);
}

#[test]
fn active_entry_row_reads_elapsed_duration() {
    let mut row = entry_row();
    row.end_time = None;
    row.duration = 0;
    let e = TimerEntry::from_row(&row, T0 + 77).unwrap();
    assert_eq!(e.end_time, None);
    assert_eq!(e.duration, 77);
}

#[test]
fn bad_entry_rows_are_refused() {
    let mut row = entry_row();
    row.start_time = "yesterday".to_string();
    assert_eq!(TimerEntry::from_row(&row, T0).unwrap_err(), TimerError::Decode);
    let mut row = entry_row();
    row.end_time = Some("2024-13-01T00:00:00Z".to_string());
    assert_eq!(TimerEntry::from_row(&row, T0).unwrap_err(), TimerError::Decode);
    let mut row = entry_row();
    row.id = 0;
    assert_eq!(TimerEntry::from_row(&row, T0).unwrap_err(), TimerError::Decode);
}

#[test]
fn entry_round_trips_through_its_row() {
    let mut store = TimerStore::new();
    let mut e = TimerEntry::create(Some("a".to_string()), Some("b".to_string()), &mut store, T0, true)
        .unwrap();
    e.end(&mut store, T0 + 61).unwrap();
    let stored = store.entries[0].clone();
    let row = stored.to_row();
    assert_eq!(row.start_time, "2024-01-01T10:00:00+00:00");
    let back = TimerEntry::from_row(&row, T0 + 5000).unwrap();
    assert_eq!(back.id, stored.id);
    assert_eq!(back.activity, stored.activity);
    assert_eq!(back.area, stored.area);
    assert_eq!(back.start_time, stored.start_time);
    assert_eq!(back.end_time, stored.end_time);
    assert_eq!(back.duration, 61);
    assert_eq!(back.created_at, stored.created_at);
    assert_eq!(back.updated_at, stored.updated_at);
}

#[test]
fn statistic_row_round_trips() {
    let row = TimerStatisticRow {
        id: 2,
        date_string: "2024-01-01".to_string(),
        timers_started: 4,
        timers_finished: 3,
        timers_cancelled: 1,
        created_at: "2024-01-01T08:00:00+00:00".to_string(),
        updated_at: "2024-01-01T09:00:00+00:00".to_string(),
    };
    let s = TimerStatistic::from_row(&row).unwrap();
    assert_eq!(s.day, 19723);
    assert_eq!(s.timers_started, 4);
    assert_eq!(s.created_at, T0 - 7200);
    let back = s.to_row();
    assert_eq!(back.date_string, "2024-01-01");
    assert_eq!(back.updated_at, "2024-01-01T09:00:00+00:00");
    let mut bad = row.clone();
    bad.date_string = "01/01/2024".to_string();
    assert_eq!(TimerStatistic::from_row(&bad).unwrap_err(), TimerError::Decode);
    let mut bad = row;
    bad.timers_finished = -1;
    assert_eq!(TimerStatistic::from_row(&bad).unwrap_err(), TimerError::Decode);
}

#[test]
fn restored_rows_keep_identifier_order() {
    let mut store = TimerStore::new();
    let e = TimerEntry::from_row(&entry_row(), T0 + 9999).unwrap();
    store.restore_entry(e.clone()).unwrap();
    assert_eq!(store.next_entry_id, 4);
    assert_eq!(store.restore_entry(e).unwrap_err(), TimerError::Decode);
    let s = TimerStatistic::new(19723, T0);
    assert_eq!(s.date_string, "2024-01-01");
    let mut s1 = s.clone();
    s1.id = 1;
    store.restore_statistic(s1).unwrap();
    let mut s2 = s;
    s2.id = 2;
    assert_eq!(store.restore_statistic(s2).unwrap_err(), TimerError::Decode);
    assert_eq!(store.next_statistic_id, 2);
}

#[test]
fn statistic_create_refuses_existing_day() {
    let mut store = TimerStore::new();
    let s = TimerStatistic::create(&mut store, 19723, T0).unwrap();
    assert_eq!(s.id, 1);
    assert_eq!(
        TimerStatistic::create(&mut store, 19723, T0).unwrap_err(),
        TimerError::Storage
    );
    let mut s = TimerStatistic::find_or_create(&mut store, 19723, T0).unwrap();
    s.increment_timers_finished(&mut store, T0 + 1).unwrap();
    s.increment_timers_cancelled(&mut store, T0 + 2).unwrap();
    s.increment_timers_started(&mut store, T0 + 3).unwrap();
    let st = &store.statistics[0];
    assert_eq!((st.timers_started, st.timers_finished, st.timers_cancelled), (1, 1, 1));
    assert_eq!(st.updated_at, T0 + 3);
}

#[test]
fn day_numbers_floor_before_the_epoch() {
    assert_eq!(day_number(0), 0);
    assert_eq!(day_number(-1), -1);
    assert_eq!(day_number(-86400), -1);
    assert_eq!(day_number(-86401), -2);
    assert_eq!(day_number(T0), 19723);
}

#[test]
fn development_configuration() {
    let c = Configuration::init_development_config();
    assert!(c.development_mode);
    assert_eq!(c.version, "0.1.0-dev");
    assert_eq!(c.config_path, "./config.toml");
    assert_eq!(c.db_path, "./file.db");
    let d = Configuration::load(true, "/home/u");
    assert_eq!(d.db_path, "./file.db");
}

#[test]
fn release_configuration_lives_under_home() {
    let c = Configuration::load(false, "/home/u");
    assert!(!c.development_mode);
    assert_eq!(c.version, "0.1.0");
    assert_eq!(c.config_path, "/home/u/.config/.timers/config.toml");
    assert_eq!(c.db_path, "/home/u/.config/.timers/db.sqlite");
    assert_eq!(join_path("/home/u/", "x"), "/home/u/x");
    assert_eq!(join_path("", "x"), "x");
}

#[test]
fn notices_have_titles_and_bodies() {
    assert_eq!(Notice::Started.summary(), "H.Q.! Timer Started");
    assert_eq!(Notice::Finished.body(), "Your timer has finished.");
    assert_eq!(Notice::Cancelled.summary(), "H.Q.! Timer Cancelled");
    assert_eq!(Notice::Cancelled.body(), "Your timer has been cancelled.");
}
