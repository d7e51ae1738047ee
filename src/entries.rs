//! Timer entries: one tracked work or focus session each.

use vstd::prelude::*;

use crate::store::{has_active, TimerError, TimerStore};
use crate::time::{valid_timestamp, MAX_TIMESTAMP, MIN_TIMESTAMP};

verus! {

/// One tracked session. It is active while `end_time` is `None`.
#[derive(Debug, Clone)]
pub struct TimerEntry {
    pub id: i64,
    pub activity: Option<String>,
    pub area: Option<String>,
    pub start_time: i64,
    pub end_time: Option<i64>,
    /// Seconds: fixed at `end_time - start_time` once the entry has ended;
    /// while it is active, the seconds elapsed up to the read.
    pub duration: i64,
    pub is_pomodoro: bool,
    pub created_at: i64,
    pub updated_at: i64,
}

pub(crate) fn copy_text(t: &Option<String>) -> (r: Option<String>)
    ensures
        r == *t,
{
    match t {
        Some(s) => Some(s.clone()),
        None => None,
    }
}

impl TimerEntry {
    pub open spec fn is_active(&self) -> bool {
        self.end_time is None
    }

    /// The identifier is positive and the timestamps lie in range.
    pub open spec fn valid(&self) -> bool {
        &&& self.id >= 1
        &&& valid_timestamp(self.start_time as int)
        &&& valid_timestamp(self.created_at as int)
        &&& valid_timestamp(self.updated_at as int)
        &&& match self.end_time {
            Some(e) => valid_timestamp(e as int),
            None => true,
        }
    }

    /// The entry as a read at second `now` shows it: an active entry's
    /// duration is the time elapsed since its start.
    pub open spec fn read_at(self, now: int) -> TimerEntry {
        if self.is_active() {
            TimerEntry { duration: (now - self.start_time) as i64, ..self }
        } else {
            self
        }
    }

    /// The row that saving `self` at second `now` leaves in place of `stored`:
    /// the area and creation time stay, an ended entry's duration is
    /// recomputed, and the update time is `now`.
    pub open spec fn saved_over(self, stored: TimerEntry, now: int) -> TimerEntry {
        TimerEntry {
            id: stored.id,
            activity: self.activity,
            area: stored.area,
            start_time: self.start_time,
            end_time: self.end_time,
            duration: match self.end_time {
                Some(e) => (e - self.start_time) as i64,
                None => self.duration,
            },
            is_pomodoro: self.is_pomodoro,
            created_at: stored.created_at,
            updated_at: now as i64,
        }
    }

    /// What `save` needs of `self`: timestamps in range.
    pub open spec fn savable(&self) -> bool {
        &&& valid_timestamp(self.start_time as int)
        &&& match self.end_time {
            Some(e) => valid_timestamp(e as int),
            None => true,
        }
    }

    pub fn is_valid(&self) -> (r: bool)
        ensures
            r == self.valid(),
    {
        let in_range = |t: i64| -> (b: bool)
            ensures
                b == valid_timestamp(t as int),
            { MIN_TIMESTAMP <= t && t <= MAX_TIMESTAMP };
        self.id >= 1 && in_range(self.start_time) && in_range(self.created_at) && in_range(
            self.updated_at,
        ) && match self.end_time {
            Some(e) => in_range(e),
            None => true,
        }
    }

    pub fn copy(&self) -> (r: TimerEntry)
        ensures
            r == *self,
    {
        TimerEntry {
            id: self.id,
            activity: copy_text(&self.activity),
            area: copy_text(&self.area),
            start_time: self.start_time,
            end_time: self.end_time,
            duration: self.duration,
            is_pomodoro: self.is_pomodoro,
            created_at: self.created_at,
            updated_at: self.updated_at,
        }
    }

    /// The entry as read at second `now`.
    pub fn read(&self, now: i64) -> (r: TimerEntry)
        requires
            valid_timestamp(now as int),
            valid_timestamp(self.start_time as int),
        ensures
            r == self.read_at(now as int),
    {
        let mut r = self.copy();
        if self.end_time.is_none() {
            r.duration = now - self.start_time;
        }
        r
    }

    /// A new, not yet stored entry that starts at `start_time`.
    pub fn new(start_time: i64, is_pomodoro: bool) -> (r: TimerEntry)
        ensures
            r == (TimerEntry {
                id: 0,
                activity: None,
                area: None,
                start_time,
                end_time: None,
                duration: 0,
                is_pomodoro,
                created_at: start_time,
                updated_at: start_time,
            }),
    {
        TimerEntry {
            id: 0,
            activity: None,
            area: None,
            start_time,
            end_time: None,
            duration: 0,
            is_pomodoro,
            created_at: start_time,
            updated_at: start_time,
        }
    }

    /// Stores a new active entry that starts at `start_time`, under the next
    /// identifier; fails with `Storage` once identifiers are used up.
    pub fn create(
        activity: Option<String>,
        area: Option<String>,
        store: &mut TimerStore,
        start_time: i64,
        is_pomodoro: bool,
    ) -> (r: Result<TimerEntry, TimerError>)
        requires
            old(store).wf(),
            valid_timestamp(start_time as int),
        ensures
            final(store).wf(),
            final(store).statistics@ == old(store).statistics@,
            final(store).next_statistic_id == old(store).next_statistic_id,
            r is Ok <==> old(store).next_entry_id < i64::MAX,
            match r {
                Ok(e) => {
                    &&& e == (TimerEntry {
                        id: old(store).next_entry_id,
                        activity,
                        area,
                        start_time,
                        end_time: None,
                        duration: 0,
                        is_pomodoro,
                        created_at: start_time,
                        updated_at: start_time,
                    })
                    &&& final(store).entries@ == old(store).entries@.push(e)
                    &&& final(store).next_entry_id == old(store).next_entry_id + 1
                },
                Err(err) => err == TimerError::Storage && *final(store) == *old(store),
            },
    {
        if store.next_entry_id == i64::MAX {
            return Err(TimerError::Storage);
        }
        let mut entry = TimerEntry::new(start_time, is_pomodoro);
        entry.id = store.next_entry_id;
        entry.activity = activity;
        entry.area = area;
        let stored = entry.copy();
        store.entries.push(stored);
        store.next_entry_id = store.next_entry_id + 1;
        Ok(entry)
    }

    /// The entry with identifier `id`, as read at second `now`.
    pub fn find(id: i64, store: &TimerStore, now: i64) -> (r: Option<TimerEntry>)
        requires
            store.wf(),
            valid_timestamp(now as int),
        ensures
            match r {
                Some(e) => exists|i: int|
                    0 <= i < store.entries@.len() && (#[trigger] store.entries@[i]).id == id
                        && e == store.entries@[i].read_at(now as int),
                None => forall|i: int|
                    0 <= i < store.entries@.len() ==> (#[trigger] store.entries@[i]).id != id,
            },
    {
        match store.entry_index(id) {
            Some(i) => Some(store.entries[i].read(now)),
            None => None,
        }
    }

    /// The active entry, as read at second `now`; the one that started last
    /// where several are active.
    pub fn get_active_entry(store: &TimerStore, now: i64) -> (r: Option<TimerEntry>)
        requires
            store.wf(),
            valid_timestamp(now as int),
        ensures
            r is None <==> !has_active(store.entries@),
            match r {
                Some(e) => exists|i: int|
                    0 <= i < store.entries@.len() && (#[trigger] store.entries@[i]).is_active()
                        && e == store.entries@[i].read_at(now as int) && forall|j: int|
                        0 <= j < store.entries@.len() && (#[trigger] store.entries@[j]).is_active()
                            ==> store.entries@[j].start_time <= store.entries@[i].start_time,
                None => true,
            },
    {
        match store.active_index() {
            Some(i) => Some(store.entries[i].read(now)),
            None => None,
        }
    }

    /// Writes `self` over the stored entry with the same identifier, at
    /// second `now`; fails with `NotFound` where there is none.
    pub fn save(&self, store: &mut TimerStore, now: i64) -> (r: Result<(), TimerError>)
        requires
            old(store).wf(),
            self.savable(),
            valid_timestamp(now as int),
        ensures
            final(store).wf(),
            final(store).statistics@ == old(store).statistics@,
            final(store).next_statistic_id == old(store).next_statistic_id,
            final(store).next_entry_id == old(store).next_entry_id,
            match r {
                Ok(()) => exists|i: int|
                    0 <= i < old(store).entries@.len() && (#[trigger] old(store).entries@[i]).id
                        == self.id && final(store).entries@ == old(store).entries@.update(
                        i,
                        self.saved_over(old(store).entries@[i], now as int),
                    ),
                Err(err) => {
                    &&& err == TimerError::NotFound
                    &&& *final(store) == *old(store)
                    &&& forall|i: int|
                        0 <= i < old(store).entries@.len() ==> (#[trigger] old(store).entries@[i]).id
                            != self.id
                },
            },
    {
        match store.entry_index(self.id) {
            Some(i) => {
                let stored = &store.entries[i];
                let saved = TimerEntry {
                    id: stored.id,
                    activity: copy_text(&self.activity),
                    area: copy_text(&stored.area),
                    start_time: self.start_time,
                    end_time: self.end_time,
                    duration: match self.end_time {
                        Some(e) => e - self.start_time,
                        None => self.duration,
                    },
                    is_pomodoro: self.is_pomodoro,
                    created_at: stored.created_at,
                    updated_at: now,
                };
                store.entries.set(i, saved);
                Ok(())
            },
            None => Err(TimerError::NotFound),
        }
    }

    /// Ends the entry at second `now` and saves it.
    pub fn end(&mut self, store: &mut TimerStore, now: i64) -> (r: Result<(), TimerError>)
        requires
            old(store).wf(),
            valid_timestamp(old(self).start_time as int),
            valid_timestamp(now as int),
        ensures
            *final(self) == (TimerEntry {
                end_time: Some(now),
                duration: (now - old(self).start_time) as i64,
                updated_at: now,
                ..*old(self)
            }),
            final(store).wf(),
            final(store).statistics@ == old(store).statistics@,
            final(store).next_statistic_id == old(store).next_statistic_id,
            final(store).next_entry_id == old(store).next_entry_id,
            match r {
                Ok(()) => exists|i: int|
                    0 <= i < old(store).entries@.len() && (#[trigger] old(store).entries@[i]).id
                        == old(self).id && final(store).entries@ == old(store).entries@.update(
                        i,
                        final(self).saved_over(old(store).entries@[i], now as int),
                    ),
                Err(err) => {
                    &&& err == TimerError::NotFound
                    &&& *final(store) == *old(store)
                    &&& forall|i: int|
                        0 <= i < old(store).entries@.len() ==> (#[trigger] old(store).entries@[i]).id
                            != old(self).id
                },
            },
    {
        self.end_time = Some(now);
        self.duration = now - self.start_time;
        self.updated_at = now;
        self.save(store, now)
    }

    /// Sets the activity label and saves the entry at second `now`.
    pub fn set_activity(&mut self, activity: String, store: &mut TimerStore, now: i64) -> (r: Result<
        (),
        TimerError,
    >)
        requires
            old(store).wf(),
            old(self).savable(),
            valid_timestamp(now as int),
        ensures
            *final(self) == (TimerEntry { activity: Some(activity), updated_at: now, ..*old(self) }),
            final(store).wf(),
            final(store).statistics@ == old(store).statistics@,
            final(store).next_statistic_id == old(store).next_statistic_id,
            final(store).next_entry_id == old(store).next_entry_id,
            match r {
                Ok(()) => exists|i: int|
                    0 <= i < old(store).entries@.len() && (#[trigger] old(store).entries@[i]).id
                        == old(self).id && final(store).entries@ == old(store).entries@.update(
                        i,
                        final(self).saved_over(old(store).entries@[i], now as int),
                    ),
                Err(err) => {
                    &&& err == TimerError::NotFound
                    &&& *final(store) == *old(store)
                    &&& forall|i: int|
                        0 <= i < old(store).entries@.len() ==> (#[trigger] old(store).entries@[i]).id
                            != old(self).id
                },
            },
    {
        self.activity = Some(activity);
        self.updated_at = now;
        self.save(store, now)
    }
}

} // verus!
