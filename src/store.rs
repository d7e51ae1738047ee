//! The store that owns every timer entry and daily statistic.

use vstd::prelude::*;

use crate::entries::TimerEntry;
use crate::statistics::{has_day, TimerStatistic};

verus! {

/// Why an operation on the store did not complete.
#[derive(Debug, Clone, Copy, PartialEq, Eq, Structural)]
pub enum TimerError {
    /// The store could not take the write (its identifiers are used up).
    Storage,
    /// No record has the identifier asked for.
    NotFound,
    /// Starting a timer while another one is active.
    InvariantViolation,
    /// A counter is already at its largest value.
    CounterOverflow,
    /// A persisted row holds a value that does not decode.
    Decode,
}

/// Every timer entry and daily statistic, in the order of their identifiers.
pub struct TimerStore {
    pub entries: Vec<TimerEntry>,
    pub statistics: Vec<TimerStatistic>,
    /// The identifier the next created entry receives.
    pub next_entry_id: i64,
    /// The identifier the next created statistic receives.
    pub next_statistic_id: i64,
}

impl TimerStore {
    pub open spec fn entries_wf(&self) -> bool {
        &&& 1 <= self.next_entry_id
        &&& forall|i: int|
            0 <= i < self.entries@.len() ==> {
                &&& (#[trigger] self.entries@[i]).valid()
                &&& self.entries@[i].id < self.next_entry_id
            }
        &&& forall|i: int, j: int|
            0 <= i < j < self.entries@.len() ==> (#[trigger] self.entries@[i]).id
                < (#[trigger] self.entries@[j]).id
    }

    pub open spec fn statistics_wf(&self) -> bool {
        &&& 1 <= self.next_statistic_id
        &&& forall|i: int|
            0 <= i < self.statistics@.len() ==> {
                &&& (#[trigger] self.statistics@[i]).valid()
                &&& self.statistics@[i].id < self.next_statistic_id
            }
        &&& forall|i: int, j: int|
            0 <= i < j < self.statistics@.len() ==> {
                &&& (#[trigger] self.statistics@[i]).id < (#[trigger] self.statistics@[j]).id
                &&& self.statistics@[i].day != self.statistics@[j].day
            }
    }

    /// Identifiers are positive, increasing and below the next one to hand
    /// out; every record is valid; no two statistics share a day.
    pub open spec fn wf(&self) -> bool {
        &&& self.entries_wf()
        &&& self.statistics_wf()
    }

    /// At most one entry is active (has no end time).
    pub open spec fn at_most_one_active(&self) -> bool {
        at_most_one_active(self.entries@)
    }

    /// An empty store.
    pub fn new() -> (r: TimerStore)
        ensures
            r.wf(),
            r.at_most_one_active(),
            r.entries@.len() == 0,
            r.statistics@.len() == 0,
            r.next_entry_id == 1,
            r.next_statistic_id == 1,
    {
        TimerStore {
            entries: Vec::new(),
            statistics: Vec::new(),
            next_entry_id: 1,
            next_statistic_id: 1,
        }
    }

    /// Appends an entry read back from persistence. Refused with `Decode`,
    /// changing nothing, where it is invalid or its identifier does not
    /// exceed every stored one.
    pub fn restore_entry(&mut self, e: TimerEntry) -> (r: Result<(), TimerError>)
        requires
            old(self).wf(),
        ensures
            final(self).wf(),
            r is Ok <==> e.valid() && e.id < i64::MAX && (old(self).entries@.len() == 0
                || old(self).entries@.last().id < e.id),
            match r {
                Ok(()) => {
                    &&& final(self).entries@ == old(self).entries@.push(e)
                    &&& final(self).statistics@ == old(self).statistics@
                    &&& final(self).next_statistic_id == old(self).next_statistic_id
                },
                Err(err) => err == TimerError::Decode && *final(self) == *old(self),
            },
    {
        let n = self.entries.len();
        let ok = e.is_valid() && e.id < i64::MAX && (n == 0 || self.entries[n - 1].id < e.id);
        if !ok {
            return Err(TimerError::Decode);
        }
        proof {
            if n > 0 {
                assert forall|i: int| 0 <= i < n implies (#[trigger] self.entries@[i]).id < e.id by {
                    if i < n - 1 {
                        assert(self.entries@[i].id < self.entries@[n - 1].id);
                    }
                }
            }
        }
        let id = e.id;
        self.entries.push(e);
        if self.next_entry_id <= id {
            self.next_entry_id = id + 1;
        }
        Ok(())
    }

    /// Appends a statistic read back from persistence. Refused with
    /// `Decode`, changing nothing, where it is invalid, its day has a row
    /// already or its identifier does not exceed every stored one.
    pub fn restore_statistic(&mut self, s: TimerStatistic) -> (r: Result<(), TimerError>)
        requires
            old(self).wf(),
        ensures
            final(self).wf(),
            r is Ok <==> s.valid() && s.id < i64::MAX && !has_day(old(self).statistics@, s.day as int)
                && (old(self).statistics@.len() == 0 || old(self).statistics@.last().id < s.id),
            match r {
                Ok(()) => {
                    &&& final(self).statistics@ == old(self).statistics@.push(s)
                    &&& final(self).entries@ == old(self).entries@
                    &&& final(self).next_entry_id == old(self).next_entry_id
                },
                Err(err) => err == TimerError::Decode && *final(self) == *old(self),
            },
    {
        let n = self.statistics.len();
        let ok = s.is_valid() && s.id < i64::MAX && self.statistic_index(s.day).is_none() && (n == 0
            || self.statistics[n - 1].id < s.id);
        if !ok {
            return Err(TimerError::Decode);
        }
        proof {
            if n > 0 {
                assert forall|i: int| 0 <= i < n implies (#[trigger] self.statistics@[i]).id < s.id by {
                    if i < n - 1 {
                        assert(self.statistics@[i].id < self.statistics@[n - 1].id);
                    }
                }
            }
            assert forall|i: int| 0 <= i < n implies (#[trigger] self.statistics@[i]).day != s.day by {
                if self.statistics@[i].day == s.day {
                    assert(has_day(self.statistics@, s.day as int));
                }
            }
        }
        let id = s.id;
        self.statistics.push(s);
        if self.next_statistic_id <= id {
            self.next_statistic_id = id + 1;
        }
        Ok(())
    }

    /// The position of the entry with identifier `id`.
    pub fn entry_index(&self, id: i64) -> (r: Option<usize>)
        requires
            self.wf(),
        ensures
            match r {
                Some(i) => i < self.entries@.len() && self.entries@[i as int].id == id,
                None => forall|i: int|
                    0 <= i < self.entries@.len() ==> (#[trigger] self.entries@[i]).id != id,
            },
    {
        let mut k: usize = 0;
        while k < self.entries.len()
            invariant
                k <= self.entries@.len(),
                forall|i: int| 0 <= i < k ==> (#[trigger] self.entries@[i]).id != id,
            decreases self.entries@.len() - k,
        {
            if self.entries[k].id == id {
                return Some(k);
            }
            k = k + 1;
        }
        None
    }

    /// The position of the statistic for `day`.
    pub fn statistic_index(&self, day: i64) -> (r: Option<usize>)
        requires
            self.wf(),
        ensures
            match r {
                Some(i) => i < self.statistics@.len() && self.statistics@[i as int].day == day,
                None => !has_day(self.statistics@, day as int),
            },
    {
        let mut k: usize = 0;
        while k < self.statistics.len()
            invariant
                k <= self.statistics@.len(),
                forall|i: int| 0 <= i < k ==> (#[trigger] self.statistics@[i]).day != day,
            decreases self.statistics@.len() - k,
        {
            if self.statistics[k].day == day {
                return Some(k);
            }
            k = k + 1;
        }
        None
    }

    /// The position of the active entry with the latest start time, the
    /// first such one where several tie.
    pub fn active_index(&self) -> (r: Option<usize>)
        requires
            self.wf(),
        ensures
            r is None <==> !has_active(self.entries@),
            match r {
                Some(i) => {
                    &&& i < self.entries@.len()
                    &&& self.entries@[i as int].is_active()
                    &&& forall|j: int|
                        0 <= j < self.entries@.len() && (#[trigger] self.entries@[j]).is_active()
                            ==> self.entries@[j].start_time <= self.entries@[i as int].start_time
                },
                None => true,
            },
    {
        let mut best: Option<usize> = None;
        let mut k: usize = 0;
        while k < self.entries.len()
            invariant
                k <= self.entries@.len(),
                match best {
                    Some(b) => {
                        &&& b < k
                        &&& self.entries@[b as int].is_active()
                        &&& forall|j: int|
                            0 <= j < k && (#[trigger] self.entries@[j]).is_active()
                                ==> self.entries@[j].start_time <= self.entries@[b as int].start_time
                    },
                    None => forall|j: int| 0 <= j < k ==> !(#[trigger] self.entries@[j]).is_active(),
                },
            decreases self.entries@.len() - k,
        {
            if self.entries[k].end_time.is_none() {
                match best {
                    Some(b) => {
                        if self.entries[k].start_time > self.entries[b].start_time {
                            best = Some(k);
                        }
                    },
                    None => {
                        best = Some(k);
                    },
                }
            }
            k = k + 1;
        }
        best
    }
}

pub open spec fn at_most_one_active(entries: Seq<TimerEntry>) -> bool {
    forall|i: int, j: int|
        0 <= i < entries.len() && 0 <= j < entries.len() && (#[trigger] entries[i]).is_active()
            && (#[trigger] entries[j]).is_active() ==> i == j
}

/// Some entry of `entries` is active.
pub open spec fn has_active(entries: Seq<TimerEntry>) -> bool {
    exists|i: int| 0 <= i < entries.len() && (#[trigger] entries[i]).is_active()
}

} // verus!
