//! Completed-entry history: the latest few completed entries, alone or
//! grouped by calendar day.

use vstd::prelude::*;

use crate::entries::TimerEntry;
use crate::store::TimerStore;
use crate::time::{day_number, day_of};

verus! {

/// How many completed entries the history holds at most.
pub const HISTORY_LIMIT: usize = 5;

/// `a` comes before `b` in the history: it started later, or at the same
/// second with a higher identifier.
pub open spec fn ranks_above(a: TimerEntry, b: TimerEntry) -> bool {
    a.start_time > b.start_time || (a.start_time == b.start_time && a.id > b.id)
}

/// `h` is the history of `entries`: at most `HISTORY_LIMIT` completed
/// entries of `entries`, latest first, and no completed entry left out that
/// ranks above the last one taken.
pub open spec fn is_history(entries: Seq<TimerEntry>, h: Seq<TimerEntry>) -> bool {
    &&& h.len() <= HISTORY_LIMIT
    &&& forall|k: int| 0 <= k < h.len() ==> !(#[trigger] h[k]).is_active() && entries.contains(h[k])
    &&& forall|k: int, l: int| 0 <= k < l < h.len() ==> ranks_above(#[trigger] h[k], #[trigger] h[l])
    &&& forall|i: int|
        0 <= i < entries.len() && !(#[trigger] entries[i]).is_active() && !h.contains(entries[i])
            ==> h.len() == HISTORY_LIMIT && ranks_above(h[h.len() - 1], entries[i])
}

/// The entries of one calendar day.
pub struct DayGroup {
    /// Days since 1970-01-01.
    pub day: i64,
    pub entries: Vec<TimerEntry>,
}

/// The entries of `groups`, group after group.
pub open spec fn flatten(groups: Seq<DayGroup>) -> Seq<TimerEntry>
    decreases groups.len(),
{
    if groups.len() == 0 {
        Seq::empty()
    } else {
        flatten(groups.drop_last()) + groups.last().entries@
    }
}

/// Each group is non-empty and holds entries that started on its day; the
/// days fall from group to group.
pub open spec fn grouped_by_day(groups: Seq<DayGroup>) -> bool {
    &&& forall|g: int| 0 <= g < groups.len() ==> (#[trigger] groups[g]).entries@.len() > 0
    &&& forall|g: int, k: int|
        0 <= g < groups.len() && 0 <= k < groups[g].entries@.len() ==> day_of(
            (#[trigger] groups[g].entries@[k]).start_time as int,
        ) == groups[g].day
    &&& forall|g: int, h: int|
        0 <= g < h < groups.len() ==> (#[trigger] groups[g]).day > (#[trigger] groups[h]).day
}

impl TimerEntry {
    /// The latest completed entries, at most `HISTORY_LIMIT`, latest first.
    pub fn get_history(store: &TimerStore) -> (r: Vec<TimerEntry>)
        requires
            store.wf(),
        ensures
            is_history(store.entries@, r@),
    {
        let ghost es = store.entries@;
        let mut result: Vec<TimerEntry> = Vec::new();
        let mut done = false;
        while result.len() < HISTORY_LIMIT && !done
            invariant
                es == store.entries@,
                store.wf(),
                result@.len() <= HISTORY_LIMIT,
                forall|k: int|
                    0 <= k < result@.len() ==> !(#[trigger] result@[k]).is_active() && es.contains(
                        result@[k],
                    ),
                forall|k: int, l: int|
                    0 <= k < l < result@.len() ==> ranks_above(
                        #[trigger] result@[k],
                        #[trigger] result@[l],
                    ),
                forall|i: int|
                    0 <= i < es.len() && !(#[trigger] es[i]).is_active() && !result@.contains(es[i])
                        ==> !done && (result@.len() == 0 || ranks_above(
                        result@[result@.len() - 1],
                        es[i],
                    )),
            decreases HISTORY_LIMIT - result@.len() + if done {
                0int
            } else {
                1int
            },
        {
            let n = result.len();
            let mut best: Option<usize> = None;
            let mut k: usize = 0;
            while k < store.entries.len()
                invariant
                    es == store.entries@,
                    n == result@.len(),
                    k <= es.len(),
                    match best {
                        Some(b) => {
                            &&& b < k
                            &&& !es[b as int].is_active()
                            &&& (n > 0 ==> ranks_above(result@[n - 1], es[b as int]))
                            &&& forall|j: int|
                                0 <= j < k && !(#[trigger] es[j]).is_active() && (n > 0
                                    ==> ranks_above(result@[n - 1], es[j])) ==> !ranks_above(
                                    es[j],
                                    es[b as int],
                                )
                        },
                        None => forall|j: int|
                            0 <= j < k && !(#[trigger] es[j]).is_active() ==> (n > 0 && !ranks_above(
                                result@[n - 1],
                                es[j],
                            )),
                    },
                decreases es.len() - k,
            {
                let e = &store.entries[k];
                if e.end_time.is_some() {
                    let below = if n == 0 {
                        true
                    } else {
                        let last = &result[n - 1];
                        e.start_time < last.start_time || (e.start_time == last.start_time && e.id
                            < last.id)
                    };
                    if below {
                        match best {
                            Some(b) => {
                                let c = &store.entries[b];
                                if e.start_time > c.start_time || (e.start_time == c.start_time
                                    && e.id > c.id) {
                                    best = Some(k);
                                }
                            },
                            None => {
                                best = Some(k);
                            },
                        }
                    }
                }
                k = k + 1;
            }
            match best {
                None => {
                    done = true;
                    proof {
                        assert forall|i: int|
                            0 <= i < es.len() && !(#[trigger] es[i]).is_active() implies result@.contains(
                            es[i],
                        ) by {
                            if !result@.contains(es[i]) {
                                assert(n > 0 && !ranks_above(result@[n - 1], es[i]));
                            }
                        }
                    }
                },
                Some(b) => {
                    let ghost old_result = result@;
                    let picked = store.entries[b].copy();
                    result.push(picked);
                    proof {
                        assert(result@[n as int] == es[b as int]);
                        assert(es.contains(es[b as int]));
                        assert forall|k: int, l: int|
                            0 <= k < l < result@.len() implies ranks_above(
                            #[trigger] result@[k],
                            #[trigger] result@[l],
                        ) by {
                            if l == n {
                                if k < n - 1 {
                                    assert(ranks_above(old_result[k], old_result[n - 1]));
                                }
                            } else {
                                assert(ranks_above(old_result[k], old_result[l]));
                            }
                        }
                        assert forall|i: int|
                            0 <= i < es.len() && !(#[trigger] es[i]).is_active() && !result@.contains(
                                es[i],
                            ) implies !done && (result@.len() == 0 || ranks_above(
                            result@[result@.len() - 1],
                            es[i],
                        )) by {
                            if !old_result.contains(es[i]) {
                                assert(ranks_above(old_result[n - 1], es[i]) || n == 0);
                            } else {
                                let w = choose|w: int| 0 <= w < old_result.len() && old_result[w] == es[i];
                                assert(result@[w] == es[i]);
                            }
                            if !ranks_above(es[b as int], es[i]) {
                                assert(!ranks_above(es[i], es[b as int]));
                                if i < b {
                                    assert(es[i].id < es[b as int].id);
                                } else if b < i {
                                    assert(es[b as int].id < es[i].id);
                                }
                                assert(result@[n as int] == es[i]);
                            }
                        }
                        assert forall|k: int|
                            0 <= k < result@.len() implies !(#[trigger] result@[k]).is_active()
                            && es.contains(result@[k]) by {
                            if k < n {
                                assert(result@[k] == old_result[k]);
                            }
                        }
                    }
                },
            }
        }
        proof {
            assert forall|i: int|
                0 <= i < es.len() && !(#[trigger] es[i]).is_active() && !result@.contains(es[i])
                    implies result@.len() == HISTORY_LIMIT && ranks_above(
                result@[result@.len() - 1],
                es[i],
            ) by {
                assert(ranks_above(result@[result@.len() - 1], es[i]));
            }
        }
        result
    }
    /// The history of `get_history`, split into runs of entries that
    /// started on the same UTC calendar day.
    pub fn get_history_by_date(store: &TimerStore) -> (r: Vec<DayGroup>)
        requires
            store.wf(),
        ensures
            is_history(store.entries@, flatten(r@)),
            grouped_by_day(r@),
    {
        let h = TimerEntry::get_history(store);
        proof {
            assert forall|k: int| 0 <= k < h@.len() implies (#[trigger] h@[k]).valid() by {
                let i = choose|i: int| 0 <= i < store.entries@.len() && store.entries@[i] == h@[k];
            }
        }
        let mut groups: Vec<DayGroup> = Vec::new();
        let mut k: usize = 0;
        while k < h.len()
            invariant
                k <= h@.len(),
                forall|j: int| 0 <= j < h@.len() ==> (#[trigger] h@[j]).valid(),
                forall|a: int, b: int| 0 <= a < b < h@.len() ==> ranks_above(#[trigger] h@[a], #[trigger] h@[b]),
                flatten(groups@) == h@.subrange(0, k as int),
                grouped_by_day(groups@),
                k > 0 ==> groups@.len() > 0 && groups@.last().day == day_of(h@[k - 1].start_time as int),
                k == 0 ==> groups@.len() == 0,
            decreases h@.len() - k,
        {
            let e = h[k].copy();
            let d = day_number(e.start_time);
            let ghost gs = groups@;
            if k > 0 {
                proof {
                    assert(ranks_above(h@[k - 1], h@[k as int]));
                    vstd::arithmetic::div_mod::lemma_div_is_ordered(
                        e.start_time as int,
                        h@[k - 1].start_time as int,
                        86400,
                    );
                }
            }
            let same = groups.len() > 0 && groups[groups.len() - 1].day == d;
            if same {
                let mut g = groups.pop().unwrap();
                let ghost g0 = g;
                g.entries.push(e);
                groups.push(g);
                proof {
                    assert(gs.drop_last() == groups@.drop_last());
                    assert(groups@.last() == g);
                    assert(flatten(gs) == flatten(gs.drop_last()) + g0.entries@);
                    assert(flatten(groups@) == flatten(gs.drop_last()) + g.entries@);
                    assert(g.entries@ == g0.entries@.push(h@[k as int]));
                    assert((flatten(gs.drop_last()) + g0.entries@).push(h@[k as int])
                        =~= flatten(gs.drop_last()) + g0.entries@.push(h@[k as int]));
                    assert(h@.subrange(0, k + 1) =~= h@.subrange(0, k as int).push(h@[k as int]));
                    assert forall|a: int| 0 <= a < groups@.len() implies (#[trigger] groups@[a]).entries@.len() > 0 by {
                        if a < gs.len() - 1 {
                            assert(groups@[a] == gs[a]);
                        }
                    }
                    assert forall|a: int, j: int|
                        0 <= a < groups@.len() && 0 <= j < groups@[a].entries@.len() implies day_of(
                        (#[trigger] groups@[a].entries@[j]).start_time as int,
                    ) == groups@[a].day by {
                        if a < gs.len() - 1 {
                            assert(groups@[a] == gs[a]);
                        } else if j < g0.entries@.len() {
                            assert(g.entries@[j] == g0.entries@[j]);
                            assert(gs[a] == g0);
                        }
                    }
                    assert forall|a: int, b: int|
                        0 <= a < b < groups@.len() implies (#[trigger] groups@[a]).day > (#[trigger] groups@[b]).day by {
                        assert(gs[a].day > gs[b].day);
                    }
                }
            } else {
                let mut v: Vec<TimerEntry> = Vec::new();
                v.push(e);
                let g = DayGroup { day: d, entries: v };
                groups.push(g);
                proof {
                    assert(groups@.drop_last() == gs);
                    assert(h@.subrange(0, k + 1) =~= h@.subrange(0, k as int) + g.entries@);
                    assert forall|a: int| 0 <= a < groups@.len() implies (#[trigger] groups@[a]).entries@.len() > 0 by {
                        if a < gs.len() {
                            assert(groups@[a] == gs[a]);
                        }
                    }
                    assert forall|a: int, j: int|
                        0 <= a < groups@.len() && 0 <= j < groups@[a].entries@.len() implies day_of(
                        (#[trigger] groups@[a].entries@[j]).start_time as int,
                    ) == groups@[a].day by {
                        if a < gs.len() {
                            assert(groups@[a] == gs[a]);
                        }
                    }
                    assert forall|a: int, b: int|
                        0 <= a < b < groups@.len() implies (#[trigger] groups@[a]).day > (#[trigger] groups@[b]).day by {
                        if b < gs.len() {
                            assert(gs[a].day > gs[b].day);
                        } else if a < gs.len() - 1 {
                            assert(gs[a].day > gs[gs.len() - 1].day);
                        }
                    }
                }
            }
            k = k + 1;
        }
        assert(h@.subrange(0, h@.len() as int) =~= h@);
        groups
    }
}

} // verus!