//! Time windows: records of sources that run on their own clocks are put
//! side by side by the period of the session in which they start.

use vstd::prelude::*;
use crate::grouping::{group, groups, keys_of, lemma_keys_cover, lemma_keys_distinct, lemma_push};
use crate::record::{all_wf, Record};

verus! {
/// The records that start in one time window of a session.
#[derive(Clone, Debug, PartialEq, Eq)]
pub struct Window {
    pub index: u64,
    pub records: Vec<Record>,
}

/// The window in which a record that starts at `start` falls: the time
/// since the start of the session, in periods. What starts before the
/// session falls in window 0.
pub open spec fn spec_window_index(start: u64, session_start: u64, period: u64) -> u64 {
    if start >= session_start && period > 0 {
        ((start - session_start) / (period as int)) as u64
    } else {
        0
    }
}

/// The window in which a record that starts at `start` falls.
pub fn window_index(start: u64, session_start: u64, period: u64) -> (index: u64)
    requires
        period > 0,
    ensures
        index == spec_window_index(start, session_start, period),
{
    if start >= session_start {
        (start - session_start) / period
    } else {
        0
    }
}

/// The key by which records are put into windows.
pub open spec fn window_key(session_start: u64, period: u64) -> spec_fn(Record) -> u64 {
    |r: Record| spec_window_index(r.spec_start(), session_start, period)
}

/// `windows` is `records` put into time windows: one window for each
/// index that occurs, in the order of first occurrence, each holding the
/// records that start in it, in the order in which they stand.
pub open spec fn windowed(
    windows: Seq<Window>,
    records: Seq<Record>,
    session_start: u64,
    period: u64,
) -> bool {
    let key = window_key(session_start, period);
    &&& windows.len() == keys_of(records, key).len()
    &&& forall|i: int|
        0 <= i < windows.len() ==> (#[trigger] windows[i]).index == keys_of(records, key)[i]
            && windows[i].records@ == group(records, key, windows[i].index)
}

fn find_window(windows: &Vec<Window>, index: u64) -> (found: Option<usize>)
    ensures
        found matches Some(i) ==> i < windows@.len() && windows@[i as int].index == index,
        found is None ==> forall|i: int|
            0 <= i < windows@.len() ==> (#[trigger] windows@[i]).index != index,
{
    let n: usize = windows.len();
    let mut i: usize = 0;
    while i < n
        invariant
            n == windows@.len(),
            i <= n,
            forall|j: int| 0 <= j < i ==> (#[trigger] windows@[j]).index != index,
        decreases n - i,
    {
        if windows[i].index == index {
            return Some(i);
        }
        i = i + 1;
    }
    None
}

/// The records of each window.
pub open spec fn records_of(windows: Seq<Window>) -> Seq<Seq<Record>> {
    Seq::new(windows.len(), |i: int| windows[i].records@)
}

/// Windows that are some records put into windows hold the groups of these
/// records.
pub proof fn lemma_windowed_records(
    windows: Seq<Window>,
    records: Seq<Record>,
    session_start: u64,
    period: u64,
)
    requires
        windowed(windows, records, session_start, period),
    ensures
        records_of(windows) == groups(records, window_key(session_start, period)),
{
    assert(records_of(windows) =~= groups(records, window_key(session_start, period)));
}

/// Every window holds well-formed records only.
pub open spec fn all_windows_wf(windows: Seq<Window>) -> bool {
    forall|i: int| 0 <= i < windows.len() ==> all_wf((#[trigger] windows[i]).records@)
}

/// Puts every record into the time window in which it starts, so that
/// records of sources that run on their own clocks can be held against
/// each other.
pub fn into_windows(records: &Vec<Record>, session_start: u64, period: u64) -> (windows: Vec<
    Window,
>)
    requires
        period > 0,
    ensures
        windowed(windows@, records@, session_start, period),
        all_wf(records@) ==> all_windows_wf(windows@),
{
    let mut windows: Vec<Window> = Vec::new();
    let n: usize = records.len();
    let mut k: usize = 0;
    let ghost key = window_key(session_start, period);
    while k < n
        invariant
            period > 0,
            n == records@.len(),
            k <= n,
            key == window_key(session_start, period),
            windowed(windows@, records@.take(k as int), session_start, period),
            all_wf(records@) ==> all_windows_wf(windows@),
        decreases n - k,
    {
        let r: Record = records[k];
        let index: u64 = window_index(r.start(), session_start, period);
        let ghost seen = records@.take(k as int);
        let ghost before = windows@;
        proof {
            lemma_push(seen, r, key);
            lemma_keys_distinct(seen, key);
            lemma_keys_cover(seen, key, index);
            assert(records@.take(k + 1) =~= seen.push(r));
            assert(key(r) == index);
        }
        match find_window(&windows, index) {
            Some(idx) => {
                windows[idx].records.push(r);
                proof {
                    let keys = keys_of(seen, key);
                    assert(keys[idx as int] == before[idx as int].index);
                    assert(keys.contains(index));
                    assert forall|i: int| 0 <= i < windows@.len() implies (#[trigger] windows@[i]).index
                        == keys[i] && windows@[i].records@ == group(
                        seen.push(r),
                        key,
                        windows@[i].index,
                    ) by {
                        if i != idx {
                            assert(windows@[i] == before[i]);
                            assert(keys[i] != keys[idx as int]);
                        }
                    }
                    if all_wf(records@) {
                        assert forall|i: int| 0 <= i < windows@.len() implies all_wf(
                            (#[trigger] windows@[i]).records@,
                        ) by {
                            if i != idx {
                                assert(windows@[i] == before[i]);
                            } else {
                                assert(all_wf(before[i].records@));
                                assert(windows@[i].records@ == before[i].records@.push(r));
                            }
                        }
                    }
                }
            },
            None => {
                let mut first: Vec<Record> = Vec::new();
                first.push(r);
                windows.push(Window { index, records: first });
                proof {
                    let keys = keys_of(seen, key);
                    assert(!keys.contains(index)) by {
                        if keys.contains(index) {
                            let i = choose|i: int| 0 <= i < keys.len() && keys[i] == index;
                            assert(before[i].index == index);
                        }
                    }
                    assert(group(seen, key, index).len() == 0);
                    assert(group(seen, key, index).push(r) =~= seq![r]);
                    assert forall|i: int| 0 <= i < windows@.len() implies (#[trigger] windows@[i]).index
                        == keys.push(index)[i] && windows@[i].records@ == group(
                        seen.push(r),
                        key,
                        windows@[i].index,
                    ) by {
                        if i < before.len() {
                            assert(windows@[i] == before[i]);
                        }
                    }
                    if all_wf(records@) {
                        assert forall|i: int| 0 <= i < windows@.len() implies all_wf(
                            (#[trigger] windows@[i]).records@,
                        ) by {
                            if i < before.len() {
                                assert(windows@[i] == before[i]);
                            }
                        }
                    }
                }
            },
        }
        k = k + 1;
    }
    proof {
        assert(records@.take(n as int) =~= records@);
    }
    windows
}

} // verus!
