//! The attribution pipeline: from the samples of one session to the share of
//! each core bucket's activity that each thread of the process accounts for.

use vstd::prelude::*;
use crate::attribution::{
    account_tasks, all_positive, extract_cpu_data, some_overflow, spec_account, spec_members,
    spec_totals, ProcessError, TaskActivity,
};
use crate::grouping::groups;
use crate::record::{all_wf, Record};
use crate::sample::Sample;
use crate::series::{
    forward_difference, group_samples, lemma_forward_difference_none_before,
    lemma_group_none_before, lemma_grouped_points, none_before, series_key, spec_flatten,
    spec_forward_difference, spec_sort,
};
use crate::window::{
    all_windows_wf, into_windows, lemma_windowed_records, records_of, window_key, Window,
};

verus! {

/// The earliest timestamp among the samples.
pub open spec fn spec_earliest(samples: Seq<Sample>) -> Option<u64>
    decreases samples.len(),
{
    if samples.len() == 0 {
        None
    } else {
        let t = samples.last().spec_timestamp();
        match spec_earliest(samples.drop_last()) {
            Some(e) => Some(if t < e { t } else { e }),
            None => Some(t),
        }
    }
}

/// The earliest timestamp is that of one of the samples, and none is
/// earlier.
pub proof fn lemma_earliest(samples: Seq<Sample>)
    ensures
        spec_earliest(samples) is None <==> samples.len() == 0,
        spec_earliest(samples) matches Some(e) ==> {
            &&& forall|i: int| 0 <= i < samples.len() ==> e <= (#[trigger] samples[i]).spec_timestamp()
            &&& exists|i: int| 0 <= i < samples.len() && e == (#[trigger] samples[i]).spec_timestamp()
        },
    decreases samples.len(),
{
    if samples.len() > 0 {
        let rest = samples.drop_last();
        lemma_earliest(rest);
        assert(forall|i: int| 0 <= i < rest.len() ==> rest[i] == samples[i]);
        let e = spec_earliest(samples).unwrap();
        let last = samples.len() - 1;
        if e == samples[last].spec_timestamp() {
        } else {
            let i = choose|i: int| 0 <= i < rest.len() && e == (#[trigger] rest[i]).spec_timestamp();
            assert(samples[i].spec_timestamp() == e);
        }
    }
}

/// When the session began: the earliest timestamp among its samples.
pub fn earliest(samples: &Vec<Sample>) -> (start: Option<u64>)
    ensures
        start == spec_earliest(samples@),
        start is None <==> samples@.len() == 0,
        start matches Some(e) ==> forall|i: int|
            0 <= i < samples@.len() ==> e <= (#[trigger] samples@[i]).spec_timestamp(),
{
    let mut start: Option<u64> = None;
    let n: usize = samples.len();
    let mut i: usize = 0;
    while i < n
        invariant
            n == samples@.len(),
            i <= n,
            start == spec_earliest(samples@.take(i as int)),
        decreases n - i,
    {
        let t: u64 = samples[i].get_timestamp();
        proof {
            assert(samples@.take(i + 1).drop_last() =~= samples@.take(i as int));
            assert(samples@.take(i + 1).last() == samples@[i as int]);
        }
        start = match start {
            Some(e) => Some(if t < e { t } else { e }),
            None => Some(t),
        };
        i = i + 1;
    }
    proof {
        assert(samples@.take(n as int) =~= samples@);
        lemma_earliest(samples@);
    }
    start
}

/// The activities that one window gives: the rates of its CPU records are
/// added up by core bucket, then its threads are accounted for. `None`
/// where a sum or a ratio does not fit.
pub open spec fn spec_attribute_window(records: Seq<Record>, cores_per_bucket: u32) -> Option<
    Seq<TaskActivity>,
> {
    let members = spec_members(records, cores_per_bucket);
    if some_overflow(members) {
        None
    } else {
        spec_account(records, spec_totals(members), cores_per_bucket)
    }
}

/// The activities of all windows, window after window. `None` where
/// one of the windows has none.
pub open spec fn spec_attribute_windows(windows: Seq<Seq<Record>>, cores_per_bucket: u32) -> Option<
    Seq<TaskActivity>,
>
    decreases windows.len(),
{
    if windows.len() == 0 {
        Some(Seq::empty())
    } else {
        match spec_attribute_windows(windows.drop_last(), cores_per_bucket) {
            None => None,
            Some(done) => match spec_attribute_window(windows.last(), cores_per_bucket) {
                Some(more) => Some(done + more),
                None => None,
            },
        }
    }
}

/// Once a window has no result, the session has none.
pub proof fn lemma_windows_overflow_stays(windows: Seq<Seq<Record>>, k: int, cores_per_bucket: u32)
    requires
        0 <= k <= windows.len(),
        spec_attribute_windows(windows.take(k), cores_per_bucket) is None,
    ensures
        spec_attribute_windows(windows, cores_per_bucket) is None,
    decreases windows.len() - k,
{
    if k < windows.len() {
        assert(windows.take(k + 1).drop_last() =~= windows.take(k));
        lemma_windows_overflow_stays(windows, k + 1, cores_per_bucket);
    } else {
        assert(windows.take(k) =~= windows);
    }
}

/// What the pipeline makes of the samples of a session.
///
/// The samples are taken apart into observations, which are grouped by
/// kind and entity. Each series is put in order of time and differenced.
/// The records are put into windows of one period each, counted from the
/// earliest sample. Within each window, the thread records are held
/// against the rates of the core buckets.
pub open spec fn spec_process(samples: Seq<Sample>, period: u64, cores_per_bucket: u32) -> Result<
    Seq<TaskActivity>,
    ProcessError,
> {
    if period == 0 {
        Err(ProcessError::InvalidPeriod)
    } else if cores_per_bucket == 0 {
        Err(ProcessError::InvalidBucketSize)
    } else {
        let points = spec_flatten(samples);
        let records = spec_forward_difference(groups(points, series_key()));
        let session_start = match spec_earliest(samples) {
            Some(t) => t,
            None => 0,
        };
        let windows = groups(records, window_key(session_start, period));
        match spec_attribute_windows(windows, cores_per_bucket) {
            Some(activities) => Ok(activities),
            None => Err(ProcessError::Overflow),
        }
    }
}

/// Attributes the activity within one window.
pub fn attribute_window(records: &Vec<Record>, cores_per_bucket: u32) -> (activities: Result<
    Vec<TaskActivity>,
    ProcessError,
>)
    requires
        cores_per_bucket > 0,
        all_wf(records@),
    ensures
        activities matches Ok(v) ==> spec_attribute_window(records@, cores_per_bucket) == Some(v@)
            && all_positive(v@),
        activities matches Err(e) ==> spec_attribute_window(records@, cores_per_bucket) is None
            && e == ProcessError::Overflow,
{
    match extract_cpu_data(records, cores_per_bucket) {
        Ok(cpus) => account_tasks(records, &cpus, cores_per_bucket),
        Err(e) => Err(e),
    }
}

/// Runs the attribution pipeline over the samples of one session, taken
/// with the period `period` (milliseconds), on a machine whose cores form
/// buckets of `cores_per_bucket`. A period or a bucket size of zero is
/// turned down, and so is a session in which a sum or a quotient of rates
/// does not fit the machine integers.
pub fn process(samples: Vec<Sample>, period: u64, cores_per_bucket: u32) -> (activities: Result<
    Vec<TaskActivity>,
    ProcessError,
>)
    ensures
        activities matches Ok(v) ==> spec_process(samples@, period, cores_per_bucket) == Ok::<
            Seq<TaskActivity>,
            ProcessError,
        >(v@) && all_positive(v@),
        activities matches Err(e) ==> spec_process(samples@, period, cores_per_bucket) == Err::<
            Seq<TaskActivity>,
            ProcessError,
        >(e),
        activities matches Err(ProcessError::InvalidPeriod) <==> period == 0,
        activities matches Err(ProcessError::InvalidBucketSize) <==> period > 0 && cores_per_bucket
            == 0,
{
    if period == 0 {
        return Err(ProcessError::InvalidPeriod);
    }
    if cores_per_bucket == 0 {
        return Err(ProcessError::InvalidBucketSize);
    }
    let series = group_samples(&samples);
    let records: Vec<Record> = forward_difference(&series);
    let session_start: u64 = match earliest(&samples) {
        Some(t) => t,
        None => 0,
    };
    let windows: Vec<Window> = into_windows(&records, session_start, period);
    let ghost all = records_of(windows@);
    proof {
        lemma_grouped_points(series@, spec_flatten(samples@));
        lemma_windowed_records(windows@, records@, session_start, period);
    }
    assert(spec_process(samples@, period, cores_per_bucket) == match spec_attribute_windows(
        all,
        cores_per_bucket,
    ) {
        Some(found) => Ok::<Seq<TaskActivity>, ProcessError>(found),
        None => Err(ProcessError::Overflow),
    });
    let mut activities: Vec<TaskActivity> = Vec::new();
    let n: usize = windows.len();
    let mut i: usize = 0;
    while i < n
        invariant
            cores_per_bucket > 0,
            n == windows@.len(),
            i <= n,
            all == records_of(windows@),
            all_windows_wf(windows@),
            spec_process(samples@, period, cores_per_bucket) == match spec_attribute_windows(
                all,
                cores_per_bucket,
            ) {
                Some(found) => Ok::<Seq<TaskActivity>, ProcessError>(found),
                None => Err(ProcessError::Overflow),
            },
            spec_attribute_windows(all.take(i as int), cores_per_bucket) == Some(activities@),
            all_positive(activities@),
        decreases n - i,
    {
        proof {
            assert(all.take(i + 1).drop_last() =~= all.take(i as int));
            assert(all.take(i + 1).last() == windows@[i as int].records@);
            assert(all_wf(windows@[i as int].records@));
        }
        match attribute_window(&windows[i].records, cores_per_bucket) {
            Ok(more) => {
                let mut more: Vec<TaskActivity> = more;
                activities.append(&mut more);
            },
            Err(e) => {
                proof {
                    lemma_windows_overflow_stays(all, i + 1, cores_per_bucket);
                }
                return Err(e);
            },
        }
        i = i + 1;
    }
    proof {
        assert(all.take(n as int) =~= all);
    }
    Ok(activities)
}

/// No observation of a session is earlier than the earliest sample.
pub proof fn lemma_flatten_none_before(samples: Seq<Sample>)
    ensures
        spec_earliest(samples) matches Some(e) ==> none_before(spec_flatten(samples), e),
        spec_earliest(samples) is None ==> spec_flatten(samples).len() == 0,
    decreases samples.len(),
{
    lemma_earliest(samples);
    if samples.len() > 0 {
        let rest = samples.drop_last();
        let last = samples.last();
        let e = spec_earliest(samples).unwrap();
        lemma_flatten_none_before(rest);
        lemma_earliest(rest);
        let front = spec_flatten(rest);
        let back = last.spec_observations();
        assert(samples[samples.len() - 1] == last);
        assert(e <= last.spec_timestamp());
        assert forall|i: int| 0 <= i < spec_flatten(samples).len() implies (#[trigger] spec_flatten(
            samples,
        )[i]).timestamp >= e by {
            if i < front.len() {
                assert(spec_flatten(samples)[i] == front[i]);
                assert(rest.len() > 0);
                let e0 = spec_earliest(rest).unwrap();
                assert(e <= e0);
            } else {
                assert(spec_flatten(samples)[i] == back[i - front.len()]);
                assert(back[i - front.len()].timestamp == last.spec_timestamp());
            }
        }
    }
}

/// In the pipeline no record starts before the session: the window of
/// every record is the time from the earliest sample to the start of the
/// record, in whole periods.
pub proof fn lemma_windows_count_from_session_start(samples: Seq<Sample>, period: u64)
    requires
        period > 0,
    ensures
        ({
            let records = spec_forward_difference(groups(spec_flatten(samples), series_key()));
            let session_start = match spec_earliest(samples) {
                Some(t) => t,
                None => 0,
            };
            forall|i: int|
                0 <= i < records.len() ==> (#[trigger] records[i]).spec_start() >= session_start
                    && window_key(session_start, period)(records[i]) == (records[i].spec_start()
                    - session_start) / (period as int)
        }),
{
    let points = spec_flatten(samples);
    let series = groups(points, series_key());
    let records = spec_forward_difference(series);
    lemma_flatten_none_before(samples);
    match spec_earliest(samples) {
        Some(e) => {
            assert forall|i: int| 0 <= i < series.len() implies none_before(
                spec_sort(#[trigger] series[i]),
                e,
            ) by {
                let key = crate::grouping::keys_of(points, series_key())[i];
                lemma_group_none_before(points, key, e);
            }
            lemma_forward_difference_none_before(series, e);
            assert forall|i: int| 0 <= i < records.len() implies (#[trigger] records[i]).spec_start()
                >= e && window_key(e, period)(records[i]) == (records[i].spec_start() - e) / (
            period as int) by {
                let start = records[i].spec_start();
                assert(start >= e);
                assert((start - e) / (period as int) <= start - e) by (nonlinear_arith)
                    requires
                        start - e >= 0,
                        period > 0,
                ;
                assert((start - e) / (period as int) >= 0) by (nonlinear_arith)
                    requires
                        start - e >= 0,
                        period > 0,
                ;
            }
        },
        None => {
            assert(points.len() == 0);
            assert(crate::grouping::keys_of(points, series_key()).len() == 0);
            assert(series.len() == 0);
        },
    }
}

} // verus!
