//! Series: the observations of a session grouped by entity, put in order
//! of time, and turned into records of what changed from each to the next.

use vstd::prelude::*;
use crate::grouping::{group, groups, keys_of, lemma_keys_cover, lemma_keys_distinct, lemma_push};
use crate::record::{all_wf, Record};
use crate::sample::{Kind, Observation, Sample};

verus! {
/// All the observations of `samples`, sample after sample.
pub open spec fn spec_flatten(samples: Seq<Sample>) -> Seq<Observation>
    decreases samples.len(),
{
    if samples.len() == 0 {
        Seq::empty()
    } else {
        spec_flatten(samples.drop_last()) + samples.last().spec_observations()
    }
}

/// Takes every sample apart into its observations.
pub fn flatten(samples: &Vec<Sample>) -> (points: Vec<Observation>)
    ensures
        points@ == spec_flatten(samples@),
{
    let mut points: Vec<Observation> = Vec::new();
    let n: usize = samples.len();
    let mut i: usize = 0;
    while i < n
        invariant
            n == samples@.len(),
            i <= n,
            points@ == spec_flatten(samples@.take(i as int)),
        decreases n - i,
    {
        let mut more: Vec<Observation> = samples[i].observations();
        proof {
            assert(samples@.take(i + 1).drop_last() =~= samples@.take(i as int));
            assert(samples@.take(i + 1).last() == samples@[i as int]);
        }
        points.append(&mut more);
        i = i + 1;
    }
    proof {
        assert(samples@.take(n as int) =~= samples@);
    }
    points
}

/// The observations of one entity, in the order in which they were
/// collected.
#[derive(Clone, Debug, PartialEq, Eq)]
pub struct Series {
    pub kind: Kind,
    pub entity: u32,
    pub points: Vec<Observation>,
}

impl Series {
    /// Kind and entity: what tells one series from another.
    pub open spec fn key(&self) -> (Kind, u32) {
        (self.kind, self.entity)
    }
}

/// The key by which observations are grouped into series.
pub open spec fn series_key() -> spec_fn(Observation) -> (Kind, u32) {
    |p: Observation| (p.spec_kind(), p.spec_entity())
}

/// `series` is `points` grouped by kind and entity: one series for each
/// key that occurs, in the order of first occurrence, each holding the
/// observations with its key in the order in which they stand.
pub open spec fn grouped(series: Seq<Series>, points: Seq<Observation>) -> bool {
    &&& series.len() == keys_of(points, series_key()).len()
    &&& forall|i: int|
        0 <= i < series.len() ==> (#[trigger] series[i]).key() == keys_of(points, series_key())[i]
            && series[i].points@ == group(points, series_key(), series[i].key())
}

fn find_series(series: &Vec<Series>, kind: Kind, entity: u32) -> (found: Option<usize>)
    ensures
        found matches Some(i) ==> i < series@.len() && series@[i as int].key() == (kind, entity),
        found is None ==> forall|i: int|
            0 <= i < series@.len() ==> (#[trigger] series@[i]).key() != (kind, entity),
{
    let n: usize = series.len();
    let mut i: usize = 0;
    while i < n
        invariant
            n == series@.len(),
            i <= n,
            forall|j: int| 0 <= j < i ==> (#[trigger] series@[j]).key() != (kind, entity),
        decreases n - i,
    {
        if series[i].kind == kind && series[i].entity == entity {
            return Some(i);
        }
        i = i + 1;
    }
    None
}

/// Groups the observations of a session by kind and entity.
pub fn group_samples(samples: &Vec<Sample>) -> (series: Vec<Series>)
    ensures
        grouped(series@, spec_flatten(samples@)),
{
    let points: Vec<Observation> = flatten(samples);
    let mut series: Vec<Series> = Vec::new();
    let n: usize = points.len();
    let mut k: usize = 0;
    while k < n
        invariant
            n == points@.len(),
            k <= n,
            grouped(series@, points@.take(k as int)),
        decreases n - k,
    {
        let p: Observation = points[k];
        let ghost seen = points@.take(k as int);
        let ghost before = series@;
        proof {
            lemma_push(seen, p, series_key());
            lemma_keys_distinct(seen, series_key());
            lemma_keys_cover(seen, series_key(), (p.spec_kind(), p.spec_entity()));
            assert(points@.take(k + 1) =~= seen.push(p));
        }
        match find_series(&series, p.kind(), p.entity()) {
            Some(idx) => {
                series[idx].points.push(p);
                proof {
                    let keys = keys_of(seen, series_key());
                    assert(keys[idx as int] == before[idx as int].key());
                    assert(keys.contains((p.spec_kind(), p.spec_entity())));
                    assert forall|i: int| 0 <= i < series@.len() implies (#[trigger] series@[i]).key()
                        == keys[i] && series@[i].points@ == group(
                        seen.push(p),
                        series_key(),
                        series@[i].key(),
                    ) by {
                        if i != idx {
                            assert(series@[i] == before[i]);
                            assert(keys[i] != keys[idx as int]);
                        }
                    }
                }
            },
            None => {
                let mut first: Vec<Observation> = Vec::new();
                first.push(p);
                series.push(Series { kind: p.kind(), entity: p.entity(), points: first });
                proof {
                    let keys = keys_of(seen, series_key());
                    let key = (p.spec_kind(), p.spec_entity());
                    assert(!keys.contains(key)) by {
                        if keys.contains(key) {
                            let i = choose|i: int| 0 <= i < keys.len() && keys[i] == key;
                            assert(before[i].key() == key);
                        }
                    }
                    assert(group(seen, series_key(), key).len() == 0);
                    assert(group(seen, series_key(), key).push(p) =~= seq![p]);
                    assert forall|i: int| 0 <= i < series@.len() implies (#[trigger] series@[i]).key()
                        == keys.push(key)[i] && series@[i].points@ == group(
                        seen.push(p),
                        series_key(),
                        series@[i].key(),
                    ) by {
                        if i < before.len() {
                            assert(series@[i] == before[i]);
                        }
                    }
                }
            },
        }
        k = k + 1;
    }
    proof {
        assert(points@.take(n as int) =~= points@);
    }
    series
}

/// The timestamps never go down.
pub open spec fn sorted(points: Seq<Observation>) -> bool {
    forall|i: int, j: int| 0 <= i <= j < points.len() ==> points[i].timestamp <= points[j].timestamp
}

/// `p` put into `points` behind the last observation that is not later
/// than `p`.
pub open spec fn spec_insert(points: Seq<Observation>, p: Observation) -> Seq<Observation>
    decreases points.len(),
{
    if points.len() == 0 {
        seq![p]
    } else if points.last().timestamp <= p.timestamp {
        points.push(p)
    } else {
        spec_insert(points.drop_last(), p).push(points.last())
    }
}

/// `points` in the order of their timestamps, observations of one
/// timestamp staying in the order in which they came.
pub open spec fn spec_sort(points: Seq<Observation>) -> Seq<Observation>
    decreases points.len(),
{
    if points.len() == 0 {
        Seq::empty()
    } else {
        spec_insert(spec_sort(points.drop_last()), points.last())
    }
}

/// Where everything from position `j` on is later than `p`, and what
/// stands before `j` is not, `spec_insert` puts `p` at position `j`.
pub proof fn lemma_insert_at(points: Seq<Observation>, p: Observation, j: int)
    requires
        0 <= j <= points.len(),
        forall|i: int| j <= i < points.len() ==> points[i].timestamp > p.timestamp,
        j > 0 ==> points[j - 1].timestamp <= p.timestamp,
    ensures
        spec_insert(points, p) == points.insert(j, p),
    decreases points.len(),
{
    if points.len() == 0 {
        assert(points.insert(j, p) =~= seq![p]);
    } else if j == points.len() {
        assert(points.insert(j, p) =~= points.push(p));
    } else {
        lemma_insert_at(points.drop_last(), p, j);
        assert(points.drop_last().insert(j, p).push(points.last()) =~= points.insert(j, p));
    }
}

/// Inserting keeps a sorted sequence sorted, and adds `p` and nothing
/// else.
pub proof fn lemma_insert_sorted(points: Seq<Observation>, p: Observation)
    requires
        sorted(points),
    ensures
        sorted(spec_insert(points, p)),
        spec_insert(points, p).len() == points.len() + 1,
        spec_insert(points, p).to_multiset() == points.to_multiset().insert(p),
        forall|i: int|
            0 <= i < spec_insert(points, p).len() ==> (#[trigger] spec_insert(points, p)[i]) == p
                || points.contains(spec_insert(points, p)[i]),
    decreases points.len(),
{
    broadcast use vstd::seq_lib::to_multiset_build;

    let out = spec_insert(points, p);
    if points.len() == 0 {
        assert(points =~= Seq::empty());
    } else if points.last().timestamp <= p.timestamp {
        assert forall|i: int| 0 <= i < out.len() implies (#[trigger] out[i]) == p
            || points.contains(out[i]) by {
            if i < points.len() {
                assert(points[i] == out[i]);
            }
        }
    } else {
        let rest = points.drop_last();
        let last = points.last();
        lemma_insert_sorted(rest, p);
        let inner = spec_insert(rest, p);
        assert(rest.push(last) =~= points);
        assert forall|i: int| 0 <= i < inner.len() implies (#[trigger] inner[i]).timestamp
            <= last.timestamp by {
            if inner[i] != p {
                let w = choose|w: int| 0 <= w < rest.len() && rest[w] == inner[i];
                assert(points[w] == rest[w]);
            }
        }
        assert forall|i: int| 0 <= i < out.len() implies (#[trigger] out[i]) == p
            || points.contains(out[i]) by {
            if i < inner.len() {
                if inner[i] != p {
                    let w = choose|w: int| 0 <= w < rest.len() && rest[w] == inner[i];
                    assert(points[w] == rest[w]);
                }
            } else {
                assert(points[points.len() - 1] == out[i]);
            }
        }
        assert(out.to_multiset() =~= points.to_multiset().insert(p));
    }
}

/// The sorted sequence is sorted, and holds what `points` holds, each
/// observation as often.
pub proof fn lemma_sort_sorted(points: Seq<Observation>)
    ensures
        sorted(spec_sort(points)),
        spec_sort(points).len() == points.len(),
        spec_sort(points).to_multiset() == points.to_multiset(),
    decreases points.len(),
{
    broadcast use vstd::seq_lib::to_multiset_build;

    if points.len() == 0 {
        assert(points =~= Seq::empty());
    } else {
        lemma_sort_sorted(points.drop_last());
        lemma_insert_sorted(spec_sort(points.drop_last()), points.last());
        assert(points.drop_last().push(points.last()) =~= points);
    }
}

/// Sorts the observations of one series by timestamp.
pub fn sort_by_timestamp(points: &Vec<Observation>) -> (out: Vec<Observation>)
    ensures
        out@ == spec_sort(points@),
        sorted(out@),
        out@.to_multiset() == points@.to_multiset(),
{
    let mut out: Vec<Observation> = Vec::new();
    let n: usize = points.len();
    let mut k: usize = 0;
    while k < n
        invariant
            n == points@.len(),
            k <= n,
            out@ == spec_sort(points@.take(k as int)),
            out@.len() == k,
        decreases n - k,
    {
        let p: Observation = points[k];
        let mut j: usize = out.len();
        while j > 0 && out[j - 1].timestamp > p.timestamp
            invariant
                j <= out@.len(),
                forall|i: int| j <= i < out@.len() ==> out@[i].timestamp > p.timestamp,
            decreases j,
        {
            j = j - 1;
        }
        proof {
            lemma_insert_at(out@, p, j as int);
            assert(points@.take(k + 1).drop_last() =~= points@.take(k as int));
            assert(points@.take(k + 1).last() == p);
        }
        out.insert(j, p);
        k = k + 1;
    }
    proof {
        assert(points@.take(n as int) =~= points@);
        lemma_sort_sorted(points@);
    }
    out
}

/// The records between each observation of a series and the next.
pub open spec fn spec_differences(points: Seq<Observation>) -> Seq<Record>
    decreases points.len(),
{
    if points.len() < 2 {
        Seq::empty()
    } else {
        let rest = spec_differences(points.drop_last());
        match points[points.len() - 2].spec_sub(points[points.len() - 1]) {
            Some(r) => rest.push(r),
            None => rest,
        }
    }
}

/// The records of every series, series after series, each series sorted
/// by timestamp first.
pub open spec fn spec_forward_difference(series: Seq<Seq<Observation>>) -> Seq<Record>
    decreases series.len(),
{
    if series.len() == 0 {
        Seq::empty()
    } else {
        spec_forward_difference(series.drop_last()) + spec_differences(spec_sort(series.last()))
    }
}

/// The observations of each series.
pub open spec fn points_of(series: Seq<Series>) -> Seq<Seq<Observation>> {
    Seq::new(series.len(), |i: int| series[i].points@)
}

/// Series that are some observations grouped hold the groups of these
/// observations.
pub proof fn lemma_grouped_points(series: Seq<Series>, points: Seq<Observation>)
    requires
        grouped(series, points),
    ensures
        points_of(series) == groups(points, series_key()),
{
    assert(points_of(series) =~= groups(points, series_key()));
}

/// The forward differences of one series that is already in order.
pub fn differences(points: &Vec<Observation>) -> (records: Vec<Record>)
    ensures
        records@ == spec_differences(points@),
        all_wf(records@),
{
    let mut records: Vec<Record> = Vec::new();
    let n: usize = points.len();
    if n < 2 {
        return records;
    }
    let mut k: usize = 1;
    while k < n
        invariant
            n == points@.len(),
            1 <= k <= n,
            records@ == spec_differences(points@.take(k as int)),
            all_wf(records@),
        decreases n - k,
    {
        proof {
            assert(points@.take(k + 1).drop_last() =~= points@.take(k as int));
        }
        match points[k - 1].sub(&points[k]) {
            Some(r) => {
                records.push(r);
            },
            None => {},
        }
        k = k + 1;
    }
    proof {
        assert(points@.take(n as int) =~= points@);
    }
    records
}

/// Takes the forward difference of every series: sorts it by timestamp
/// and emits one record for each observation and the next.
pub fn forward_difference(series: &Vec<Series>) -> (records: Vec<Record>)
    ensures
        records@ == spec_forward_difference(points_of(series@)),
        all_wf(records@),
{
    let mut records: Vec<Record> = Vec::new();
    let n: usize = series.len();
    let mut i: usize = 0;
    let ghost all = points_of(series@);
    while i < n
        invariant
            n == series@.len(),
            i <= n,
            all == points_of(series@),
            records@ == spec_forward_difference(all.take(i as int)),
            all_wf(records@),
        decreases n - i,
    {
        let ordered: Vec<Observation> = sort_by_timestamp(&series[i].points);
        let mut more: Vec<Record> = differences(&ordered);
        proof {
            assert(all.take(i + 1).drop_last() =~= all.take(i as int));
            assert(all.take(i + 1).last() == series@[i as int].points@);
        }
        records.append(&mut more);
        i = i + 1;
    }
    proof {
        assert(all.take(n as int) =~= all);
    }
    records
}

/// All the observations are of one entity.
pub open spec fn one_entity(points: Seq<Observation>, kind: Kind, entity: u32) -> bool {
    forall|i: int|
        0 <= i < points.len() ==> (#[trigger] points[i]).spec_kind() == kind
            && points[i].spec_entity() == entity
}

/// A series of one entity in the order of time loses no pair: there is one
/// record for each observation and the next, from the one to the other.
pub proof fn lemma_differences_complete(points: Seq<Observation>, kind: Kind, entity: u32)
    requires
        sorted(points),
        one_entity(points, kind, entity),
    ensures
        points.len() > 0 ==> spec_differences(points).len() == points.len() - 1,
        forall|i: int|
            0 <= i < points.len() - 1 ==> points[i].spec_sub(points[i + 1]) == Some(
                #[trigger] spec_differences(points)[i],
            ),
    decreases points.len(),
{
    if points.len() >= 2 {
        let rest = points.drop_last();
        assert forall|i: int, j: int| 0 <= i <= j < rest.len() implies rest[i].timestamp
            <= rest[j].timestamp by {
            assert(rest[i] == points[i] && rest[j] == points[j]);
        }
        assert forall|i: int| 0 <= i < rest.len() implies (#[trigger] rest[i]).spec_kind() == kind
            && rest[i].spec_entity() == entity by {
            assert(rest[i] == points[i]);
        }
        lemma_differences_complete(rest, kind, entity);
        let n = points.len() as int;
        crate::record::lemma_sub_is_difference(points[n - 2], points[n - 1]);
        assert(points[n - 2].spec_sub(points[n - 1]) is Some);
        assert forall|i: int| 0 <= i < n - 1 implies points[i].spec_sub(points[i + 1]) == Some(
            #[trigger] spec_differences(points)[i],
        ) by {
            if i < n - 2 {
                assert(rest[i] == points[i] && rest[i + 1] == points[i + 1]);
                assert(spec_differences(points)[i] == spec_differences(rest)[i]);
            }
        }
    }
}

/// Sorting a series of one entity leaves it a series of that entity.
pub proof fn lemma_sort_one_entity(points: Seq<Observation>, kind: Kind, entity: u32)
    requires
        one_entity(points, kind, entity),
    ensures
        one_entity(spec_sort(points), kind, entity),
{
    lemma_sort_sorted(points);
    let out = spec_sort(points);
    assert forall|i: int| 0 <= i < out.len() implies (#[trigger] out[i]).spec_kind() == kind
        && out[i].spec_entity() == entity by {
        broadcast use vstd::seq_lib::to_multiset_contains;

        assert(out.contains(out[i]));
        assert(out.to_multiset().count(out[i]) > 0);
        assert(points.to_multiset().count(out[i]) > 0);
        assert(points.contains(out[i]));
        let w = choose|w: int| 0 <= w < points.len() && points[w] == out[i];
        assert(points[w].spec_kind() == kind);
    }
}

/// Every series that grouping gives is of one entity, so that its forward
/// difference, taken in the order of time, loses no pair.
pub proof fn lemma_group_differences_complete(points: Seq<Observation>, kind: Kind, entity: u32)
    ensures
        ({
            let series = spec_sort(group(points, series_key(), (kind, entity)));
            &&& series.len() == group(points, series_key(), (kind, entity)).len()
            &&& series.len() > 0 ==> spec_differences(series).len() == series.len() - 1
        }),
{
    let members = group(points, series_key(), (kind, entity));
    assert forall|i: int| 0 <= i < members.len() implies (#[trigger] members[i]).spec_kind() == kind
        && members[i].spec_entity() == entity by {
        points.lemma_filter_pred(crate::grouping::with_key(series_key(), (kind, entity)), i);
    }
    lemma_sort_sorted(members);
    lemma_sort_one_entity(members, kind, entity);
    lemma_differences_complete(spec_sort(members), kind, entity);
}

/// No observation is earlier than `from`.
pub open spec fn none_before(points: Seq<Observation>, from: u64) -> bool {
    forall|i: int| 0 <= i < points.len() ==> (#[trigger] points[i]).timestamp >= from
}

/// No record starts earlier than `from`.
pub open spec fn none_starts_before(records: Seq<Record>, from: u64) -> bool {
    forall|i: int| 0 <= i < records.len() ==> (#[trigger] records[i]).spec_start() >= from
}

/// Grouping and sorting bring no observation in that was not there: where
/// none is earlier than `from`, none of a sorted group is.
pub proof fn lemma_group_none_before(points: Seq<Observation>, key: (Kind, u32), from: u64)
    requires
        none_before(points, from),
    ensures
        none_before(group(points, series_key(), key), from),
        none_before(spec_sort(group(points, series_key(), key)), from),
{
    broadcast use vstd::seq_lib::to_multiset_contains;

    let members = group(points, series_key(), key);
    let test = crate::grouping::with_key(series_key(), key);
    assert forall|i: int| 0 <= i < members.len() implies (#[trigger] members[i]).timestamp
        >= from by {
        assert(members.contains(members[i]));
        points.lemma_filter_contains_rev(test, members[i]);
        let w = choose|w: int| 0 <= w < points.len() && points[w] == members[i];
        assert(points[w].timestamp >= from);
    }
    lemma_sort_sorted(members);
    let out = spec_sort(members);
    assert forall|i: int| 0 <= i < out.len() implies (#[trigger] out[i]).timestamp >= from by {
        assert(out.contains(out[i]));
        assert(out.to_multiset().count(out[i]) > 0);
        assert(members.to_multiset().count(out[i]) > 0);
        assert(members.contains(out[i]));
        let w = choose|w: int| 0 <= w < members.len() && members[w] == out[i];
        assert(members[w].timestamp >= from);
    }
}

/// A record starts with an observation of its series: where no observation
/// is earlier than `from`, no record starts earlier.
pub proof fn lemma_differences_none_before(points: Seq<Observation>, from: u64)
    requires
        none_before(points, from),
    ensures
        none_starts_before(spec_differences(points), from),
    decreases points.len(),
{
    if points.len() >= 2 {
        let rest = points.drop_last();
        assert forall|i: int| 0 <= i < rest.len() implies (#[trigger] rest[i]).timestamp
            >= from by {
            assert(rest[i] == points[i]);
        }
        lemma_differences_none_before(rest, from);
        let n = points.len() as int;
        assert(points[n - 2].timestamp >= from);
        crate::record::lemma_sub_is_difference(points[n - 2], points[n - 1]);
    }
}

/// Where no observation of any series is earlier than `from`, no record
/// of the forward difference starts earlier.
pub proof fn lemma_forward_difference_none_before(series: Seq<Seq<Observation>>, from: u64)
    requires
        forall|i: int| 0 <= i < series.len() ==> none_before(spec_sort(#[trigger] series[i]), from),
    ensures
        none_starts_before(spec_forward_difference(series), from),
    decreases series.len(),
{
    if series.len() > 0 {
        let rest = series.drop_last();
        assert forall|i: int| 0 <= i < rest.len() implies none_before(
            spec_sort(#[trigger] rest[i]),
            from,
        ) by {
            assert(rest[i] == series[i]);
        }
        lemma_forward_difference_none_before(rest, from);
        assert(none_before(spec_sort(series[series.len() - 1]), from));
        lemma_differences_none_before(spec_sort(series.last()), from);
    }
}

} // verus!
