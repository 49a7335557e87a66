//! Attribution within one time window: the rates of the cores are added up
//! by core bucket, and each thread's rate is held against the rate of the
//! bucket that its core belongs to.

use vstd::prelude::*;
use crate::grouping::{keys_of, lemma_keys_cover, lemma_keys_distinct, lemma_push};
use crate::record::{all_wf, Record};
use crate::rate::{lemma_quotient_value, lemma_sum_value, Rate, Ratio};

verus! {

/// Why the pipeline gave no result.
#[derive(Clone, Copy, Debug, PartialEq, Eq)]
pub enum ProcessError {
    /// The sampling period is zero.
    InvalidPeriod,
    /// The number of cores per bucket is zero.
    InvalidBucketSize,
    /// A sum or a quotient of rates does not fit the machine integers.
    Overflow,
}

/// The rate of one core bucket, or of one core as a member of its bucket.
#[derive(Clone, Copy, Debug, PartialEq, Eq)]
pub struct BucketRate {
    pub bucket: u32,
    pub rate: Rate,
}

/// The share of a core bucket's activity that one thread accounts for
/// between `start` and `end`.
#[derive(Clone, Copy, Debug, PartialEq, Eq)]
pub struct TaskActivity {
    pub start: u64,
    pub end: u64,
    pub id: u32,
    pub cpu: u32,
    pub activity: Ratio,
}

/// The bucket of a core: cores are numbered, and each run of
/// `cores_per_bucket` of them forms one bucket.
pub open spec fn spec_bucket_of(cpu: u32, cores_per_bucket: u32) -> u32 {
    cpu / cores_per_bucket
}

/// What a record adds to the rate of a core bucket: a CPU record with a
/// rate adds that rate to the bucket of its core, any other record
/// nothing.
pub open spec fn spec_member(record: Record, cores_per_bucket: u32) -> Option<BucketRate> {
    match record {
        Record::Cpu { cpu, .. } => match record.spec_rate() {
            Some(rate) => Some(BucketRate { bucket: spec_bucket_of(cpu, cores_per_bucket), rate }),
            None => None,
        },
        _ => None,
    }
}

/// The rates of the CPU records of a window, each with its bucket.
pub open spec fn spec_members(records: Seq<Record>, cores_per_bucket: u32) -> Seq<BucketRate>
    decreases records.len(),
{
    if records.len() == 0 {
        Seq::empty()
    } else {
        let rest = spec_members(records.drop_last(), cores_per_bucket);
        match spec_member(records.last(), cores_per_bucket) {
            Some(m) => rest.push(m),
            None => rest,
        }
    }
}

/// Every rate in the sequence is well formed.
pub open spec fn all_rates_wf(members: Seq<BucketRate>) -> bool {
    forall|i: int| 0 <= i < members.len() ==> (#[trigger] members[i]).rate.wf()
}

/// What the rates of one bucket add up to.
pub enum Tally {
    /// The bucket has no member.
    Empty,
    /// The exact sum of the members' rates.
    Total(Rate),
    /// The sum does not fit.
    Overflow,
}

impl Tally {
    /// The sum, where there is one.
    pub open spec fn total(self) -> Rate {
        match self {
            Tally::Total(r) => r,
            _ => Rate { amount: 0, millis: 1 },
        }
    }
}

/// The rates of the members of `bucket`, added up one after the other.
pub open spec fn spec_tally(members: Seq<BucketRate>, bucket: u32) -> Tally
    decreases members.len(),
{
    if members.len() == 0 {
        Tally::Empty
    } else {
        let rest = spec_tally(members.drop_last(), bucket);
        let m = members.last();
        if m.bucket != bucket {
            rest
        } else {
            match rest {
                Tally::Empty => Tally::Total(m.rate),
                Tally::Total(r) => match r.spec_checked_add(m.rate) {
                    Some(sum) => Tally::Total(sum),
                    None => Tally::Overflow,
                },
                Tally::Overflow => Tally::Overflow,
            }
        }
    }
}

/// The sum of the numbers that the rates of the members of `bucket`
/// stand for.
pub open spec fn spec_rate_sum(members: Seq<BucketRate>, bucket: u32) -> real
    decreases members.len(),
{
    if members.len() == 0 {
        0real
    } else {
        let rest = spec_rate_sum(members.drop_last(), bucket);
        if members.last().bucket == bucket {
            rest + members.last().rate.value()
        } else {
            rest
        }
    }
}

/// The key by which member rates are grouped.
pub open spec fn bucket_key() -> spec_fn(BucketRate) -> u32 {
    |m: BucketRate| m.bucket
}

/// The sum of some bucket of `members` does not fit.
pub open spec fn some_overflow(members: Seq<BucketRate>) -> bool {
    exists|i: int|
        0 <= i < members.len() && spec_tally(members, (#[trigger] members[i]).bucket) is Overflow
}

/// One rate for each bucket that has a member, in the order in which the
/// buckets first occur: the sum of the rates of the bucket's members.
pub open spec fn spec_totals(members: Seq<BucketRate>) -> Seq<BucketRate> {
    let keys = keys_of(members, bucket_key());
    Seq::new(
        keys.len(),
        |i: int| BucketRate { bucket: keys[i], rate: spec_tally(members, keys[i]).total() },
    )
}

/// A sum that does not fit stays so, whatever is added.
pub proof fn lemma_overflow_stays(members: Seq<BucketRate>, k: int, bucket: u32)
    requires
        0 <= k <= members.len(),
        spec_tally(members.take(k), bucket) is Overflow,
    ensures
        spec_tally(members, bucket) is Overflow,
    decreases members.len() - k,
{
    if k < members.len() {
        assert(members.take(k + 1).drop_last() =~= members.take(k));
        lemma_overflow_stays(members, k + 1, bucket);
    } else {
        assert(members.take(k) =~= members);
    }
}

/// The sum of a bucket, where it fits, stands for the sum of the numbers
/// that the rates of its members stand for.
pub proof fn lemma_tally_value(members: Seq<BucketRate>, bucket: u32)
    requires
        all_rates_wf(members),
    ensures
        spec_tally(members, bucket) matches Tally::Total(r) ==> r.wf() && r.value()
            == spec_rate_sum(members, bucket),
        spec_tally(members, bucket) is Empty <==> forall|i: int|
            0 <= i < members.len() ==> (#[trigger] members[i]).bucket != bucket,
    decreases members.len(),
{
    if members.len() > 0 {
        let rest = members.drop_last();
        let m = members.last();
        assert(forall|i: int| 0 <= i < rest.len() ==> rest[i] == members[i]);
        lemma_tally_value(rest, bucket);
        if m.bucket == bucket {
            assert(members[members.len() - 1].bucket == bucket);
            match spec_tally(rest, bucket) {
                Tally::Empty => {
                    lemma_no_member_no_sum(rest, bucket);
                },
                Tally::Total(r) => {
                    lemma_sum_value(r, m.rate);
                },
                Tally::Overflow => {},
            }
        }
    }
}

/// A bucket without members has rate zero.
pub proof fn lemma_no_member_no_sum(members: Seq<BucketRate>, bucket: u32)
    requires
        forall|i: int| 0 <= i < members.len() ==> (#[trigger] members[i]).bucket != bucket,
    ensures
        spec_rate_sum(members, bucket) == 0real,
    decreases members.len(),
{
    if members.len() > 0 {
        let rest = members.drop_last();
        assert(forall|i: int| 0 <= i < rest.len() ==> rest[i] == members[i]);
        lemma_no_member_no_sum(rest, bucket);
        assert(members[members.len() - 1].bucket != bucket);
    }
}

/// Where every sum fits, the rate of each bucket stands for the sum of the
/// numbers that the rates of its members stand for, and no bucket is
/// listed twice.
pub proof fn lemma_totals_are_sums(members: Seq<BucketRate>)
    requires
        all_rates_wf(members),
        !some_overflow(members),
    ensures
        all_rates_wf(spec_totals(members)),
        forall|i: int|
            0 <= i < spec_totals(members).len() ==> (#[trigger] spec_totals(members)[i]).rate.value()
                == spec_rate_sum(members, spec_totals(members)[i].bucket),
        forall|i: int, j: int|
            0 <= i < j < spec_totals(members).len() ==> spec_totals(members)[i].bucket
                != spec_totals(members)[j].bucket,
{
    let keys = keys_of(members, bucket_key());
    let totals = spec_totals(members);
    lemma_keys_distinct(members, bucket_key());
    assert forall|i: int| 0 <= i < totals.len() implies (#[trigger] totals[i]).rate.wf()
        && totals[i].rate.value() == spec_rate_sum(members, totals[i].bucket) by {
        let bucket = keys[i];
        assert(keys.contains(bucket));
        lemma_keys_cover(members, bucket_key(), bucket);
        let j = choose|j: int| 0 <= j < members.len() && bucket_key()(#[trigger] members[j]) == bucket;
        assert(members[j].bucket == bucket);
        lemma_tally_value(members, bucket);
        assert(!(spec_tally(members, bucket) is Empty));
        assert(!(spec_tally(members, members[j].bucket) is Overflow));
    }
}

/// The bucket of a core.
pub fn bucket_of(cpu: u32, cores_per_bucket: u32) -> (bucket: u32)
    requires
        cores_per_bucket > 0,
    ensures
        bucket == spec_bucket_of(cpu, cores_per_bucket),
{
    cpu / cores_per_bucket
}

/// The rates of the CPU records of a window, each with the bucket of its
/// core.
pub fn member_rates(records: &Vec<Record>, cores_per_bucket: u32) -> (members: Vec<BucketRate>)
    requires
        cores_per_bucket > 0,
        all_wf(records@),
    ensures
        members@ == spec_members(records@, cores_per_bucket),
        all_rates_wf(members@),
{
    let mut members: Vec<BucketRate> = Vec::new();
    let n: usize = records.len();
    let mut k: usize = 0;
    while k < n
        invariant
            cores_per_bucket > 0,
            all_wf(records@),
            n == records@.len(),
            k <= n,
            members@ == spec_members(records@.take(k as int), cores_per_bucket),
            all_rates_wf(members@),
        decreases n - k,
    {
        proof {
            assert(records@.take(k + 1).drop_last() =~= records@.take(k as int));
            assert(records@[k as int].wf());
        }
        match records[k] {
            Record::Cpu { cpu, .. } => {
                match records[k].rate() {
                    Some(rate) => {
                        members.push(BucketRate { bucket: bucket_of(cpu, cores_per_bucket), rate });
                    },
                    None => {},
                }
            },
            _ => {},
        }
        k = k + 1;
    }
    proof {
        assert(records@.take(n as int) =~= records@);
    }
    members
}

fn find_bucket(cpus: &Vec<BucketRate>, bucket: u32) -> (found: Option<usize>)
    ensures
        found matches Some(i) ==> i < cpus@.len() && cpus@[i as int].bucket == bucket
            && forall|j: int| 0 <= j < i ==> (#[trigger] cpus@[j]).bucket != bucket,
        found is None ==> forall|i: int| 0 <= i < cpus@.len() ==> (#[trigger] cpus@[i]).bucket != bucket,
{
    let n: usize = cpus.len();
    let mut i: usize = 0;
    while i < n
        invariant
            n == cpus@.len(),
            i <= n,
            forall|j: int| 0 <= j < i ==> (#[trigger] cpus@[j]).bucket != bucket,
        decreases n - i,
    {
        if cpus[i].bucket == bucket {
            return Some(i);
        }
        i = i + 1;
    }
    None
}

/// `cpus` holds, for the members seen so far, one exact sum per bucket.
spec fn tallied(cpus: Seq<BucketRate>, members: Seq<BucketRate>) -> bool {
    let keys = keys_of(members, bucket_key());
    &&& cpus.len() == keys.len()
    &&& forall|i: int|
        0 <= i < cpus.len() ==> (#[trigger] cpus[i]).bucket == keys[i] && spec_tally(
            members,
            keys[i],
        ) == Tally::Total(cpus[i].rate) && cpus[i].rate.wf()
}

/// Adds up the member rates of each bucket.
pub fn bucket_totals(members: &Vec<BucketRate>) -> (totals: Result<Vec<BucketRate>, ProcessError>)
    requires
        all_rates_wf(members@),
    ensures
        totals matches Ok(cpus) ==> !some_overflow(members@) && cpus@ == spec_totals(members@)
            && all_rates_wf(cpus@),
        totals matches Err(e) ==> some_overflow(members@) && e == ProcessError::Overflow,
{
    let mut cpus: Vec<BucketRate> = Vec::new();
    let n: usize = members.len();
    let mut k: usize = 0;
    while k < n
        invariant
            all_rates_wf(members@),
            n == members@.len(),
            k <= n,
            tallied(cpus@, members@.take(k as int)),
        decreases n - k,
    {
        let m: BucketRate = members[k];
        let ghost seen = members@.take(k as int);
        let ghost before = cpus@;
        let ghost keys = keys_of(seen, bucket_key());
        proof {
            lemma_push(seen, m, bucket_key());
            lemma_keys_distinct(seen, bucket_key());
            lemma_keys_cover(seen, bucket_key(), m.bucket);
            assert(members@.take(k + 1) =~= seen.push(m));
            assert(seen.push(m).drop_last() =~= seen);
            assert(forall|i: int| 0 <= i < seen.len() ==> seen[i] == members@[i]);
            lemma_tally_value(seen, m.bucket);
        }
        match find_bucket(&cpus, m.bucket) {
            Some(idx) => {
                let sum: Option<Rate> = cpus[idx].rate.checked_add(&m.rate);
                match sum {
                    Some(rate) => {
                        cpus.set(idx, BucketRate { bucket: m.bucket, rate });
                        proof {
                            assert(keys.contains(m.bucket));
                            assert forall|i: int| 0 <= i < cpus@.len() implies (#[trigger] cpus@[i]).bucket
                                == keys[i] && spec_tally(seen.push(m), keys[i]) == Tally::Total(
                                cpus@[i].rate,
                            ) && cpus@[i].rate.wf() by {
                                if i != idx {
                                    assert(cpus@[i] == before[i]);
                                    assert(keys[i] != keys[idx as int]);
                                }
                            }
                        }
                    },
                    None => {
                        proof {
                            assert(spec_tally(seen.push(m), m.bucket) is Overflow);
                            lemma_overflow_stays(members@, k + 1, m.bucket);
                        }
                        return Err(ProcessError::Overflow);
                    },
                }
            },
            None => {
                cpus.push(m);
                proof {
                    assert(!keys.contains(m.bucket)) by {
                        if keys.contains(m.bucket) {
                            let i = choose|i: int| 0 <= i < keys.len() && keys[i] == m.bucket;
                            assert(before[i].bucket == m.bucket);
                        }
                    }
                    assert(spec_tally(seen, m.bucket) is Empty);
                    assert forall|i: int| 0 <= i < cpus@.len() implies (#[trigger] cpus@[i]).bucket
                        == keys.push(m.bucket)[i] && spec_tally(
                        seen.push(m),
                        keys.push(m.bucket)[i],
                    ) == Tally::Total(cpus@[i].rate) && cpus@[i].rate.wf() by {
                        if i < before.len() {
                            assert(cpus@[i] == before[i]);
                            assert(keys[i] != m.bucket);
                        }
                    }
                }
            },
        }
        k = k + 1;
    }
    proof {
        assert(members@.take(n as int) =~= members@);
        let keys = keys_of(members@, bucket_key());
        assert(!some_overflow(members@)) by {
            if some_overflow(members@) {
                let i = choose|i: int|
                    0 <= i < members@.len() && spec_tally(
                        members@,
                        (#[trigger] members@[i]).bucket,
                    ) is Overflow;
                lemma_keys_cover(members@, bucket_key(), members@[i].bucket);
                let j = choose|j: int| 0 <= j < keys.len() && keys[j] == members@[i].bucket;
                assert(cpus@[j].bucket == keys[j]);
            }
        }
        assert(cpus@ =~= spec_totals(members@));
    }
    Ok(cpus)
}

/// Adds up the rates of the CPU records of a window by core bucket.
pub fn extract_cpu_data(records: &Vec<Record>, cores_per_bucket: u32) -> (cpus: Result<
    Vec<BucketRate>,
    ProcessError,
>)
    requires
        cores_per_bucket > 0,
        all_wf(records@),
    ensures
        cpus matches Ok(v) ==> !some_overflow(spec_members(records@, cores_per_bucket)) && v@
            == spec_totals(spec_members(records@, cores_per_bucket)) && all_rates_wf(v@),
        cpus matches Ok(v) ==> forall|i: int|
            0 <= i < v@.len() ==> (#[trigger] v@[i]).rate.value() == spec_rate_sum(
                spec_members(records@, cores_per_bucket),
                v@[i].bucket,
            ),
        cpus matches Err(e) ==> some_overflow(spec_members(records@, cores_per_bucket)) && e
            == ProcessError::Overflow,
{
    let members: Vec<BucketRate> = member_rates(records, cores_per_bucket);
    let cpus = bucket_totals(&members);
    proof {
        if cpus is Ok {
            lemma_totals_are_sums(members@);
        }
    }
    cpus
}

/// The rate of `bucket` in `cpus`: that of the first entry for it.
pub open spec fn spec_lookup(cpus: Seq<BucketRate>, bucket: u32) -> Option<Rate>
    decreases cpus.len(),
{
    if cpus.len() == 0 {
        None
    } else {
        match spec_lookup(cpus.drop_last(), bucket) {
            Some(r) => Some(r),
            None => if cpus.last().bucket == bucket {
                Some(cpus.last().rate)
            } else {
                None
            },
        }
    }
}

/// What is found among the first `k` entries is found among all.
pub proof fn lemma_lookup_prefix(cpus: Seq<BucketRate>, k: int, bucket: u32)
    requires
        0 <= k <= cpus.len(),
        spec_lookup(cpus.take(k), bucket) is Some,
    ensures
        spec_lookup(cpus, bucket) == spec_lookup(cpus.take(k), bucket),
    decreases cpus.len() - k,
{
    if k < cpus.len() {
        assert(cpus.take(k + 1).drop_last() =~= cpus.take(k));
        lemma_lookup_prefix(cpus, k + 1, bucket);
    } else {
        assert(cpus.take(k) =~= cpus);
    }
}

/// The rate of `bucket` in `cpus`, if it has one.
pub fn lookup(cpus: &Vec<BucketRate>, bucket: u32) -> (rate: Option<Rate>)
    ensures
        rate == spec_lookup(cpus@, bucket),
        rate matches Some(r) ==> exists|i: int|
            0 <= i < cpus@.len() && (#[trigger] cpus@[i]).rate == r && cpus@[i].bucket == bucket,
{
    let n: usize = cpus.len();
    let mut i: usize = 0;
    while i < n
        invariant
            n == cpus@.len(),
            i <= n,
            spec_lookup(cpus@.take(i as int), bucket) is None,
        decreases n - i,
    {
        proof {
            assert(cpus@.take(i + 1).drop_last() =~= cpus@.take(i as int));
        }
        if cpus[i].bucket == bucket {
            proof {
                lemma_lookup_prefix(cpus@, i + 1, bucket);
            }
            return Some(cpus[i].rate);
        }
        i = i + 1;
    }
    proof {
        assert(cpus@.take(n as int) =~= cpus@);
    }
    None
}

/// What becomes of one record when the threads are accounted for.
pub enum Attribution {
    /// The record gives no activity.
    Dropped,
    /// The record gives this activity.
    Emitted(TaskActivity),
    /// The activity ratio does not fit.
    Overflow,
}

/// The activity that a record gives. Only a thread's record gives one,
/// and only where its own rate and the rate of its core's bucket are both
/// greater than zero: then the activity ratio is the thread's rate
/// divided by the bucket's.
pub open spec fn spec_attribute(
    record: Record,
    cpus: Seq<BucketRate>,
    cores_per_bucket: u32,
) -> Attribution {
    match record {
        Record::Task { start, end, id, cpu, .. } => match (
            record.spec_rate(),
            spec_lookup(cpus, spec_bucket_of(cpu, cores_per_bucket)),
        ) {
            (Some(task_rate), Some(cpu_rate)) => if task_rate.is_positive()
                && cpu_rate.is_positive() {
                match task_rate.spec_checked_div(cpu_rate) {
                    Some(activity) => Attribution::Emitted(
                        TaskActivity { start, end, id, cpu, activity },
                    ),
                    None => Attribution::Overflow,
                }
            } else {
                Attribution::Dropped
            },
            _ => Attribution::Dropped,
        },
        _ => Attribution::Dropped,
    }
}

/// The activities that the records of a window give, in the order of the
/// records, or `None` where one of the ratios does not fit.
pub open spec fn spec_account(
    records: Seq<Record>,
    cpus: Seq<BucketRate>,
    cores_per_bucket: u32,
) -> Option<Seq<TaskActivity>>
    decreases records.len(),
{
    if records.len() == 0 {
        Some(Seq::empty())
    } else {
        match spec_account(records.drop_last(), cpus, cores_per_bucket) {
            None => None,
            Some(rest) => match spec_attribute(records.last(), cpus, cores_per_bucket) {
                Attribution::Dropped => Some(rest),
                Attribution::Emitted(a) => Some(rest.push(a)),
                Attribution::Overflow => None,
            },
        }
    }
}

/// Every activity ratio in the sequence is a fraction of two positive
/// numbers, so greater than zero.
pub open spec fn all_positive(activities: Seq<TaskActivity>) -> bool {
    forall|i: int|
        0 <= i < activities.len() ==> (#[trigger] activities[i]).activity.wf()
            && activities[i].activity.value() > 0real
}

/// An emitted activity ratio is the thread's rate divided by the rate of
/// its core's bucket; both rates are greater than zero, and so is the
/// ratio.
pub proof fn lemma_attribute_value(record: Record, cpus: Seq<BucketRate>, cores_per_bucket: u32)
    requires
        record.wf(),
        all_rates_wf(cpus),
    ensures
        spec_attribute(record, cpus, cores_per_bucket) matches Attribution::Emitted(a) ==> {
            &&& record matches Record::Task { start, end, id, cpu, .. }
            &&& a.start == start && a.end == end && a.id == id && a.cpu == cpu
            &&& record.spec_rate() matches Some(task_rate)
            &&& spec_lookup(cpus, spec_bucket_of(cpu, cores_per_bucket)) matches Some(cpu_rate)
            &&& task_rate.value() > 0real
            &&& cpu_rate.value() > 0real
            &&& a.activity.wf()
            &&& a.activity.value() == task_rate.value() / cpu_rate.value()
            &&& a.activity.value() > 0real
        },
{
    if let Attribution::Emitted(a) = spec_attribute(record, cpus, cores_per_bucket) {
        let task_rate = record.spec_rate().unwrap();
        let cpu = record->Task_cpu;
        let cpu_rate = spec_lookup(cpus, spec_bucket_of(cpu, cores_per_bucket)).unwrap();
        lemma_lookup_wf(cpus, spec_bucket_of(cpu, cores_per_bucket));
        lemma_quotient_value(task_rate, cpu_rate);
        crate::rate::lemma_rate_sign(task_rate);
        crate::rate::lemma_rate_sign(cpu_rate);
    }
}

/// What is looked up among well-formed rates is well formed.
pub proof fn lemma_lookup_wf(cpus: Seq<BucketRate>, bucket: u32)
    requires
        all_rates_wf(cpus),
    ensures
        spec_lookup(cpus, bucket) matches Some(r) ==> r.wf(),
    decreases cpus.len(),
{
    if cpus.len() > 0 {
        assert(forall|i: int| 0 <= i < cpus.len() - 1 ==> cpus.drop_last()[i] == cpus[i]);
        lemma_lookup_wf(cpus.drop_last(), bucket);
        assert(cpus[cpus.len() - 1].rate.wf());
    }
}

/// Accounts for the threads of one window: each thread's record whose
/// rate is greater than zero, and whose core's bucket has a rate greater
/// than zero, gives the ratio of the two rates. Every other record is left
/// out.
pub fn account_tasks(records: &Vec<Record>, cpus: &Vec<BucketRate>, cores_per_bucket: u32) -> (tasks:
    Result<Vec<TaskActivity>, ProcessError>)
    requires
        cores_per_bucket > 0,
        all_wf(records@),
        all_rates_wf(cpus@),
    ensures
        tasks matches Ok(v) ==> spec_account(records@, cpus@, cores_per_bucket) == Some(v@)
            && all_positive(v@),
        tasks matches Err(e) ==> spec_account(records@, cpus@, cores_per_bucket) is None && e
            == ProcessError::Overflow,
{
    let mut tasks: Vec<TaskActivity> = Vec::new();
    if cpus.len() == 0 {
        proof {
            lemma_account_without_buckets(records@, cpus@, cores_per_bucket);
        }
        return Ok(tasks);
    }
    let n: usize = records.len();
    let mut k: usize = 0;
    while k < n
        invariant
            cores_per_bucket > 0,
            all_wf(records@),
            all_rates_wf(cpus@),
            n == records@.len(),
            k <= n,
            spec_account(records@.take(k as int), cpus@, cores_per_bucket) == Some(tasks@),
            all_positive(tasks@),
        decreases n - k,
    {
        let record: Record = records[k];
        proof {
            assert(records@.take(k + 1).drop_last() =~= records@.take(k as int));
            assert(records@[k as int].wf());
            lemma_attribute_value(record, cpus@, cores_per_bucket);
        }
        match record {
            Record::Task { start, end, id, cpu, .. } => {
                let task_rate: Option<Rate> = record.rate();
                let cpu_rate: Option<Rate> = lookup(cpus, bucket_of(cpu, cores_per_bucket));
                match (task_rate, cpu_rate) {
                    (Some(task_rate), Some(cpu_rate)) => {
                        if task_rate.is_positive() && cpu_rate.is_positive() {
                            proof {
                                lemma_lookup_wf(cpus@, spec_bucket_of(cpu, cores_per_bucket));
                            }
                            match task_rate.checked_div(&cpu_rate) {
                                Some(activity) => {
                                    tasks.push(TaskActivity { start, end, id, cpu, activity });
                                },
                                None => {
                                    proof {
                                        lemma_account_overflow_stays(
                                            records@,
                                            k + 1,
                                            cpus@,
                                            cores_per_bucket,
                                        );
                                    }
                                    return Err(ProcessError::Overflow);
                                },
                            }
                        }
                    },
                    _ => {},
                }
            },
            _ => {},
        }
        k = k + 1;
    }
    proof {
        assert(records@.take(n as int) =~= records@);
    }
    Ok(tasks)
}

/// Without any bucket rate no record gives an activity.
pub proof fn lemma_account_without_buckets(
    records: Seq<Record>,
    cpus: Seq<BucketRate>,
    cores_per_bucket: u32,
)
    requires
        cpus.len() == 0,
    ensures
        spec_account(records, cpus, cores_per_bucket) == Some(Seq::<TaskActivity>::empty()),
    decreases records.len(),
{
    if records.len() > 0 {
        lemma_account_without_buckets(records.drop_last(), cpus, cores_per_bucket);
    }
}

/// Once a ratio does not fit, the window has no result.
pub proof fn lemma_account_overflow_stays(
    records: Seq<Record>,
    k: int,
    cpus: Seq<BucketRate>,
    cores_per_bucket: u32,
)
    requires
        0 <= k <= records.len(),
        spec_account(records.take(k), cpus, cores_per_bucket) is None,
    ensures
        spec_account(records, cpus, cores_per_bucket) is None,
    decreases records.len() - k,
{
    if k < records.len() {
        assert(records.take(k + 1).drop_last() =~= records.take(k));
        lemma_account_overflow_stays(records, k + 1, cpus, cores_per_bucket);
    } else {
        assert(records.take(k) =~= records);
    }
}

} // verus!
