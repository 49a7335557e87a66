//! The data set: the samples of a session grouped by kind, each kind in the
//! order in which its samples were collected.

use vstd::prelude::*;
use crate::sample::{CpuSample, RaplSample, Sample, TaskSample};

verus! {

/// The samples of a session, by kind.
#[derive(Clone, Debug, PartialEq, Eq)]
pub struct DataSet {
    pub cpu: Vec<CpuSample>,
    pub task: Vec<TaskSample>,
    pub rapl: Vec<RaplSample>,
}

/// The CPU samples among `samples`, in order.
pub open spec fn spec_cpu_samples(samples: Seq<Sample>) -> Seq<CpuSample>
    decreases samples.len(),
{
    if samples.len() == 0 {
        Seq::empty()
    } else {
        let rest = spec_cpu_samples(samples.drop_last());
        match samples.last() {
            Sample::Cpu(s) => rest.push(s),
            _ => rest,
        }
    }
}

/// The task samples among `samples`, in order.
pub open spec fn spec_task_samples(samples: Seq<Sample>) -> Seq<TaskSample>
    decreases samples.len(),
{
    if samples.len() == 0 {
        Seq::empty()
    } else {
        let rest = spec_task_samples(samples.drop_last());
        match samples.last() {
            Sample::Task(s) => rest.push(s),
            _ => rest,
        }
    }
}

/// The energy samples among `samples`, in order.
pub open spec fn spec_rapl_samples(samples: Seq<Sample>) -> Seq<RaplSample>
    decreases samples.len(),
{
    if samples.len() == 0 {
        Seq::empty()
    } else {
        let rest = spec_rapl_samples(samples.drop_last());
        match samples.last() {
            Sample::Rapl(s) => rest.push(s),
            _ => rest,
        }
    }
}

/// Grouping by kind loses nothing and adds nothing: the three groups
/// together hold as many samples as there were.
pub proof fn lemma_groups_partition(samples: Seq<Sample>)
    ensures
        spec_cpu_samples(samples).len() + spec_task_samples(samples).len() + spec_rapl_samples(
            samples,
        ).len() == samples.len(),
    decreases samples.len(),
{
    if samples.len() > 0 {
        lemma_groups_partition(samples.drop_last());
    }
}

impl DataSet {
    /// The data set holds exactly `samples`, grouped by kind.
    pub open spec fn holds(&self, samples: Seq<Sample>) -> bool {
        &&& self.cpu@ == spec_cpu_samples(samples)
        &&& self.task@ == spec_task_samples(samples)
        &&& self.rapl@ == spec_rapl_samples(samples)
    }

    /// The number of samples in the data set.
    pub open spec fn spec_len(&self) -> nat {
        self.cpu@.len() + self.task@.len() + self.rapl@.len()
    }

    /// A data set without samples.
    pub fn new() -> (data: DataSet)
        ensures
            data.holds(Seq::empty()),
            data.spec_len() == 0,
    {
        DataSet { cpu: Vec::new(), task: Vec::new(), rapl: Vec::new() }
    }

    /// Whether the data set holds no sample at all.
    pub fn is_empty(&self) -> (empty: bool)
        ensures
            empty <==> self.spec_len() == 0,
    {
        self.cpu.len() == 0 && self.rapl.len() == 0 && self.task.len() == 0
    }

    /// Groups the samples of a session by kind. Within each kind the
    /// samples stay in the order in which they were collected.
    pub fn from_samples(samples: Vec<Sample>) -> (data: DataSet)
        ensures
            data.holds(samples@),
            data.spec_len() == samples@.len(),
    {
        let mut data = DataSet::new();
        let ghost all = samples@;
        for sample in it: samples
            invariant
                it.seq() == all,
                data.holds(all.take(it.index() as int)),
        {
            proof {
                assert(all.take(it.index() + 1).drop_last() =~= all.take(it.index() as int));
            }
            match sample {
                Sample::Cpu(s) => {
                    data.cpu.push(s);
                },
                Sample::Task(s) => {
                    data.task.push(s);
                },
                Sample::Rapl(s) => {
                    data.rapl.push(s);
                },
            }
        }
        proof {
            assert(all.take(all.len() as int) =~= all);
            lemma_groups_partition(all);
        }
        data
    }
}

} // verus!
