//! The data model: cumulative counter readings as they come from the three
//! counter sources, and the samples that carry them.

use vstd::prelude::*;

verus! {

/// Cumulative CPU time of one logical core, in jiffies since boot.
#[derive(Clone, Copy, Debug, PartialEq, Eq)]
pub struct CpuStat {
    pub core_id: u32,
    pub user: u64,
    pub nice: u64,
    pub system: u64,
    pub idle: u64,
    pub iowait: u64,
    pub irq: u64,
    pub softirq: u64,
    pub steal: u64,
    pub guest: u64,
    pub guest_nice: u64,
}

/// Cumulative CPU time of one thread of the monitored process, and the core
/// it last ran on.
#[derive(Clone, Copy, Debug, PartialEq, Eq)]
pub struct TaskStat {
    pub task_id: u32,
    pub last_cpu: u32,
    pub user: u64,
    pub system: u64,
}

/// Cumulative energy counters of one socket, in microjoules.
#[derive(Clone, Copy, Debug, PartialEq, Eq)]
pub struct RaplReading {
    pub socket_id: u32,
    pub package_uj: u64,
    pub dram_uj: u64,
}

/// One reading of every core, taken at `timestamp` (milliseconds).
#[derive(Clone, Debug, PartialEq, Eq)]
pub struct CpuSample {
    pub timestamp: u64,
    pub stats: Vec<CpuStat>,
}

/// One reading of every thread of the monitored process.
#[derive(Clone, Debug, PartialEq, Eq)]
pub struct TaskSample {
    pub timestamp: u64,
    pub stats: Vec<TaskStat>,
}

/// One reading of every socket whose energy counters could be read.
#[derive(Clone, Debug, PartialEq, Eq)]
pub struct RaplSample {
    pub timestamp: u64,
    pub readings: Vec<RaplReading>,
}

/// What a counter source returns: exactly one of the three kinds of reading.
#[derive(Clone, Debug, PartialEq, Eq)]
pub enum Sample {
    Cpu(CpuSample),
    Task(TaskSample),
    Rapl(RaplSample),
}

/// The three kinds of counter series.
#[derive(Clone, Copy, Debug, PartialEq, Eq, Structural)]
pub enum Kind {
    Cpu,
    Task,
    Rapl,
}

/// The counters of one entity (a core, a thread, a socket).
#[derive(Clone, Copy, Debug, PartialEq, Eq)]
pub enum EntityStat {
    Cpu(CpuStat),
    Task(TaskStat),
    Rapl(RaplReading),
}

/// One point of one entity's series: its counters at `timestamp`.
#[derive(Clone, Copy, Debug, PartialEq, Eq)]
pub struct Observation {
    pub timestamp: u64,
    pub stat: EntityStat,
}

/// Why a counter source produced no sample.
#[derive(Clone, Debug, PartialEq, Eq)]
pub struct SamplingError {
    pub message: String,
}

/// No two entries of `ids` are equal.
pub open spec fn distinct(ids: Seq<u32>) -> bool {
    forall|i: int, j: int| 0 <= i < j < ids.len() ==> ids[i] != ids[j]
}

impl CpuSample {
    /// The core ids of the sample, in order.
    pub open spec fn ids(&self) -> Seq<u32> {
        Seq::new(self.stats@.len(), |i: int| self.stats@[i].core_id)
    }

    /// Every core occurs at most once.
    pub open spec fn wf(&self) -> bool {
        distinct(self.ids())
    }
}

impl TaskSample {
    /// The thread ids of the sample, in order.
    pub open spec fn ids(&self) -> Seq<u32> {
        Seq::new(self.stats@.len(), |i: int| self.stats@[i].task_id)
    }

    /// Every thread occurs at most once.
    pub open spec fn wf(&self) -> bool {
        distinct(self.ids())
    }
}

impl RaplSample {
    /// The socket ids of the sample, in order.
    pub open spec fn ids(&self) -> Seq<u32> {
        Seq::new(self.readings@.len(), |i: int| self.readings@[i].socket_id)
    }

    /// Every socket occurs at most once.
    pub open spec fn wf(&self) -> bool {
        distinct(self.ids())
    }
}

impl EntityStat {
    /// Which of the three kinds the counters are of.
    pub open spec fn spec_kind(&self) -> Kind {
        match *self {
            EntityStat::Cpu(_) => Kind::Cpu,
            EntityStat::Task(_) => Kind::Task,
            EntityStat::Rapl(_) => Kind::Rapl,
        }
    }

    /// The entity key: the core id, the thread id or the socket id.
    pub open spec fn spec_entity(&self) -> u32 {
        match *self {
            EntityStat::Cpu(s) => s.core_id,
            EntityStat::Task(s) => s.task_id,
            EntityStat::Rapl(s) => s.socket_id,
        }
    }
}

impl Observation {
    /// Which of the three kinds the observation is of.
    pub open spec fn spec_kind(&self) -> Kind {
        self.stat.spec_kind()
    }

    /// The entity key: the core id, the thread id or the socket id.
    pub open spec fn spec_entity(&self) -> u32 {
        self.stat.spec_entity()
    }

    /// Which of the three kinds of series this point belongs to.
    #[verifier::when_used_as_spec(spec_kind)]
    pub fn kind(&self) -> (k: Kind)
        ensures
            k == self.spec_kind(),
    {
        match self.stat {
            EntityStat::Cpu(_) => Kind::Cpu,
            EntityStat::Task(_) => Kind::Task,
            EntityStat::Rapl(_) => Kind::Rapl,
        }
    }

    /// The entity key: the core id, the thread id or the socket id.
    #[verifier::when_used_as_spec(spec_entity)]
    pub fn entity(&self) -> (e: u32)
        ensures
            e == self.spec_entity(),
    {
        match self.stat {
            EntityStat::Cpu(s) => s.core_id,
            EntityStat::Task(s) => s.task_id,
            EntityStat::Rapl(s) => s.socket_id,
        }
    }

    /// When the observation was taken.
    pub fn get_timestamp(&self) -> (t: u64)
        ensures
            t == self.timestamp,
    {
        self.timestamp
    }
}

impl Sample {
    /// Which of the three kinds the sample is of.
    pub open spec fn spec_kind(&self) -> Kind {
        match *self {
            Sample::Cpu(_) => Kind::Cpu,
            Sample::Task(_) => Kind::Task,
            Sample::Rapl(_) => Kind::Rapl,
        }
    }

    /// When the sample was taken.
    pub open spec fn spec_timestamp(&self) -> u64 {
        match *self {
            Sample::Cpu(s) => s.timestamp,
            Sample::Task(s) => s.timestamp,
            Sample::Rapl(s) => s.timestamp,
        }
    }

    /// The entity keys of the sample, in order.
    pub open spec fn ids(&self) -> Seq<u32> {
        match *self {
            Sample::Cpu(s) => s.ids(),
            Sample::Task(s) => s.ids(),
            Sample::Rapl(s) => s.ids(),
        }
    }

    /// Every entity occurs at most once in the sample.
    pub open spec fn wf(&self) -> bool {
        distinct(self.ids())
    }

    /// The sample taken apart: one observation per entity, in the sample's
    /// order, each with the sample's timestamp.
    pub open spec fn spec_observations(&self) -> Seq<Observation> {
        match *self {
            Sample::Cpu(s) => Seq::new(
                s.stats@.len(),
                |i: int| Observation { timestamp: s.timestamp, stat: EntityStat::Cpu(s.stats@[i]) },
            ),
            Sample::Task(s) => Seq::new(
                s.stats@.len(),
                |i: int| Observation { timestamp: s.timestamp, stat: EntityStat::Task(s.stats@[i]) },
            ),
            Sample::Rapl(s) => Seq::new(
                s.readings@.len(),
                |i: int|
                    Observation { timestamp: s.timestamp, stat: EntityStat::Rapl(s.readings@[i]) },
            ),
        }
    }

    /// Which of the three kinds the sample is of.
    #[verifier::when_used_as_spec(spec_kind)]
    pub fn kind(&self) -> (k: Kind)
        ensures
            k == self.spec_kind(),
    {
        match self {
            Sample::Cpu(_) => Kind::Cpu,
            Sample::Task(_) => Kind::Task,
            Sample::Rapl(_) => Kind::Rapl,
        }
    }

    /// When the sample was taken.
    pub fn get_timestamp(&self) -> (t: u64)
        ensures
            t == self.spec_timestamp(),
    {
        match self {
            Sample::Cpu(s) => s.timestamp,
            Sample::Task(s) => s.timestamp,
            Sample::Rapl(s) => s.timestamp,
        }
    }

    /// Takes the sample apart into one observation per entity.
    pub fn observations(&self) -> (points: Vec<Observation>)
        ensures
            points@ == self.spec_observations(),
    {
        let mut points: Vec<Observation> = Vec::new();
        match self {
            Sample::Cpu(s) => {
                let n: usize = s.stats.len();
                let mut i: usize = 0;
                while i < n
                    invariant
                        n == s.stats@.len(),
                        i <= n,
                        points@.len() == i,
                        forall|j: int|
                            0 <= j < i ==> points@[j] == (Observation {
                                timestamp: s.timestamp,
                                stat: EntityStat::Cpu(s.stats@[j]),
                            }),
                    decreases n - i,
                {
                    points.push(Observation { timestamp: s.timestamp, stat: EntityStat::Cpu(s.stats[i]) });
                    i = i + 1;
                }
            },
            Sample::Task(s) => {
                let n: usize = s.stats.len();
                let mut i: usize = 0;
                while i < n
                    invariant
                        n == s.stats@.len(),
                        i <= n,
                        points@.len() == i,
                        forall|j: int|
                            0 <= j < i ==> points@[j] == (Observation {
                                timestamp: s.timestamp,
                                stat: EntityStat::Task(s.stats@[j]),
                            }),
                    decreases n - i,
                {
                    points.push(Observation { timestamp: s.timestamp, stat: EntityStat::Task(s.stats[i]) });
                    i = i + 1;
                }
            },
            Sample::Rapl(s) => {
                let n: usize = s.readings.len();
                let mut i: usize = 0;
                while i < n
                    invariant
                        n == s.readings@.len(),
                        i <= n,
                        points@.len() == i,
                        forall|j: int|
                            0 <= j < i ==> points@[j] == (Observation {
                                timestamp: s.timestamp,
                                stat: EntityStat::Rapl(s.readings@[j]),
                            }),
                    decreases n - i,
                {
                    points.push(
                        Observation { timestamp: s.timestamp, stat: EntityStat::Rapl(s.readings[i]) },
                    );
                    i = i + 1;
                }
            },
        }
        points
    }
}

} // verus!
