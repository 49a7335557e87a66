//! Records: what the counters of one entity gained between two
//! observations, and the rate that this amounts to.

use vstd::prelude::*;
use crate::rate::Rate;
use crate::sample::{EntityStat, Kind, Observation};

verus! {

/// What one entity's counters gained between two consecutive observations,
/// `start` and `end` being the timestamps of the two.
///
/// Every field but the timestamps and the keys is a difference, later value
/// minus earlier value. A counter that went backwards gives a negative
/// difference, which is kept as it is.
#[derive(Clone, Copy, Debug, PartialEq, Eq)]
pub enum Record {
    Task { start: u64, end: u64, id: u32, cpu: u32, user: i128, system: i128 },
    Cpu {
        start: u64,
        end: u64,
        cpu: u32,
        user: i128,
        nice: i128,
        system: i128,
        idle: i128,
        iowait: i128,
        irq: i128,
        softirq: i128,
        steal: i128,
        guest: i128,
        guest_nice: i128,
    },
    Energy { start: u64, end: u64, socket: u32, package: i128, dram: i128 },
}

/// `d` is the difference of two 64-bit counters.
pub open spec fn is_delta(d: i128) -> bool {
    -(u64::MAX as int) <= d <= u64::MAX as int
}

impl Record {
    /// The kind of series that the record belongs to.
    pub open spec fn spec_kind(&self) -> Kind {
        match *self {
            Record::Task { .. } => Kind::Task,
            Record::Cpu { .. } => Kind::Cpu,
            Record::Energy { .. } => Kind::Rapl,
        }
    }

    /// The timestamp of the earlier observation.
    pub open spec fn spec_start(&self) -> u64 {
        match *self {
            Record::Task { start, .. } => start,
            Record::Cpu { start, .. } => start,
            Record::Energy { start, .. } => start,
        }
    }

    /// The timestamp of the later observation.
    pub open spec fn spec_end(&self) -> u64 {
        match *self {
            Record::Task { end, .. } => end,
            Record::Cpu { end, .. } => end,
            Record::Energy { end, .. } => end,
        }
    }

    /// The entity that the record is about: thread, core or socket.
    pub open spec fn spec_entity(&self) -> u32 {
        match *self {
            Record::Task { id, .. } => id,
            Record::Cpu { cpu, .. } => cpu,
            Record::Energy { socket, .. } => socket,
        }
    }

    /// The record runs forward in time and each of its differences is one
    /// of two 64-bit counters.
    pub open spec fn wf(&self) -> bool {
        &&& self.spec_start() <= self.spec_end()
        &&& match *self {
            Record::Task { user, system, .. } => is_delta(user) && is_delta(system),
            Record::Cpu {
                user,
                nice,
                system,
                idle,
                iowait,
                irq,
                softirq,
                steal,
                guest,
                guest_nice,
                ..
            } => {
                &&& is_delta(user)
                &&& is_delta(nice)
                &&& is_delta(system)
                &&& is_delta(idle)
                &&& is_delta(iowait)
                &&& is_delta(irq)
                &&& is_delta(softirq)
                &&& is_delta(steal)
                &&& is_delta(guest)
                &&& is_delta(guest_nice)
            },
            Record::Energy { package, dram, .. } => is_delta(package) && is_delta(dram),
        }
    }

    /// Milliseconds between the two observations.
    pub open spec fn spec_elapsed(&self) -> int {
        self.spec_end() - self.spec_start()
    }

    /// The differences that count as activity, added up: for a core all
    /// but `idle` and `iowait`, for a thread `user` and `system`, for a
    /// socket every energy domain it carries.
    pub open spec fn spec_activity(&self) -> int {
        match *self {
            Record::Task { user, system, .. } => user + system,
            Record::Cpu { user, nice, system, irq, softirq, steal, guest, guest_nice, .. } => user
                + nice + system + irq + softirq + steal + guest + guest_nice,
            Record::Energy { package, dram, .. } => package + dram,
        }
    }

    /// The rate of the record, where it has one: activity over elapsed
    /// time. A record over no time has no rate.
    pub open spec fn spec_rate(&self) -> Option<Rate> {
        if self.spec_elapsed() > 0 {
            Some(Rate { amount: self.spec_activity() as i128, millis: self.spec_elapsed() as u128 })
        } else {
            None
        }
    }

    /// The timestamp of the earlier observation.
    #[verifier::when_used_as_spec(spec_start)]
    pub fn start(&self) -> (t: u64)
        ensures
            t == self.spec_start(),
    {
        match self {
            Record::Task { start, .. } => *start,
            Record::Cpu { start, .. } => *start,
            Record::Energy { start, .. } => *start,
        }
    }

    /// The timestamp of the later observation.
    #[verifier::when_used_as_spec(spec_end)]
    pub fn end(&self) -> (t: u64)
        ensures
            t == self.spec_end(),
    {
        match self {
            Record::Task { end, .. } => *end,
            Record::Cpu { end, .. } => *end,
            Record::Energy { end, .. } => *end,
        }
    }

    /// The activity of the record per millisecond.
    pub fn rate(&self) -> (r: Option<Rate>)
        requires
            self.wf(),
        ensures
            r == self.spec_rate(),
            r is Some <==> self.spec_elapsed() > 0,
            r matches Some(x) ==> x.wf() && x.amount == self.spec_activity() && x.millis
                == self.spec_elapsed() && x.value() == self.spec_activity() as real
                / self.spec_elapsed() as real,
    {
        let start: u64 = self.start();
        let end: u64 = self.end();
        if end <= start {
            return None;
        }
        let amount: i128 = match self {
            Record::Task { user, system, .. } => *user + *system,
            Record::Cpu { user, nice, system, irq, softirq, steal, guest, guest_nice, .. } => *user
                + *nice + *system + *irq + *softirq + *steal + *guest + *guest_nice,
            Record::Energy { package, dram, .. } => *package + *dram,
        };
        Some(Rate { amount, millis: (end - start) as u128 })
    }
}

/// Every record in the sequence is well formed.
pub open spec fn all_wf(records: Seq<Record>) -> bool {
    forall|i: int| 0 <= i < records.len() ==> (#[trigger] records[i]).wf()
}

/// The difference of two 64-bit counters, later minus earlier.
pub open spec fn spec_delta(earlier: u64, later: u64) -> i128 {
    (later - earlier) as i128
}

fn delta(earlier: u64, later: u64) -> (d: i128)
    ensures
        d == later - earlier,
        d == spec_delta(earlier, later),
        is_delta(d),
{
    later as i128 - earlier as i128
}

impl Observation {
    /// What `self - later` is: the record from `self` to `later`, where the
    /// two are points of one series in this order.
    pub open spec fn spec_sub(self, later: Observation) -> Option<Record> {
        if self.timestamp > later.timestamp {
            None
        } else {
            match (self.stat, later.stat) {
                (EntityStat::Task(s1), EntityStat::Task(s2)) => if s1.task_id != s2.task_id {
                    None
                } else {
                    Some(
                        Record::Task {
                            start: self.timestamp,
                            end: later.timestamp,
                            id: s1.task_id,
                            cpu: s1.last_cpu,
                            user: spec_delta(s1.user, s2.user),
                            system: spec_delta(s1.system, s2.system),
                        },
                    )
                },
                (EntityStat::Cpu(s1), EntityStat::Cpu(s2)) => if s1.core_id != s2.core_id {
                    None
                } else {
                    Some(
                        Record::Cpu {
                            start: self.timestamp,
                            end: later.timestamp,
                            cpu: s1.core_id,
                            user: spec_delta(s1.user, s2.user),
                            nice: spec_delta(s1.nice, s2.nice),
                            system: spec_delta(s1.system, s2.system),
                            idle: spec_delta(s1.idle, s2.idle),
                            iowait: spec_delta(s1.iowait, s2.iowait),
                            irq: spec_delta(s1.irq, s2.irq),
                            softirq: spec_delta(s1.softirq, s2.softirq),
                            steal: spec_delta(s1.steal, s2.steal),
                            guest: spec_delta(s1.guest, s2.guest),
                            guest_nice: spec_delta(s1.guest_nice, s2.guest_nice),
                        },
                    )
                },
                (EntityStat::Rapl(s1), EntityStat::Rapl(s2)) => if s1.socket_id != s2.socket_id {
                    None
                } else {
                    Some(
                        Record::Energy {
                            start: self.timestamp,
                            end: later.timestamp,
                            socket: s1.socket_id,
                            package: spec_delta(s1.package_uj, s2.package_uj),
                            dram: spec_delta(s1.dram_uj, s2.dram_uj),
                        },
                    )
                },
                _ => None,
            }
        }
    }

    /// The record from `self` to `later`: each counter of `later` minus the
    /// same counter of `self`. There is none where the two are of different
    /// kinds or entities, or where `later` is the earlier of the two.
    pub fn sub(&self, later: &Observation) -> (record: Option<Record>)
        ensures
            record == self.spec_sub(*later),
            record is Some <==> self.kind() == later.kind() && self.entity() == later.entity()
                && self.timestamp <= later.timestamp,
            record matches Some(r) ==> r.wf() && r.spec_kind() == self.kind() && r.spec_entity()
                == self.entity() && r.spec_start() == self.timestamp && r.spec_end()
                == later.timestamp,
    {
        if self.timestamp > later.timestamp {
            return None;
        }
        match (self.stat, later.stat) {
            (EntityStat::Task(s1), EntityStat::Task(s2)) => {
                if s1.task_id != s2.task_id {
                    return None;
                }
                Some(
                    Record::Task {
                        start: self.timestamp,
                        end: later.timestamp,
                        id: s1.task_id,
                        cpu: s1.last_cpu,
                        user: delta(s1.user, s2.user),
                        system: delta(s1.system, s2.system),
                    },
                )
            },
            (EntityStat::Cpu(s1), EntityStat::Cpu(s2)) => {
                if s1.core_id != s2.core_id {
                    return None;
                }
                Some(
                    Record::Cpu {
                        start: self.timestamp,
                        end: later.timestamp,
                        cpu: s1.core_id,
                        user: delta(s1.user, s2.user),
                        nice: delta(s1.nice, s2.nice),
                        system: delta(s1.system, s2.system),
                        idle: delta(s1.idle, s2.idle),
                        iowait: delta(s1.iowait, s2.iowait),
                        irq: delta(s1.irq, s2.irq),
                        softirq: delta(s1.softirq, s2.softirq),
                        steal: delta(s1.steal, s2.steal),
                        guest: delta(s1.guest, s2.guest),
                        guest_nice: delta(s1.guest_nice, s2.guest_nice),
                    },
                )
            },
            (EntityStat::Rapl(s1), EntityStat::Rapl(s2)) => {
                if s1.socket_id != s2.socket_id {
                    return None;
                }
                Some(
                    Record::Energy {
                        start: self.timestamp,
                        end: later.timestamp,
                        socket: s1.socket_id,
                        package: delta(s1.package_uj, s2.package_uj),
                        dram: delta(s1.dram_uj, s2.dram_uj),
                    },
                )
            },
            _ => None,
        }
    }
}

/// Between two observations of one entity, the earlier one first, there is
/// a record, and each of its fields is the later counter minus the earlier
/// one. Between observations of different kinds or entities, or with the
/// later one first, there is none.
pub proof fn lemma_sub_is_difference(earlier: Observation, later: Observation)
    ensures
        earlier.spec_sub(later) is Some <==> earlier.spec_kind() == later.spec_kind()
            && earlier.spec_entity() == later.spec_entity() && earlier.timestamp
            <= later.timestamp,
        earlier.spec_sub(later) matches Some(Record::Cpu {
            start,
            end,
            cpu,
            user,
            nice,
            system,
            idle,
            iowait,
            irq,
            softirq,
            steal,
            guest,
            guest_nice,
        }) ==> {
            &&& earlier.stat matches EntityStat::Cpu(s1)
            &&& later.stat matches EntityStat::Cpu(s2)
            &&& start == earlier.timestamp && end == later.timestamp && cpu == s1.core_id
            &&& user == s2.user - s1.user
            &&& nice == s2.nice - s1.nice
            &&& system == s2.system - s1.system
            &&& idle == s2.idle - s1.idle
            &&& iowait == s2.iowait - s1.iowait
            &&& irq == s2.irq - s1.irq
            &&& softirq == s2.softirq - s1.softirq
            &&& steal == s2.steal - s1.steal
            &&& guest == s2.guest - s1.guest
            &&& guest_nice == s2.guest_nice - s1.guest_nice
        },
        earlier.spec_sub(later) matches Some(Record::Task { start, end, id, cpu, user, system })
            ==> {
            &&& earlier.stat matches EntityStat::Task(s1)
            &&& later.stat matches EntityStat::Task(s2)
            &&& start == earlier.timestamp && end == later.timestamp
            &&& id == s1.task_id && cpu == s1.last_cpu
            &&& user == s2.user - s1.user
            &&& system == s2.system - s1.system
        },
        earlier.spec_sub(later) matches Some(Record::Energy { start, end, socket, package, dram })
            ==> {
            &&& earlier.stat matches EntityStat::Rapl(s1)
            &&& later.stat matches EntityStat::Rapl(s2)
            &&& start == earlier.timestamp && end == later.timestamp && socket == s1.socket_id
            &&& package == s2.package_uj - s1.package_uj
            &&& dram == s2.dram_uj - s1.dram_uj
        },
        earlier.spec_sub(later) matches Some(r) ==> r.wf(),
{
}

/// A counter that went backwards gives a negative difference: it is
/// neither cut off at zero nor wrapped around.
pub proof fn lemma_backward_counter_kept(earlier: u64, later: u64)
    ensures
        spec_delta(earlier, later) == later - earlier,
        later < earlier ==> spec_delta(earlier, later) < 0,
        is_delta(spec_delta(earlier, later)),
{
}

/// A record has a rate exactly when time went by between its two
/// observations, and the rate is then its activity divided by the
/// milliseconds that went by.
pub proof fn lemma_rate_is_activity_over_time(record: Record)
    requires
        record.wf(),
    ensures
        record.spec_rate() is Some <==> record.spec_elapsed() > 0,
        record.spec_rate() matches Some(rate) ==> rate.wf() && rate.value()
            == record.spec_activity() as real / record.spec_elapsed() as real,
{
}

} // verus!
