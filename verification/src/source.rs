//! The counter sources: what is made of a raw reading of the operating
//! system's counters. Reading the counters is the caller's part. The caller
//! hands in what was read, or that nothing could be read, and the time of
//! the reading.

use vstd::prelude::*;
use crate::parse::{parse_rapl_energy, spec_parse_u64, spec_trim};
use crate::sample::{
    distinct, CpuSample, CpuStat, RaplReading, RaplSample, Sample, SamplingError, TaskSample,
    TaskStat,
};

verus! {

/// The time counters of one core as the kernel's table has them. The
/// counters that older kernels lack are optional.
#[derive(Clone, Copy, Debug, PartialEq, Eq)]
pub struct CpuTime {
    pub user: u64,
    pub nice: u64,
    pub system: u64,
    pub idle: u64,
    pub iowait: Option<u64>,
    pub irq: Option<u64>,
    pub softirq: Option<u64>,
    pub steal: Option<u64>,
    pub guest: Option<u64>,
    pub guest_nice: Option<u64>,
}

/// The status of one thread as the kernel reports it.
#[derive(Clone, Copy, Debug, PartialEq, Eq)]
pub struct ThreadStat {
    pub pid: i32,
    pub processor: Option<i32>,
    pub utime: u64,
    pub stime: u64,
}

/// The contents of the two energy counter files of one socket, each where
/// it could be read.
#[derive(Clone, Debug, PartialEq, Eq)]
pub struct SocketFiles {
    pub package: Option<String>,
    pub dram: Option<String>,
}

/// The message of a failed reading of the kernel's tables.
pub open spec fn proc_failure() -> Seq<char> {
    "there was an error with proc"@
}

/// The message of a failed reading of the energy counters.
pub open spec fn powercap_failure() -> Seq<char> {
    "there was an error reading /sys/class/powercap"@
}

/// A counter that is not there counts as zero.
pub open spec fn spec_or_zero(counter: Option<u64>) -> u64 {
    match counter {
        Some(c) => c,
        None => 0,
    }
}

fn or_zero(counter: Option<u64>) -> (c: u64)
    ensures
        c == spec_or_zero(counter),
{
    match counter {
        Some(c) => c,
        None => 0,
    }
}

/// The counters of core `core_id`.
pub open spec fn spec_cpu_stat(core_id: u32, time: CpuTime) -> CpuStat {
    CpuStat {
        core_id,
        user: time.user,
        nice: time.nice,
        system: time.system,
        idle: time.idle,
        iowait: spec_or_zero(time.iowait),
        irq: spec_or_zero(time.irq),
        softirq: spec_or_zero(time.softirq),
        steal: spec_or_zero(time.steal),
        guest: spec_or_zero(time.guest),
        guest_nice: spec_or_zero(time.guest_nice),
    }
}

/// Makes the counters of core `core_id` from the kernel's table entry.
pub fn cpu_stat_from_time(core_id: u32, time: &CpuTime) -> (stat: CpuStat)
    ensures
        stat == spec_cpu_stat(core_id, *time),
{
    CpuStat {
        core_id,
        user: time.user,
        nice: time.nice,
        system: time.system,
        idle: time.idle,
        iowait: or_zero(time.iowait),
        irq: or_zero(time.irq),
        softirq: or_zero(time.softirq),
        steal: or_zero(time.steal),
        guest: or_zero(time.guest),
        guest_nice: or_zero(time.guest_nice),
    }
}

/// The counters of a thread. Where the kernel does not say on which core
/// the thread ran last, core and times are zero.
pub open spec fn spec_task_stat(stat: ThreadStat) -> TaskStat {
    match stat.processor {
        Some(cpu) => TaskStat {
            task_id: stat.pid as u32,
            last_cpu: cpu as u32,
            user: stat.utime,
            system: stat.stime,
        },
        None => TaskStat { task_id: stat.pid as u32, last_cpu: 0, user: 0, system: 0 },
    }
}

/// Makes the counters of a thread from the kernel's status of it.
pub fn task_stat_from_thread(stat: &ThreadStat) -> (task: TaskStat)
    ensures
        task == spec_task_stat(*stat),
{
    let task_id: u32 = #[verifier::truncate]
    (stat.pid as u32);
    match stat.processor {
        Some(cpu) => TaskStat {
            task_id,
            last_cpu: #[verifier::truncate]
            (cpu as u32),
            user: stat.utime,
            system: stat.stime,
        },
        None => TaskStat { task_id, last_cpu: 0, user: 0, system: 0 },
    }
}

/// The CPU sample that is made of the kernel's table of cores: the cores
/// are numbered in the order of the table.
pub open spec fn spec_cpu_stats(times: Seq<CpuTime>) -> Seq<CpuStat> {
    Seq::new(times.len(), |i: int| spec_cpu_stat(i as u32, times[i]))
}

/// The task sample that is made of the kernel's list of threads.
pub open spec fn spec_task_stats(threads: Seq<ThreadStat>) -> Seq<TaskStat> {
    Seq::new(threads.len(), |i: int| spec_task_stat(threads[i]))
}

/// The ids of the threads, in the order of the list.
pub open spec fn spec_thread_ids(threads: Seq<ThreadStat>) -> Seq<u32> {
    Seq::new(threads.len(), |i: int| threads[i].pid as u32)
}

/// Makes a CPU sample of one reading of the kernel's table of cores, taken
/// at `timestamp`. `reading` is `None` where the table could not be read:
/// only then is there no sample.
pub fn sample_cpus(reading: Option<Vec<CpuTime>>, timestamp: u64) -> (sample: Result<
    Sample,
    SamplingError,
>)
    requires
        reading matches Some(times) ==> times@.len() <= u32::MAX,
    ensures
        reading is None ==> sample is Err && sample->Err_0.message@ == proc_failure(),
        reading matches Some(times) ==> {
            &&& sample matches Ok(Sample::Cpu(s))
            &&& s.timestamp == timestamp
            &&& s.stats@ == spec_cpu_stats(times@)
            &&& s.wf()
        },
{
    match reading {
        Some(times) => {
            let mut stats: Vec<CpuStat> = Vec::new();
            let n: usize = times.len();
            let mut i: usize = 0;
            while i < n
                invariant
                    n == times@.len(),
                    n <= u32::MAX,
                    i <= n,
                    stats@.len() == i,
                    forall|j: int|
                        0 <= j < i ==> #[trigger] stats@[j] == spec_cpu_stat(j as u32, times@[j]),
                decreases n - i,
            {
                stats.push(cpu_stat_from_time(i as u32, &times[i]));
                i = i + 1;
            }
            let s = CpuSample { timestamp, stats };
            proof {
                assert(s.stats@ =~= spec_cpu_stats(times@));
                assert forall|i: int, j: int| 0 <= i < j < s.ids().len() implies s.ids()[i]
                    != s.ids()[j] by {
                    assert(s.stats@[i].core_id == i as u32);
                    assert(s.stats@[j].core_id == j as u32);
                }
            }
            Ok(Sample::Cpu(s))
        },
        None => Err(SamplingError { message: "there was an error with proc".to_owned() }),
    }
}

/// Makes a task sample of one reading of the threads of the process,
/// taken at `timestamp`. `reading` is `None` where the process could not
/// be looked into, as when it has ended: only then is there no sample.
/// The sample is well formed where the kernel lists no thread twice.
pub fn sample_tasks(reading: Option<Vec<ThreadStat>>, timestamp: u64) -> (sample: Result<
    Sample,
    SamplingError,
>)
    ensures
        reading is None ==> sample is Err && sample->Err_0.message@ == proc_failure(),
        reading matches Some(threads) ==> {
            &&& sample matches Ok(Sample::Task(s))
            &&& s.timestamp == timestamp
            &&& s.stats@ == spec_task_stats(threads@)
            &&& s.wf() <==> distinct(spec_thread_ids(threads@))
        },
{
    match reading {
        Some(threads) => {
            let mut stats: Vec<TaskStat> = Vec::new();
            let n: usize = threads.len();
            let mut i: usize = 0;
            while i < n
                invariant
                    n == threads@.len(),
                    i <= n,
                    stats@.len() == i,
                    forall|j: int| 0 <= j < i ==> #[trigger] stats@[j] == spec_task_stat(threads@[j]),
                decreases n - i,
            {
                stats.push(task_stat_from_thread(&threads[i]));
                i = i + 1;
            }
            let s = TaskSample { timestamp, stats };
            proof {
                assert(s.stats@ =~= spec_task_stats(threads@));
                assert(s.ids() =~= spec_thread_ids(threads@));
            }
            Ok(Sample::Task(s))
        },
        None => Err(SamplingError { message: "there was an error with proc".to_owned() }),
    }
}

/// The number in a counter file, where the file could be read and holds
/// one.
pub open spec fn spec_energy(content: Option<String>) -> Option<u64> {
    match content {
        Some(text) => spec_parse_u64(spec_trim(vstd::utf8::encode_utf8(text@))),
        None => None,
    }
}

/// The reading of socket `socket`: there is one where both of its
/// counters could be read.
pub open spec fn spec_read_socket(socket: u32, files: SocketFiles) -> Option<RaplReading> {
    match (spec_energy(files.package), spec_energy(files.dram)) {
        (Some(package_uj), Some(dram_uj)) => Some(
            RaplReading { socket_id: socket, package_uj, dram_uj },
        ),
        _ => None,
    }
}

/// The readings of the sockets that have one, in the order of the
/// sockets. The sockets are numbered in the order of `sockets`.
pub open spec fn spec_read_rapl(sockets: Seq<SocketFiles>) -> Seq<RaplReading>
    decreases sockets.len(),
{
    if sockets.len() == 0 {
        Seq::empty()
    } else {
        let rest = spec_read_rapl(sockets.drop_last());
        match spec_read_socket((sockets.len() - 1) as u32, sockets.last()) {
            Some(reading) => rest.push(reading),
            None => rest,
        }
    }
}

fn energy(content: &Option<String>) -> (value: Option<u64>)
    ensures
        value == spec_energy(*content),
{
    match content {
        Some(text) => parse_rapl_energy(text.as_str()),
        None => None,
    }
}

/// Makes the reading of socket `socket` of the contents of its two
/// counter files.
pub fn read_socket(socket: u32, files: &SocketFiles) -> (reading: Option<RaplReading>)
    ensures
        reading == spec_read_socket(socket, *files),
{
    let package: Option<u64> = energy(&files.package);
    let dram: Option<u64> = energy(&files.dram);
    match (package, dram) {
        (Some(package_uj), Some(dram_uj)) => Some(
            RaplReading { socket_id: socket, package_uj, dram_uj },
        ),
        _ => None,
    }
}

/// The socket ids go up, and each is below `bound`.
pub open spec fn ascending(readings: Seq<RaplReading>, bound: int) -> bool {
    &&& forall|i: int, j: int|
        0 <= i < j < readings.len() ==> readings[i].socket_id < readings[j].socket_id
    &&& forall|i: int| 0 <= i < readings.len() ==> (#[trigger] readings[i]).socket_id < bound
}

/// The readings come in the order of the sockets, so no socket twice.
pub proof fn lemma_read_rapl_ascending(sockets: Seq<SocketFiles>)
    requires
        sockets.len() <= u32::MAX,
    ensures
        ascending(spec_read_rapl(sockets), sockets.len() as int),
    decreases sockets.len(),
{
    if sockets.len() > 0 {
        lemma_read_rapl_ascending(sockets.drop_last());
    }
}

/// Reads every socket. A socket whose counters could not be read is left
/// out; the reading fails only where no socket could be read.
pub fn read_rapl(sockets: &Vec<SocketFiles>) -> (readings: Result<Vec<RaplReading>, SamplingError>)
    requires
        sockets@.len() <= u32::MAX,
    ensures
        readings is Ok <==> spec_read_rapl(sockets@).len() > 0,
        readings matches Ok(r) ==> r@ == spec_read_rapl(sockets@),
        readings matches Err(e) ==> e.message@ == powercap_failure(),
{
    let mut readings: Vec<RaplReading> = Vec::new();
    let n: usize = sockets.len();
    let mut i: usize = 0;
    while i < n
        invariant
            n == sockets@.len(),
            n <= u32::MAX,
            i <= n,
            readings@ == spec_read_rapl(sockets@.take(i as int)),
        decreases n - i,
    {
        proof {
            assert(sockets@.take(i + 1).drop_last() =~= sockets@.take(i as int));
            assert(sockets@.take(i + 1).last() == sockets@[i as int]);
        }
        match read_socket(i as u32, &sockets[i]) {
            Some(reading) => {
                readings.push(reading);
            },
            None => {},
        }
        i = i + 1;
    }
    proof {
        assert(sockets@.take(n as int) =~= sockets@);
    }
    if readings.len() > 0 {
        Ok(readings)
    } else {
        Err(SamplingError { message: "there was an error reading /sys/class/powercap".to_owned() })
    }
}

/// Makes an energy sample of one reading of the sockets' counter files,
/// taken at `timestamp`. There is no sample only where no socket could
/// be read.
pub fn sample_rapl(sockets: &Vec<SocketFiles>, timestamp: u64) -> (sample: Result<
    Sample,
    SamplingError,
>)
    requires
        sockets@.len() <= u32::MAX,
    ensures
        sample is Ok <==> spec_read_rapl(sockets@).len() > 0,
        sample matches Ok(ok) ==> {
            &&& ok matches Sample::Rapl(s)
            &&& s.timestamp == timestamp
            &&& s.readings@ == spec_read_rapl(sockets@)
            &&& s.wf()
        },
        sample matches Err(e) ==> e.message@ == powercap_failure(),
{
    match read_rapl(sockets) {
        Ok(readings) => {
            let s = RaplSample { timestamp, readings };
            proof {
                lemma_read_rapl_ascending(sockets@);
                assert forall|i: int, j: int| 0 <= i < j < s.ids().len() implies s.ids()[i]
                    != s.ids()[j] by {
                    assert(s.readings@[i].socket_id < s.readings@[j].socket_id);
                }
            }
            Ok(Sample::Rapl(s))
        },
        Err(_) => Err(
            SamplingError { message: "there was an error reading /sys/class/powercap".to_owned() },
        ),
    }
}

} // verus!
