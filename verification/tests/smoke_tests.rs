use eflect::sample::Sample;
use eflect::source::{sample_cpus, sample_rapl, sample_tasks, CpuTime, SocketFiles, ThreadStat};
use procfs::process::Process;
use procfs::{CpuInfo, Current, CurrentSI, KernelStats};
use std::time::SystemTime;

fn now_ms() -> u64 {
    SystemTime::now().duration_since(SystemTime::UNIX_EPOCH).unwrap().as_millis() as u64
}

fn read_cpus() -> Option<Vec<CpuTime>> {
    let stats = KernelStats::current().ok()?;
    let mut times = Vec::new();
    for time in stats.cpu_time.iter() {
        times.push(CpuTime {
            user: time.user,
            nice: time.nice,
            system: time.system,
            idle: time.idle,
            iowait: time.iowait,
            irq: time.irq,
            softirq: time.softirq,
            steal: time.steal,
            guest: time.guest,
            guest_nice: time.guest_nice,
        });
    }
    Some(times)
}

fn read_tasks(pid: i32) -> Option<Vec<ThreadStat>> {
    let tasks = Process::new(pid).ok()?.tasks().ok()?;
    let mut threads = Vec::new();
    for task in tasks.flatten() {
        if let Ok(stat) = task.stat() {
            threads.push(ThreadStat {
                pid: stat.pid,
                processor: stat.processor,
                utime: stat.utime,
                stime: stat.stime,
            });
        }
    }
    Some(threads)
}

// What the two counter files of the sockets 0 and 1 hold on a machine with
// one socket: the second socket cannot be read.
fn read_sockets() -> Vec<SocketFiles> {
    vec![
        SocketFiles {
            package: Some("262143328850\n".to_string()),
            dram: Some("57113465011\n".to_string()),
        },
        SocketFiles { package: None, dram: None },
    ]
}

#[test]
// make sure sample_cpus returns the right data type
fn sample_jiffies_smoke_test() {
    let start = now_ms();
    if let Ok(sample) = sample_cpus(read_cpus(), now_ms()) {
        if let Sample::Cpu(sample) = sample {
            assert!(sample.timestamp <= now_ms());
            assert!(sample.timestamp >= start);
            assert_eq!(sample.stats.len(), CpuInfo::current().unwrap().num_cores());
        } else {
            panic!("sampling cpus failed; data other than CpuSample returned");
        };
    } else {
        panic!("sampling cpus failed; /proc/stat couldn't be read");
    };

    let start = now_ms();
    let me = Process::myself().unwrap();
    if let Ok(sample) = sample_tasks(read_tasks(me.pid()), now_ms()) {
        if let Sample::Task(sample) = sample {
            assert!(sample.timestamp <= now_ms());
            assert!(sample.timestamp >= start);
            assert_eq!(sample.stats.len(), me.tasks().unwrap().count());
        } else {
            panic!("sampling tasks failed; data other than TaskSample returned");
        };
    } else {
        panic!("sampling tasks failed; /proc/[pid]/task couldn't be read");
    };
}

#[test]
// make sure we have rapl (/sys/class/powercap) and that we read all the values
fn sample_rapl_smoke_test() {
    let start = now_ms();
    if let Ok(sample) = sample_rapl(&read_sockets(), now_ms()) {
        if let Sample::Rapl(sample) = sample {
            assert!(sample.timestamp <= now_ms());
            assert!(sample.timestamp >= start);
        } else {
            panic!("sampling rapl failed; data other than RaplSample returned");
        };
    } else {
        panic!("sampling rapl failed; /sys/class/powercap couldn't be read");
    };
}

#[test]
// make sure sample_cpus returns the right data type
fn server_jiffies_smoke_test() {
    let start = now_ms();
    if let Ok(sample) = sample_cpus(read_cpus(), now_ms()) {
        if let Sample::Cpu(sample) = sample {
            assert!(sample.timestamp <= now_ms());
            assert!(sample.timestamp >= start);
            assert_eq!(sample.stats.len(), CpuInfo::current().unwrap().num_cores());
        } else {
            panic!("sampling cpus failed; data other than CpuSample returned");
        };
    } else {
        panic!("sampling cpus failed; /proc/stat couldn't be read");
    };

    let start = now_ms();
    let me = Process::myself().unwrap();
    if let Ok(sample) = sample_tasks(read_tasks(me.pid()), now_ms()) {
        if let Sample::Task(sample) = sample {
            assert!(sample.timestamp <= now_ms());
            assert!(sample.timestamp >= start);
            assert_eq!(sample.stats.len(), me.tasks().unwrap().count());
        } else {
            panic!("sampling tasks failed; data other than TaskSample returned");
        };
    } else {
        panic!("sampling tasks failed; /proc/[pid]/task couldn't be read");
    };
}

#[test]
// make sure we have rapl (/sys/class/powercap) and that we read all the values
fn server_rapl_smoke_test() {
    let start = now_ms();
    if let Ok(sample) = sample_rapl(&read_sockets(), now_ms()) {
        if let Sample::Rapl(sample) = sample {
            assert!(sample.timestamp <= now_ms());
            assert!(sample.timestamp >= start);
        } else {
            panic!("sampling rapl failed; data other than RaplSample returned");
        };
    } else {
        panic!("sampling rapl failed; /sys/class/powercap couldn't be read");
    };
}
