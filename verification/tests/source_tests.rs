use eflect::config::{configure, parse_pid, Config, ConfigError};
use eflect::parse::{parse_rapl_energy, parse_u64};
use eflect::sample::{CpuStat, RaplReading, Sample, TaskStat};
use eflect::source::{
    cpu_stat_from_time, read_rapl, read_socket, sample_cpus, sample_rapl, sample_tasks,
    task_stat_from_thread, CpuTime, SocketFiles, ThreadStat,
};

fn time(user: u64) -> CpuTime {
    CpuTime {
        user,
        nice: 2,
        system: 3,
        idle: 4,
        iowait: Some(5),
        irq: Some(6),
        softirq: Some(7),
        steal: Some(8),
        guest: Some(9),
        guest_nice: Some(10),
    }
}

fn files(package: Option<&str>, dram: Option<&str>) -> SocketFiles {
    SocketFiles { package: package.map(|s| s.to_string()), dram: dram.map(|s| s.to_string()) }
}

#[test]
fn decimal_numbers_are_read() {
    assert_eq!(parse_u64("0"), Some(0));
    assert_eq!(parse_u64("50"), Some(50));
    assert_eq!(parse_u64("+50"), Some(50));
    assert_eq!(parse_u64("007"), Some(7));
    assert_eq!(parse_u64("18446744073709551615"), Some(u64::MAX));
}

#[test]
fn what_is_no_number_is_turned_down() {
    assert_eq!(parse_u64(""), None);
    assert_eq!(parse_u64("+"), None);
    assert_eq!(parse_u64("-5"), None);
    assert_eq!(parse_u64("5 "), None);
    assert_eq!(parse_u64(" 5"), None);
    assert_eq!(parse_u64("5a"), None);
    assert_eq!(parse_u64("1_000"), None);
    assert_eq!(parse_u64("18446744073709551616"), None);
    assert_eq!(parse_u64("99999999999999999999999"), None);
}

#[test]
fn counter_files_end_with_a_line_feed() {
    assert_eq!(parse_rapl_energy("262143328850\n"), Some(262143328850));
    assert_eq!(parse_rapl_energy("  \t42\r\n"), Some(42));
    assert_eq!(parse_rapl_energy("42"), Some(42));
    assert_eq!(parse_rapl_energy(""), None);
    assert_eq!(parse_rapl_energy(" \n"), None);
    assert_eq!(parse_rapl_energy("4 2\n"), None);
    assert_eq!(parse_rapl_energy("joules\n"), None);
}

#[test]
fn the_configuration_needs_a_process_id() {
    assert_eq!(configure(None, None), Err(ConfigError::MissingPid));
    assert_eq!(configure(None, Some("50")), Err(ConfigError::MissingPid));
    assert_eq!(configure(Some("abc"), None), Err(ConfigError::InvalidPid));
    assert_eq!(configure(Some("-1"), Some("50")), Err(ConfigError::InvalidPid));
    assert_eq!(configure(Some("2147483648"), None), Err(ConfigError::InvalidPid));
    assert_eq!(configure(Some("abc"), Some("abc")), Err(ConfigError::InvalidPid));
}

#[test]
fn the_period_is_the_default_where_none_is_given() {
    assert_eq!(configure(Some("1234"), None), Ok(Config { pid: 1234, period: 50 }));
    assert_eq!(configure(Some("1234"), Some("250")), Ok(Config { pid: 1234, period: 250 }));
    assert_eq!(configure(Some("1234"), Some("fast")), Err(ConfigError::InvalidPeriod));
    assert_eq!(configure(Some("1234"), Some("")), Err(ConfigError::InvalidPeriod));
    assert_eq!(parse_pid("2147483647"), Some(i32::MAX));
    let sampler = Config { pid: 1234, period: 250 }.sampler();
    assert_eq!((sampler.pid(), sampler.period(), sampler.is_running()), (1234, 250, false));
}

#[test]
fn counters_that_the_kernel_lacks_count_as_zero() {
    let old = CpuTime {
        user: 1,
        nice: 2,
        system: 3,
        idle: 4,
        iowait: None,
        irq: None,
        softirq: None,
        steal: None,
        guest: None,
        guest_nice: None,
    };
    assert_eq!(
        cpu_stat_from_time(5, &old),
        CpuStat {
            core_id: 5,
            user: 1,
            nice: 2,
            system: 3,
            idle: 4,
            iowait: 0,
            irq: 0,
            softirq: 0,
            steal: 0,
            guest: 0,
            guest_nice: 0,
        }
    );
    assert_eq!(
        cpu_stat_from_time(0, &time(u64::MAX)),
        CpuStat {
            core_id: 0,
            user: u64::MAX,
            nice: 2,
            system: 3,
            idle: 4,
            iowait: 5,
            irq: 6,
            softirq: 7,
            steal: 8,
            guest: 9,
            guest_nice: 10,
        }
    );
}

#[test]
fn a_thread_without_a_core_has_no_times() {
    let stat = ThreadStat { pid: 77, processor: Some(3), utime: 10, stime: 20 };
    assert_eq!(
        task_stat_from_thread(&stat),
        TaskStat { task_id: 77, last_cpu: 3, user: 10, system: 20 }
    );
    let lost = ThreadStat { pid: 77, processor: None, utime: 10, stime: 20 };
    assert_eq!(
        task_stat_from_thread(&lost),
        TaskStat { task_id: 77, last_cpu: 0, user: 0, system: 0 }
    );
}

#[test]
fn cores_are_numbered_in_the_order_of_the_table() {
    match sample_cpus(Some(vec![time(1), time(2), time(3)]), 99) {
        Ok(Sample::Cpu(sample)) => {
            assert_eq!(sample.timestamp, 99);
            assert_eq!(sample.stats.len(), 3);
            for (i, stat) in sample.stats.iter().enumerate() {
                assert_eq!(stat.core_id, i as u32);
                assert_eq!(stat.user, i as u64 + 1);
            }
        }
        _ => panic!("a CPU sample was expected"),
    }
    match sample_cpus(Some(Vec::new()), 1) {
        Ok(Sample::Cpu(sample)) => assert!(sample.stats.is_empty()),
        _ => panic!("a CPU sample was expected"),
    }
}

#[test]
fn no_cpu_sample_where_the_table_could_not_be_read() {
    let error = sample_cpus(None, 99).unwrap_err();
    assert_eq!(error.message, "there was an error with proc");
}

#[test]
fn the_threads_of_the_process_make_a_task_sample() {
    let threads = vec![
        ThreadStat { pid: 10, processor: Some(0), utime: 1, stime: 2 },
        ThreadStat { pid: 11, processor: Some(5), utime: 3, stime: 4 },
    ];
    match sample_tasks(Some(threads), 7) {
        Ok(Sample::Task(sample)) => {
            assert_eq!(sample.timestamp, 7);
            assert_eq!(
                sample.stats,
                vec![
                    TaskStat { task_id: 10, last_cpu: 0, user: 1, system: 2 },
                    TaskStat { task_id: 11, last_cpu: 5, user: 3, system: 4 },
                ]
            );
        }
        _ => panic!("a task sample was expected"),
    }
    let error = sample_tasks(None, 7).unwrap_err();
    assert_eq!(error.message, "there was an error with proc");
}

#[test]
fn a_socket_needs_both_of_its_counters() {
    assert_eq!(
        read_socket(1, &files(Some("100\n"), Some("20\n"))),
        Some(RaplReading { socket_id: 1, package_uj: 100, dram_uj: 20 })
    );
    assert_eq!(read_socket(1, &files(Some("100\n"), None)), None);
    assert_eq!(read_socket(1, &files(None, Some("20\n"))), None);
    assert_eq!(read_socket(1, &files(Some("100\n"), Some("x\n"))), None);
}

#[test]
fn sockets_that_cannot_be_read_are_left_out() {
    let sockets =
        vec![files(None, None), files(Some("100\n"), Some("20\n")), files(Some("7\n"), Some("8\n"))];
    assert_eq!(
        read_rapl(&sockets),
        Ok(vec![
            RaplReading { socket_id: 1, package_uj: 100, dram_uj: 20 },
            RaplReading { socket_id: 2, package_uj: 7, dram_uj: 8 },
        ])
    );
    match sample_rapl(&sockets, 5) {
        Ok(Sample::Rapl(sample)) => {
            assert_eq!(sample.timestamp, 5);
            assert_eq!(sample.readings.len(), 2);
        }
        _ => panic!("an energy sample was expected"),
    }
}

#[test]
fn no_energy_sample_where_no_socket_could_be_read() {
    let sockets = vec![files(None, None), files(Some("100\n"), None)];
    let error = read_rapl(&sockets).unwrap_err();
    assert_eq!(error.message, "there was an error reading /sys/class/powercap");
    let error = sample_rapl(&sockets, 5).unwrap_err();
    assert_eq!(error.message, "there was an error reading /sys/class/powercap");
    assert!(sample_rapl(&Vec::new(), 5).is_err());
}
