use eflect::attribution::{ProcessError, TaskActivity};
use eflect::processing::{earliest, process};
use eflect::rate::Ratio;
use eflect::record::Record;
use eflect::sample::{
    CpuSample, CpuStat, EntityStat, Kind, Observation, RaplReading, RaplSample, Sample, TaskSample,
    TaskStat,
};
use eflect::series::{
    differences, flatten, forward_difference, group_samples, sort_by_timestamp, Series,
};
use eflect::window::{into_windows, window_index};

fn core_stat(core_id: u32, user: u64) -> CpuStat {
    CpuStat {
        core_id,
        user,
        nice: 0,
        system: 0,
        idle: 0,
        iowait: 0,
        irq: 0,
        softirq: 0,
        steal: 0,
        guest: 0,
        guest_nice: 0,
    }
}

fn cpus(timestamp: u64, users: &[u64]) -> Sample {
    let mut stats = Vec::new();
    for (i, user) in users.iter().enumerate() {
        stats.push(core_stat(i as u32, *user));
    }
    Sample::Cpu(CpuSample { timestamp, stats })
}

fn tasks(timestamp: u64, threads: &[(u32, u32, u64)]) -> Sample {
    let mut stats = Vec::new();
    for (task_id, last_cpu, user) in threads.iter() {
        stats.push(TaskStat { task_id: *task_id, last_cpu: *last_cpu, user: *user, system: 0 });
    }
    Sample::Task(TaskSample { timestamp, stats })
}

fn point(timestamp: u64, core_id: u32, user: u64) -> Observation {
    Observation { timestamp, stat: EntityStat::Cpu(core_stat(core_id, user)) }
}

#[test]
fn a_sample_is_taken_apart_into_one_observation_per_entity() {
    let sample = cpus(7, &[10, 20]);
    assert_eq!(sample.observations(), vec![point(7, 0, 10), point(7, 1, 20)]);
    assert_eq!(sample.get_timestamp(), 7);
    assert_eq!(sample.kind(), Kind::Cpu);
    let all = flatten(&vec![cpus(1, &[1]), tasks(2, &[(9, 0, 3)]), cpus(3, &[2])]);
    assert_eq!(all.len(), 3);
    assert_eq!(all[0].kind(), Kind::Cpu);
    assert_eq!(all[1].kind(), Kind::Task);
    assert_eq!(all[1].entity(), 9);
    assert_eq!(all[2].get_timestamp(), 3);
}

#[test]
fn samples_are_grouped_by_kind_and_entity_in_order_of_arrival() {
    let samples = vec![cpus(20, &[5, 6]), tasks(10, &[(1, 0, 1)]), cpus(10, &[1, 2])];
    let series = group_samples(&samples);
    assert_eq!(
        series,
        vec![
            Series { kind: Kind::Cpu, entity: 0, points: vec![point(20, 0, 5), point(10, 0, 1)] },
            Series { kind: Kind::Cpu, entity: 1, points: vec![point(20, 1, 6), point(10, 1, 2)] },
            Series {
                kind: Kind::Task,
                entity: 1,
                points: vec![Observation {
                    timestamp: 10,
                    stat: EntityStat::Task(TaskStat { task_id: 1, last_cpu: 0, user: 1, system: 0 }),
                }],
            },
        ]
    );
}

#[test]
fn a_core_and_a_thread_with_one_number_are_different_series() {
    let samples = vec![cpus(0, &[1]), tasks(0, &[(0, 0, 1)])];
    assert_eq!(group_samples(&samples).len(), 2);
}

#[test]
fn sorting_is_by_timestamp_and_keeps_ties_in_order() {
    let points = vec![point(30, 0, 3), point(10, 0, 1), point(30, 0, 4), point(20, 0, 2)];
    assert_eq!(
        sort_by_timestamp(&points),
        vec![point(10, 0, 1), point(20, 0, 2), point(30, 0, 3), point(30, 0, 4)]
    );
    assert_eq!(sort_by_timestamp(&Vec::new()), Vec::new());
}

#[test]
fn one_record_for_each_observation_and_the_next() {
    let points = vec![point(0, 0, 100), point(50, 0, 130), point(100, 0, 190)];
    let records = differences(&points);
    assert_eq!(records.len(), 2);
    assert_eq!(records[0].start(), 0);
    assert_eq!(records[0].end(), 50);
    assert_eq!(records[1].start(), 50);
    assert_eq!(records[1].end(), 100);
    assert_eq!(differences(&vec![point(0, 0, 1)]), Vec::new());
    assert_eq!(differences(&Vec::new()), Vec::new());
}

#[test]
fn samples_that_arrive_out_of_order_are_differenced_in_order_of_time() {
    let samples = vec![cpus(100, &[190]), cpus(0, &[100]), cpus(50, &[130])];
    let records = forward_difference(&group_samples(&samples));
    assert_eq!(records.len(), 2);
    match records[0] {
        Record::Cpu { start, end, user, .. } => assert_eq!((start, end, user), (0, 50, 30)),
        _ => panic!("a CPU record was expected"),
    }
    match records[1] {
        Record::Cpu { start, end, user, .. } => assert_eq!((start, end, user), (50, 100, 60)),
        _ => panic!("a CPU record was expected"),
    }
}

#[test]
fn the_window_is_the_time_since_the_start_in_periods() {
    assert_eq!(window_index(1000, 1000, 50), 0);
    assert_eq!(window_index(1049, 1000, 50), 0);
    assert_eq!(window_index(1050, 1000, 50), 1);
    assert_eq!(window_index(1175, 1000, 50), 3);
    assert_eq!(window_index(900, 1000, 50), 0);
}

#[test]
fn records_fall_into_the_window_in_which_they_start() {
    let samples = vec![cpus(0, &[0]), cpus(50, &[10]), cpus(100, &[30]), cpus(120, &[40])];
    let records = forward_difference(&group_samples(&samples));
    let windows = into_windows(&records, 0, 50);
    assert_eq!(windows.len(), 3);
    assert_eq!(windows[0].index, 0);
    assert_eq!(windows[1].index, 1);
    assert_eq!(windows[2].index, 2);
    assert_eq!(windows[0].records, vec![records[0]]);
    assert_eq!(windows[2].records, vec![records[2]]);
    let wide = into_windows(&records, 0, 200);
    assert_eq!(wide.len(), 1);
    assert_eq!(wide[0].records, records);
}

#[test]
fn the_session_starts_with_its_earliest_sample() {
    assert_eq!(earliest(&Vec::new()), None);
    assert_eq!(earliest(&vec![cpus(30, &[1]), tasks(10, &[]), cpus(20, &[1])]), Some(10));
}

#[test]
fn the_pipeline_attributes_each_window() {
    // cores 0 and 1 form one bucket; thread 7 runs on core 1
    let samples = vec![
        tasks(1001, &[(7, 1, 10)]),
        cpus(1000, &[100, 200]),
        cpus(1050, &[110, 230]),
        tasks(1051, &[(7, 1, 20)]),
        cpus(1100, &[120, 240]),
        tasks(1101, &[(7, 1, 25)]),
    ];
    let activities = process(samples, 50, 2).unwrap();
    assert_eq!(
        activities,
        vec![
            TaskActivity {
                start: 1001,
                end: 1051,
                id: 7,
                cpu: 1,
                activity: Ratio { num: 10 * 50, den: 50 * 40 },
            },
            TaskActivity {
                start: 1051,
                end: 1101,
                id: 7,
                cpu: 1,
                activity: Ratio { num: 5 * 50, den: 50 * 20 },
            },
        ]
    );
    for activity in activities.iter() {
        assert_eq!(activity.activity.num as f64 / activity.activity.den as f64, 0.25);
    }
}

#[test]
fn energy_samples_give_no_activity() {
    let samples = vec![
        Sample::Rapl(RaplSample {
            timestamp: 0,
            readings: vec![RaplReading { socket_id: 0, package_uj: 1, dram_uj: 1 }],
        }),
        Sample::Rapl(RaplSample {
            timestamp: 50,
            readings: vec![RaplReading { socket_id: 0, package_uj: 9, dram_uj: 9 }],
        }),
    ];
    assert_eq!(process(samples, 50, 12), Ok(vec![]));
}

#[test]
fn no_samples_give_no_activity() {
    assert_eq!(process(Vec::new(), 50, 12), Ok(vec![]));
}

#[test]
fn a_period_of_zero_is_turned_down() {
    assert_eq!(process(vec![cpus(0, &[1])], 0, 12), Err(ProcessError::InvalidPeriod));
}

#[test]
fn a_bucket_of_no_cores_is_turned_down() {
    assert_eq!(process(vec![cpus(0, &[1])], 50, 0), Err(ProcessError::InvalidBucketSize));
}

#[test]
fn a_sum_that_does_not_fit_stops_the_pipeline() {
    let samples = vec![
        cpus(0, &[0, 0]),
        Sample::Cpu(CpuSample { timestamp: u64::MAX, stats: vec![core_stat(0, u64::MAX)] }),
        Sample::Cpu(CpuSample { timestamp: u64::MAX - 1, stats: vec![core_stat(1, u64::MAX)] }),
    ];
    assert_eq!(process(samples, u64::MAX, 2), Err(ProcessError::Overflow));
}
