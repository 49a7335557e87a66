use eflect::rate::Rate;
use eflect::record::Record;
use eflect::sample::{CpuStat, EntityStat, Observation, RaplReading, TaskStat};

fn cpu_point(timestamp: u64, core_id: u32, user: u64) -> Observation {
    Observation {
        timestamp,
        stat: EntityStat::Cpu(CpuStat {
            core_id,
            user,
            nice: 0,
            system: 0,
            idle: 0,
            iowait: 0,
            irq: 0,
            softirq: 0,
            steal: 0,
            guest: 0,
            guest_nice: 0,
        }),
    }
}

fn task_point(timestamp: u64, task_id: u32, last_cpu: u32, user: u64, system: u64) -> Observation {
    Observation { timestamp, stat: EntityStat::Task(TaskStat { task_id, last_cpu, user, system }) }
}

#[test]
fn cpu_delta_and_rate_over_one_second() {
    let record = cpu_point(0, 0, 100).sub(&cpu_point(1000, 0, 200)).unwrap();
    match record {
        Record::Cpu { start, end, cpu, user, idle, .. } => {
            assert_eq!((start, end, cpu), (0, 1000, 0));
            assert_eq!(user, 100);
            assert_eq!(idle, 0);
        }
        _ => panic!("a CPU record was expected"),
    }
    let rate = record.rate().unwrap();
    assert_eq!(rate, Rate { amount: 100, millis: 1000 });
    assert_eq!(rate.amount as f64 / rate.millis as f64, 0.1);
}

#[test]
fn every_cpu_field_is_later_minus_earlier() {
    let earlier = Observation {
        timestamp: 10,
        stat: EntityStat::Cpu(CpuStat {
            core_id: 3,
            user: 1,
            nice: 2,
            system: 3,
            idle: 4,
            iowait: 5,
            irq: 6,
            softirq: 7,
            steal: 8,
            guest: 9,
            guest_nice: 10,
        }),
    };
    let later = Observation {
        timestamp: 60,
        stat: EntityStat::Cpu(CpuStat {
            core_id: 3,
            user: 11,
            nice: 22,
            system: 33,
            idle: 44,
            iowait: 55,
            irq: 66,
            softirq: 77,
            steal: 88,
            guest: 99,
            guest_nice: 110,
        }),
    };
    let record = earlier.sub(&later).unwrap();
    assert_eq!(
        record,
        Record::Cpu {
            start: 10,
            end: 60,
            cpu: 3,
            user: 10,
            nice: 20,
            system: 30,
            idle: 40,
            iowait: 50,
            irq: 60,
            softirq: 70,
            steal: 80,
            guest: 90,
            guest_nice: 100,
        }
    );
    // idle and iowait do not count as activity: 10+20+30+60+70+80+90+100
    assert_eq!(record.rate(), Some(Rate { amount: 460, millis: 50 }));
}

#[test]
fn task_record_keeps_the_earlier_core() {
    let record = task_point(5, 42, 7, 10, 20).sub(&task_point(55, 42, 9, 13, 24)).unwrap();
    assert_eq!(record, Record::Task { start: 5, end: 55, id: 42, cpu: 7, user: 3, system: 4 });
    assert_eq!(record.rate(), Some(Rate { amount: 7, millis: 50 }));
}

#[test]
fn energy_record_sums_its_domains() {
    let earlier = Observation {
        timestamp: 0,
        stat: EntityStat::Rapl(RaplReading { socket_id: 1, package_uj: 1000, dram_uj: 100 }),
    };
    let later = Observation {
        timestamp: 100,
        stat: EntityStat::Rapl(RaplReading { socket_id: 1, package_uj: 4000, dram_uj: 300 }),
    };
    let record = earlier.sub(&later).unwrap();
    assert_eq!(record, Record::Energy { start: 0, end: 100, socket: 1, package: 3000, dram: 200 });
    assert_eq!(record.rate(), Some(Rate { amount: 3200, millis: 100 }));
}

#[test]
fn no_record_for_mismatched_entities() {
    assert_eq!(cpu_point(0, 0, 1).sub(&cpu_point(10, 1, 2)), None);
    assert_eq!(task_point(0, 1, 0, 1, 1).sub(&task_point(10, 2, 0, 2, 2)), None);
}

#[test]
fn no_record_for_mismatched_kinds() {
    assert_eq!(cpu_point(0, 0, 1).sub(&task_point(10, 0, 0, 2, 2)), None);
}

#[test]
fn no_record_when_the_later_point_comes_first() {
    assert_eq!(cpu_point(10, 0, 1).sub(&cpu_point(9, 0, 2)), None);
}

#[test]
fn no_rate_over_no_time() {
    let record = cpu_point(10, 0, 1).sub(&cpu_point(10, 0, 5)).unwrap();
    assert_eq!(record.start(), 10);
    assert_eq!(record.end(), 10);
    assert_eq!(record.rate(), None);
}

#[test]
fn a_counter_that_went_backwards_gives_a_negative_delta() {
    let record = cpu_point(0, 0, 200).sub(&cpu_point(100, 0, 50)).unwrap();
    match record {
        Record::Cpu { user, .. } => assert_eq!(user, -150),
        _ => panic!("a CPU record was expected"),
    }
    assert_eq!(record.rate(), Some(Rate { amount: -150, millis: 100 }));
    let wrapped = cpu_point(0, 0, u64::MAX).sub(&cpu_point(1, 0, 0)).unwrap();
    match wrapped {
        Record::Cpu { user, .. } => assert_eq!(user, -(u64::MAX as i128)),
        _ => panic!("a CPU record was expected"),
    }
}
