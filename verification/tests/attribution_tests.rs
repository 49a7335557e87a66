use eflect::attribution::{
    account_tasks, bucket_of, bucket_totals, extract_cpu_data, lookup, member_rates, BucketRate,
    ProcessError, TaskActivity,
};
use eflect::processing::attribute_window;
use eflect::rate::{Rate, Ratio};
use eflect::record::Record;

fn cpu_record(start: u64, end: u64, cpu: u32, user: i128) -> Record {
    Record::Cpu {
        start,
        end,
        cpu,
        user,
        nice: 0,
        system: 0,
        idle: 0,
        iowait: 0,
        irq: 0,
        softirq: 0,
        steal: 0,
        guest: 0,
        guest_nice: 0,
    }
}

fn task_record(start: u64, end: u64, id: u32, cpu: u32, user: i128) -> Record {
    Record::Task { start, end, id, cpu, user, system: 0 }
}

fn as_float(ratio: &Ratio) -> f64 {
    ratio.num as f64 / ratio.den as f64
}

#[test]
fn task_rate_five_over_bucket_rate_twenty_is_a_quarter() {
    let records = vec![task_record(0, 1, 7, 0, 5), cpu_record(0, 1, 0, 20)];
    let activities = attribute_window(&records, 12).unwrap();
    assert_eq!(activities.len(), 1);
    assert_eq!(
        activities[0],
        TaskActivity { start: 0, end: 1, id: 7, cpu: 0, activity: Ratio { num: 5, den: 20 } }
    );
    assert_eq!(as_float(&activities[0].activity), 0.25);
}

#[test]
fn bucket_rate_is_the_sum_of_its_cores() {
    let records = vec![
        cpu_record(0, 50, 0, 10),
        cpu_record(0, 50, 1, 15),
        cpu_record(0, 50, 12, 7),
        task_record(0, 50, 1, 1, 5),
    ];
    let cpus = extract_cpu_data(&records, 12).unwrap();
    assert_eq!(
        cpus,
        vec![
            BucketRate { bucket: 0, rate: Rate { amount: 25, millis: 50 } },
            BucketRate { bucket: 1, rate: Rate { amount: 7, millis: 50 } },
        ]
    );
    assert_eq!(lookup(&cpus, 1), Some(Rate { amount: 7, millis: 50 }));
    assert_eq!(lookup(&cpus, 2), None);
    let activities = account_tasks(&records, &cpus, 12).unwrap();
    assert_eq!(activities.len(), 1);
    assert_eq!(as_float(&activities[0].activity), 0.2);
}

#[test]
fn rates_over_different_times_add_exactly() {
    let records = vec![cpu_record(0, 50, 0, 1), cpu_record(10, 85, 1, 1)];
    let members = member_rates(&records, 4);
    assert_eq!(
        members,
        vec![
            BucketRate { bucket: 0, rate: Rate { amount: 1, millis: 50 } },
            BucketRate { bucket: 0, rate: Rate { amount: 1, millis: 75 } },
        ]
    );
    let totals = bucket_totals(&members).unwrap();
    assert_eq!(totals, vec![BucketRate { bucket: 0, rate: Rate { amount: 5, millis: 150 } }]);
}

#[test]
fn cores_per_bucket_decides_the_bucket() {
    assert_eq!(bucket_of(11, 12), 0);
    assert_eq!(bucket_of(12, 12), 1);
    assert_eq!(bucket_of(5, 1), 5);
}

#[test]
fn a_task_without_activity_is_left_out() {
    let records = vec![task_record(0, 10, 1, 0, 0), cpu_record(0, 10, 0, 20)];
    assert_eq!(attribute_window(&records, 12), Ok(vec![]));
}

#[test]
fn a_task_with_a_negative_rate_is_left_out() {
    let records = vec![task_record(0, 10, 1, 0, -3), cpu_record(0, 10, 0, 20)];
    assert_eq!(attribute_window(&records, 12), Ok(vec![]));
}

#[test]
fn a_task_on_an_idle_bucket_is_left_out() {
    let records = vec![task_record(0, 10, 1, 0, 5), cpu_record(0, 10, 0, 0)];
    assert_eq!(attribute_window(&records, 12), Ok(vec![]));
    let negative = vec![task_record(0, 10, 1, 0, 5), cpu_record(0, 10, 0, -4)];
    assert_eq!(attribute_window(&negative, 12), Ok(vec![]));
}

#[test]
fn a_task_whose_bucket_has_no_rate_is_left_out() {
    let records = vec![task_record(0, 10, 1, 13, 5), cpu_record(0, 10, 0, 20)];
    assert_eq!(attribute_window(&records, 12), Ok(vec![]));
    let no_cpu = vec![task_record(0, 10, 1, 0, 5)];
    assert_eq!(attribute_window(&no_cpu, 12), Ok(vec![]));
}

#[test]
fn records_over_no_time_count_for_nothing() {
    let records = vec![task_record(5, 5, 1, 0, 5), cpu_record(0, 10, 0, 20)];
    assert_eq!(attribute_window(&records, 12), Ok(vec![]));
    let still = vec![task_record(0, 10, 1, 0, 5), cpu_record(5, 5, 0, 20)];
    assert_eq!(attribute_window(&still, 12), Ok(vec![]));
}

#[test]
fn every_activity_ratio_is_positive() {
    let records = vec![
        cpu_record(0, 50, 0, 40),
        cpu_record(0, 50, 1, -10),
        task_record(0, 50, 1, 0, 3),
        task_record(0, 50, 2, 1, 1),
        task_record(0, 50, 3, 1, -1),
    ];
    let activities = attribute_window(&records, 2).unwrap();
    assert_eq!(activities.len(), 2);
    for activity in activities.iter() {
        assert!(activity.activity.num > 0 && activity.activity.den > 0);
        assert!(as_float(&activity.activity) > 0.0);
    }
    assert_eq!(as_float(&activities[0].activity), 0.1);
}

#[test]
fn a_bucket_sum_that_does_not_fit_is_reported() {
    let big = u64::MAX as i128;
    let records = vec![cpu_record(0, u64::MAX, 0, big), cpu_record(0, u64::MAX - 1, 1, big)];
    assert_eq!(extract_cpu_data(&records, 2), Err(ProcessError::Overflow));
    assert_eq!(attribute_window(&records, 2), Err(ProcessError::Overflow));
}

#[test]
fn a_ratio_that_does_not_fit_is_reported() {
    let cpus = vec![BucketRate { bucket: 0, rate: Rate { amount: 1, millis: u128::MAX } }];
    let records = vec![task_record(0, 1, 1, 0, 2)];
    assert_eq!(account_tasks(&records, &cpus, 12), Err(ProcessError::Overflow));
}
