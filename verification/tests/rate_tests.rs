use eflect::rate::{gcd, Rate, Ratio};

#[test]
fn gcd_of_two_periods() {
    assert_eq!(gcd(50, 75), 25);
    assert_eq!(gcd(75, 50), 25);
    assert_eq!(gcd(7, 0), 7);
    assert_eq!(gcd(0, 7), 7);
    assert_eq!(gcd(13, 17), 1);
    assert_eq!(gcd(50, 50), 50);
}

#[test]
fn rates_over_one_time_add_their_amounts() {
    let a = Rate { amount: 3, millis: 50 };
    let b = Rate { amount: -1, millis: 50 };
    assert_eq!(a.checked_add(&b), Some(Rate { amount: 2, millis: 50 }));
}

#[test]
fn rates_add_over_the_least_common_time_base() {
    let a = Rate { amount: 1, millis: 50 };
    let b = Rate { amount: 1, millis: 75 };
    assert_eq!(a.checked_add(&b), Some(Rate { amount: 5, millis: 150 }));
    let sum = a.checked_add(&b).unwrap().checked_add(&a).unwrap();
    assert_eq!(sum, Rate { amount: 8, millis: 150 });
}

#[test]
fn a_sum_that_does_not_fit_is_no_rate() {
    let a = Rate { amount: 1, millis: u128::MAX };
    let b = Rate { amount: 1, millis: u128::MAX - 1 };
    assert_eq!(a.checked_add(&b), None);
    let c = Rate { amount: i128::MAX, millis: 1 };
    assert_eq!(c.checked_add(&c), None);
    let d = Rate { amount: i128::MAX, millis: 2 };
    let e = Rate { amount: 1, millis: 3 };
    assert_eq!(d.checked_add(&e), None);
}

#[test]
fn the_sign_of_a_rate_is_that_of_its_amount() {
    assert!(Rate { amount: 1, millis: 1000 }.is_positive());
    assert!(!Rate { amount: 0, millis: 1000 }.is_positive());
    assert!(!Rate { amount: -1, millis: 1000 }.is_positive());
}

#[test]
fn the_quotient_of_two_rates_is_exact() {
    let task = Rate { amount: 5, millis: 1 };
    let cpu = Rate { amount: 20, millis: 1 };
    let quotient = task.checked_div(&cpu).unwrap();
    assert_eq!(quotient, Ratio { num: 5, den: 20 });
    assert_eq!(quotient.num as f64 / quotient.den as f64, 0.25);
    let slow = Rate { amount: 1, millis: 50 };
    let fast = Rate { amount: 3, millis: 75 };
    assert_eq!(slow.checked_div(&fast), Some(Ratio { num: 75, den: 150 }));
}

#[test]
fn a_quotient_that_does_not_fit_is_no_ratio() {
    let task = Rate { amount: 2, millis: 1 };
    let cpu = Rate { amount: 1, millis: u128::MAX };
    assert_eq!(task.checked_div(&cpu), None);
    let long = Rate { amount: 1, millis: u128::MAX };
    let busy = Rate { amount: 2, millis: 1 };
    assert_eq!(long.checked_div(&busy), None);
}
