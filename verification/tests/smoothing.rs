use delivery_user::smoothing::Smoother;

fn smoothed(series: &[i64]) -> Smoother {
    let mut smoother = Smoother::new(series[0]);
    for value in &series[1..] {
        smoother = smoother.push(*value);
    }
    smoother
}

#[test]
fn single_number_is_its_own_smoothed_value() {
    assert_eq!(Smoother::new(42).seconds(), 42);
    assert_eq!(Smoother::new(-42).seconds(), -42);
    assert_eq!(Smoother::new(0).seconds(), 0);
}

#[test]
fn second_number_weighs_one_fifth() {
    // 0.2 * 200 + 0.8 * 100 = 120
    assert_eq!(smoothed(&[100, 200]).seconds(), 120);
    // 0.2 * 0 + 0.8 * 100 = 80
    assert_eq!(smoothed(&[100, 0]).seconds(), 80);
}

#[test]
fn fraction_is_kept_between_steps() {
    // S1 = 0.2 * 20 + 0.8 * 10 = 12, S2 = 0.2 * 30 + 0.8 * 12 = 15.6
    let s = smoothed(&[10, 20, 30]);
    assert_eq!(s.seconds(), 15);
    // S3 = 0.2 * 2 + 0.8 * 15.6 = 12.88; rounding S2 down first would give 12.4
    let s = s.push(2);
    assert!(s.exceeded_by(13));
    assert!(!s.exceeded_by(12));
    // S4 = 0.2 * 13 + 0.8 * 12.88 = 12.904: S4 * 5 = 64.52
    let s = s.push(13);
    assert_eq!(s.seconds(), 12);
    // S5 = 0.96 + 0.8 * 12.904 = 0.2 * 4.8 would not be whole; take 5: 1 + 10.3232 = 11.3232
    assert_eq!(s.push(5).seconds(), 11);
}

#[test]
fn comparison_is_with_the_exact_value() {
    let s = smoothed(&[10, 20, 30]);
    // 15.6
    assert!(s.exceeded_by(16));
    assert!(!s.exceeded_by(15));
    let whole = smoothed(&[100, 200]);
    // exactly 120
    assert!(!whole.exceeded_by(120));
    assert!(whole.exceeded_by(121));
}

#[test]
fn negative_values_round_towards_zero() {
    // 0.2 * -4 + 0.8 * -3 = -3.2
    let s = smoothed(&[-3, -4]);
    assert_eq!(s.seconds(), -3);
    assert!(s.exceeded_by(-3));
    assert!(!s.exceeded_by(-4));
    // 0.2 * -5 + 0.8 * -5 = -5
    assert_eq!(smoothed(&[-5, -5]).seconds(), -5);
    // 0.2 * 1 + 0.8 * -1 = -0.6
    assert_eq!(smoothed(&[-1, 1]).seconds(), 0);
}

#[test]
fn long_series_stays_exact() {
    // A constant series has a constant smoothed value, however long it is:
    // any rounding on the way would show after two hundred steps.
    let mut s = Smoother::new(7);
    for _ in 0..200 {
        s = s.push(7);
    }
    assert_eq!(s.seconds(), 7);
    assert!(!s.exceeded_by(7));
    assert!(s.exceeded_by(8));
    // One step away from the constant: 0.2 * 12 + 0.8 * 7 = 8
    assert_eq!(s.push(12).seconds(), 8);
}

#[test]
fn extreme_values_do_not_overflow() {
    let s = smoothed(&[i64::MAX, i64::MAX, i64::MIN, i64::MIN, i64::MAX]);
    let _ = s.seconds();
    assert_eq!(smoothed(&[i64::MAX, i64::MAX]).seconds(), i64::MAX);
    assert_eq!(smoothed(&[i64::MIN, i64::MIN]).seconds(), i64::MIN);
}

#[test]
fn smoothed_value_agrees_with_floating_point() {
    let series: [i64; 10] = [180, 95, 240, 61, 300, 12, 175, 220, 45, 130];
    let mut expected = series[0] as f64;
    let mut s = Smoother::new(series[0]);
    for value in &series[1..] {
        expected = 0.2 * (*value as f64) + 0.8 * expected;
        s = s.push(*value);
    }
    // The floating-point value is far from a whole number here, so the
    // rounding error cannot change its whole part.
    assert!((expected - expected.round()).abs() > 1e-6);
    assert_eq!(s.seconds(), expected as i64);
}
