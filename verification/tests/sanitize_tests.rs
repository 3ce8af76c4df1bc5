use bms_acquisition::sanitize::sanitize;
use bms_acquisition::stats::voltage_stats;

#[test]
fn sanitize_replaces_outliers_with_raw_average() {
    // Raw average (3000 + 4200 + 3700 + 5000) / 4 = 3975; only the 5000 lies
    // outside the fence and becomes that average.
    let mut v: Vec<u16> = vec![3000, 4200, 3700, 5000];
    let avg = voltage_stats(&v, 0, 4).unwrap().avg_voltage;
    assert_eq!(avg, 3975);
    sanitize(&mut v, 3000, 4200, avg);
    assert_eq!(v, vec![3000, 4200, 3700, 3975]);
}

#[test]
fn sanitize_in_range_is_idempotent() {
    let original: Vec<u16> = vec![3000, 4200, 3700, 3975];
    let mut v = original.clone();
    sanitize(&mut v, 3000, 4200, 3968);
    assert_eq!(v, original);
    sanitize(&mut v, 3000, 4200, 3968);
    assert_eq!(v, original);
}

#[test]
fn sanitize_single_outlier_touches_only_that_sample() {
    let mut v: Vec<u16> = vec![3500, 3600, 9999, 3700];
    let avg = voltage_stats(&v, 0, 4).unwrap().avg_voltage;
    assert_eq!(avg, (3500 + 3600 + 9999 + 3700) / 4);
    sanitize(&mut v, 3000, 4200, avg);
    assert_eq!(v, vec![3500, 3600, avg, 3700]);
}

#[test]
fn sanitize_fence_is_inclusive() {
    let mut v: Vec<u16> = vec![3000, 4200, 2999, 4201];
    sanitize(&mut v, 3000, 4200, 7);
    assert_eq!(v, vec![3000, 4200, 7, 7]);
}

#[test]
fn sanitize_empty_array_stays_empty() {
    let mut v: Vec<u16> = Vec::new();
    sanitize(&mut v, 3000, 4200, 0);
    assert!(v.is_empty());
}
