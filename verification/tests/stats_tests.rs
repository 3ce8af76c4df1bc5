use bms_acquisition::errors::AcqError;
use bms_acquisition::stats::{temp_stats, voltage_stats};

#[test]
fn stats_exact_values() {
    let v: Vec<u16> = vec![3000, 4200, 3700, 5000];
    let st = voltage_stats(&v, 0, 4).unwrap();
    assert_eq!(st.min_voltage, 3000);
    assert_eq!(st.max_voltage, 5000);
    assert_eq!(st.avg_voltage, 3975);
    assert_eq!(st.delta_voltage, 2000);
}

#[test]
fn stats_delta_is_max_minus_min_and_avg_between() {
    let v: Vec<u16> = vec![17, 3, 991, 44, 44, 250];
    let st = voltage_stats(&v, 0, v.len()).unwrap();
    assert_eq!(st.delta_voltage, st.max_voltage - st.min_voltage);
    assert!(st.min_voltage <= st.avg_voltage);
    assert!(st.avg_voltage <= st.max_voltage);
}

#[test]
fn stats_single_sample() {
    let v: Vec<u16> = vec![42];
    let st = voltage_stats(&v, 0, 1).unwrap();
    assert_eq!(st.min_voltage, 42);
    assert_eq!(st.max_voltage, 42);
    assert_eq!(st.avg_voltage, 42);
    assert_eq!(st.delta_voltage, 0);
}

#[test]
fn stats_subrange_only() {
    let v: Vec<u16> = vec![1, 100, 200, 300, 9];
    let st = voltage_stats(&v, 1, 4).unwrap();
    assert_eq!(st.min_voltage, 100);
    assert_eq!(st.max_voltage, 300);
    assert_eq!(st.avg_voltage, 200);
    assert_eq!(st.delta_voltage, 200);
}

#[test]
fn stats_truncating_average() {
    let v: Vec<u16> = vec![1, 2];
    let st = voltage_stats(&v, 0, 2).unwrap();
    assert_eq!(st.avg_voltage, 1);
}

#[test]
fn stats_empty_range_is_refused() {
    let v: Vec<u16> = vec![5, 6, 7];
    assert_eq!(voltage_stats(&v, 2, 2), Err(AcqError::EmptySeries));
    let empty: Vec<u16> = Vec::new();
    assert_eq!(voltage_stats(&empty, 0, 0), Err(AcqError::EmptySeries));
}

#[test]
fn stats_extremes_of_u16() {
    let v: Vec<u16> = vec![0, 65535];
    let st = voltage_stats(&v, 0, 2).unwrap();
    assert_eq!(st.min_voltage, 0);
    assert_eq!(st.max_voltage, 65535);
    assert_eq!(st.avg_voltage, 32767);
    assert_eq!(st.delta_voltage, 65535);
}

#[test]
fn temp_stats_exact_values() {
    let v: Vec<u16> = vec![210, 250, 320];
    let st = temp_stats(&v, 0, 3).unwrap();
    assert_eq!(st.min_temp, 210);
    assert_eq!(st.max_temp, 320);
    assert_eq!(st.avg_temp, 260);
    assert_eq!(st.delta_temp, 110);
    assert_eq!(st.min_temp as f32 / 10.0, 21.0);
    assert_eq!(st.max_temp as f32 / 10.0, 32.0);
}

#[test]
fn temp_stats_empty_range_is_refused() {
    let v: Vec<u16> = vec![210];
    assert_eq!(temp_stats(&v, 1, 1), Err(AcqError::EmptySeries));
}
