use peq_optim::curve::{CurveData, CurveError, MAX_LEVEL};

fn three_points() -> CurveData {
    CurveData::new(vec![1000, 2000, 3000], vec![0, 1000, -1000]).unwrap()
}

#[test]
fn curve_accepts_valid_samples() {
    let c = three_points();
    assert_eq!(c.freq, vec![1000, 2000, 3000]);
    assert_eq!(c.spl, vec![0, 1000, -1000]);
}

#[test]
fn curve_rejects_length_mismatch() {
    let r = CurveData::new(vec![1000, 2000], vec![0]);
    assert_eq!(r.unwrap_err(), CurveError::LengthMismatch);
}

#[test]
fn curve_rejects_single_sample() {
    let r = CurveData::new(vec![1000], vec![0]);
    assert_eq!(r.unwrap_err(), CurveError::TooShort);
}

#[test]
fn curve_rejects_empty() {
    let r = CurveData::new(vec![], vec![]);
    assert_eq!(r.unwrap_err(), CurveError::TooShort);
}

#[test]
fn curve_rejects_nonpositive_frequency() {
    let r = CurveData::new(vec![0, 2000], vec![0, 0]);
    assert_eq!(r.unwrap_err(), CurveError::FrequencyOutOfRange);
    let r = CurveData::new(vec![1000, 20_001], vec![0, 0]);
    assert_eq!(r.unwrap_err(), CurveError::FrequencyOutOfRange);
}

#[test]
fn curve_rejects_unsorted_frequencies() {
    let r = CurveData::new(vec![1000, 3000, 2000], vec![0, 0, 0]);
    assert_eq!(r.unwrap_err(), CurveError::NotIncreasing);
    let r = CurveData::new(vec![1000, 1000], vec![0, 0]);
    assert_eq!(r.unwrap_err(), CurveError::NotIncreasing);
}

#[test]
fn curve_rejects_level_out_of_range() {
    let r = CurveData::new(vec![1000, 2000], vec![0, MAX_LEVEL + 1]);
    assert_eq!(r.unwrap_err(), CurveError::LevelOutOfRange);
}

#[test]
fn curve_bounds() {
    let c = three_points();
    assert_eq!(c.min_freq(), 1000);
    assert_eq!(c.max_freq(), 3000);
    assert_eq!(c.min_spl(), -1000);
    assert_eq!(c.max_spl(), 1000);
}

#[test]
fn interpolation_between_samples() {
    let c = three_points();
    assert_eq!(c.interpolate(1500), 500);
    assert_eq!(c.interpolate(2000), 1000);
    assert_eq!(c.interpolate(2250), 500);
    assert_eq!(c.interpolate(2500), 0);
}

#[test]
fn interpolation_clamps_to_edges() {
    let c = three_points();
    assert_eq!(c.interpolate(500), 0);
    assert_eq!(c.interpolate(1000), 0);
    assert_eq!(c.interpolate(3000), -1000);
    assert_eq!(c.interpolate(9000), -1000);
}

#[test]
fn interpolation_rounds_down() {
    let c = CurveData::new(vec![1000, 2000], vec![0, -999]).unwrap();
    assert_eq!(c.interpolate(1001), -1);
    let c = CurveData::new(vec![1000, 2000], vec![0, 999]).unwrap();
    assert_eq!(c.interpolate(1001), 0);
}

#[test]
fn smoothing_averages_over_window() {
    let c = CurveData::new(vec![1000, 1100, 1200, 3000], vec![0, 300, 600, 0]).unwrap();
    let s = c.smooth(2);
    assert_eq!(s.freq, c.freq);
    assert_eq!(s.spl, vec![300, 300, 300, 0]);
}

#[test]
fn smoothing_keeps_a_flat_curve() {
    let c = CurveData::new(vec![1000, 1500, 2000], vec![-700, -700, -700]).unwrap();
    assert_eq!(c.smooth(3).spl, vec![-700, -700, -700]);
}

#[test]
fn smoothing_rounds_down() {
    let c = CurveData::new(vec![1000, 1100], vec![0, -1]).unwrap();
    assert_eq!(c.smooth(1).spl, vec![-1, -1]);
}
