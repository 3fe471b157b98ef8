use peq_optim::curve::{CurveData, CurveError};
use peq_optim::de::Strategy;
use peq_optim::filters::{FilterType, PeqModel};
use peq_optim::loss::LossKind;
use peq_optim::optim::{ConfigError, OptimizationError, StopReason};
use peq_optim::{
    optimize, run_optimization_internal, validate_params, CancellationState, OptimizationParams,
    ProgressCallback, ProgressUpdate,
};
use std::cell::RefCell;

/// 1 kHz in milli-octaves above 1 Hz.
const KHZ: i64 = 9966;

struct Always(bool);

impl ProgressCallback for Always {
    fn on_progress(&self, _update: ProgressUpdate) -> bool {
        self.0
    }
}

struct Recorder(RefCell<Vec<(usize, u64)>>);

impl ProgressCallback for Recorder {
    fn on_progress(&self, update: ProgressUpdate) -> bool {
        self.0.borrow_mut().push((update.iteration, update.best_fitness));
        true
    }
}

/// Twenty samples half an octave apart, roughly 20 Hz to 20 kHz, one of
/// them at 1 kHz; flat but for a 6 dB dip about an octave wide at 1 kHz.
fn dip_curve() -> CurveData {
    let freq: Vec<i64> = (0..20).map(|k| KHZ + 524 * (k - 11)).collect();
    let spl: Vec<i64> = (0..20)
        .map(|k| match k {
            11 => -6000,
            10 | 12 => -3000,
            _ => 0,
        })
        .collect();
    CurveData::new(freq, spl).unwrap()
}

fn params(num_filters: usize) -> OptimizationParams {
    OptimizationParams {
        num_filters,
        sample_rate: 48_000,
        min_db: -12_000,
        max_db: 12_000,
        min_q: 500,
        max_q: 5000,
        min_freq: 7000,
        max_freq: 13_000,
        peq_model: PeqModel::Pk,
        free_types: vec![],
        loss: LossKind::Flat,
        population: 30,
        maxeval: 6000,
        strategy: Strategy::CurrentToBest1Bin,
        de_f: 800,
        de_cr: 900,
        adaptive: false,
        tolerance: 0,
        atolerance: 0,
        stall_generations: 0,
        refine: false,
        refine_maxeval: 0,
        min_spacing_oct: 500,
        spacing_weight: 20,
        smooth: false,
        smooth_n: 1,
        seed: 42,
        input_curve: Some(dip_curve()),
        target_curve: None,
    }
}

fn config_error(p: &OptimizationParams) -> ConfigError {
    match validate_params(p) {
        Err(OptimizationError::InvalidConfig(c)) => c,
        other => panic!("expected a configuration error, got {:?}", other),
    }
}

#[test]
fn single_peak_fills_a_dip() {
    let mut p = params(1);
    p.min_freq = 4000;
    p.max_freq = 14_500;
    let r = optimize(&p, &Always(true), &CancellationState::new()).unwrap();
    assert!(r.success);
    let filters = r.filters.unwrap();
    assert_eq!(filters.len(), 1);
    assert_eq!(filters[0].filter_type, FilterType::Peak);
    assert!((filters[0].freq - KHZ).abs() <= 300, "centre {}", filters[0].freq);
    assert!(filters[0].gain >= 4500 && filters[0].gain <= 7500, "gain {}", filters[0].gain);
    // Below 0.5 dB RMS: a mean square under 250 000 (milli-decibels squared).
    assert!(r.objective_value.unwrap() < 250_000);
    assert!(r.preference_score_after.unwrap() < r.preference_score_before.unwrap());
}

#[test]
fn same_seed_same_run() {
    let p = params(2);
    let a = optimize(&p, &Always(true), &CancellationState::new()).unwrap();
    let b = optimize(&p, &Always(true), &CancellationState::new()).unwrap();
    assert_eq!(a.filter_params, b.filter_params);
    assert_eq!(a.filters, b.filters);
    assert_eq!(a.objective_value, b.objective_value);
    assert_eq!(a.history, b.history);
    assert_eq!(a.evaluations, b.evaluations);
}

#[test]
fn evaluations_stay_within_budget() {
    let mut p = params(2);
    p.maxeval = 1000;
    let r = optimize(&p, &Always(true), &CancellationState::new()).unwrap();
    assert!(r.evaluations >= 1000);
    assert!(r.evaluations <= 1000 + 30);
    assert_eq!(r.stop_reason, Some(StopReason::MaxEvaluations));
    assert_eq!(r.history.len(), r.generations + 1);
}

#[test]
fn best_loss_never_rises() {
    let rec = Recorder(RefCell::new(Vec::new()));
    let r = optimize(&params(2), &rec, &CancellationState::new()).unwrap();
    for w in r.history.windows(2) {
        assert!(w[1] <= w[0]);
    }
    let seen = rec.0.borrow();
    assert_eq!(seen.len(), r.generations);
    for (k, (it, fit)) in seen.iter().enumerate() {
        assert_eq!(*it, k + 1);
        assert_eq!(*fit, r.history[k + 1]);
    }
    assert!(r.objective_value.unwrap() <= *r.history.last().unwrap());
}

#[test]
fn cancelled_before_start_still_reports_filters() {
    let cancel = CancellationState::new();
    cancel.cancel();
    let r = optimize(&params(3), &Always(true), &cancel).unwrap();
    assert!(r.success);
    assert_eq!(r.filters.unwrap().len(), 3);
    assert_eq!(r.generations, 0);
    assert_eq!(r.evaluations, 30);
    assert_eq!(r.stop_reason, Some(StopReason::Cancelled));
    assert_eq!(r.objective_value, Some(r.history[0]));
}

#[test]
fn reset_flag_lets_a_run_proceed() {
    let cancel = CancellationState::new();
    cancel.cancel();
    assert!(cancel.is_cancelled());
    cancel.reset();
    assert!(!cancel.is_cancelled());
    let shared = cancel.clone();
    shared.cancel();
    assert!(cancel.is_cancelled());
}

#[test]
fn declining_callback_stops_after_one_generation() {
    let r = optimize(&params(2), &Always(false), &CancellationState::new()).unwrap();
    assert!(r.success);
    assert_eq!(r.generations, 1);
    assert_eq!(r.evaluations, 60);
    assert_eq!(r.stop_reason, Some(StopReason::CallbackAbort));
}

#[test]
fn stagnation_ends_the_search() {
    let mut p = params(1);
    p.maxeval = 100_000;
    p.atolerance = u64::MAX / 2;
    p.stall_generations = 3;
    let r = optimize(&p, &Always(true), &CancellationState::new()).unwrap();
    assert_eq!(r.stop_reason, Some(StopReason::Converged));
    assert_eq!(r.generations, 3);
}

#[test]
fn every_reported_vector_lies_in_bounds() {
    for strategy in [Strategy::Rand1Bin, Strategy::Best1Bin, Strategy::CurrentToBest1Bin] {
        let mut p = params(3);
        p.strategy = strategy;
        p.adaptive = true;
        p.de_f = 2000;
        p.maxeval = 2000;
        p.peq_model = PeqModel::HpPkLp;
        let r = optimize(&p, &Always(true), &CancellationState::new()).unwrap();
        let x = r.filter_params.unwrap();
        assert_eq!(x.len(), 9);
        for b in 0..3 {
            assert!(x[3 * b] >= 7000 && x[3 * b] <= 13_000);
            assert!(x[3 * b + 1] >= 500 && x[3 * b + 1] <= 5000);
            assert!(x[3 * b + 2] >= -12_000 && x[3 * b + 2] <= 12_000);
        }
        let f = r.filters.unwrap();
        assert_eq!(f[0].filter_type, FilterType::HighPass);
        assert_eq!(f[2].filter_type, FilterType::LowPass);
        assert_eq!(f[0].gain, 0);
    }
}

#[test]
fn refinement_never_worsens() {
    let mut p = params(2);
    p.maxeval = 300;
    let plain = optimize(&p, &Always(true), &CancellationState::new()).unwrap();
    p.refine = true;
    p.refine_maxeval = 500;
    let refined = optimize(&p, &Always(true), &CancellationState::new()).unwrap();
    assert!(refined.objective_value.unwrap() <= plain.objective_value.unwrap());
    assert!(refined.evaluations <= plain.evaluations + 500);
}

#[test]
fn target_curve_is_interpolated_on_the_grid() {
    let mut p = params(1);
    p.loss = LossKind::Target;
    p.input_curve = Some(CurveData::new(vec![8000, 9000, 10000], vec![0, 0, 0]).unwrap());
    p.target_curve = Some(CurveData::new(vec![7000, 11000], vec![4000, 8000]).unwrap());
    let r = optimize(&p, &Always(true), &CancellationState::new()).unwrap();
    // Before any correction the deviation is -5, -6 and -7 dB.
    assert_eq!(r.preference_score_before, Some((25_000_000 + 36_000_000 + 49_000_000) / 3));
    let dev = r.deviation_curve.unwrap();
    let resp = r.filter_response.unwrap();
    assert_eq!(dev[0], resp[0] - 5000);
    assert_eq!(dev[2], resp[2] - 7000);
}

#[test]
fn missing_input_is_refused() {
    let mut p = params(1);
    p.input_curve = None;
    assert_eq!(validate_params(&p), Err(OptimizationError::EmptyInput));
    let r = run_optimization_internal(&p, &Always(true), &CancellationState::new());
    assert!(!r.success);
    assert!(r.filters.is_none());
    assert_eq!(r.error, Some(OptimizationError::EmptyInput));
    assert_eq!(r.error_message(), Some("No input curve data available"));
}

#[test]
fn invalid_curves_are_refused() {
    let mut p = params(1);
    p.input_curve = Some(CurveData { freq: vec![2000, 1000], spl: vec![0, 0] });
    assert_eq!(validate_params(&p), Err(OptimizationError::InvalidCurve(CurveError::NotIncreasing)));
    let mut p = params(1);
    p.loss = LossKind::Target;
    p.target_curve = Some(CurveData { freq: vec![1000], spl: vec![0] });
    assert_eq!(validate_params(&p), Err(OptimizationError::InvalidCurve(CurveError::TooShort)));
}

#[test]
fn target_loss_needs_a_target() {
    let mut p = params(1);
    p.loss = LossKind::Target;
    assert_eq!(config_error(&p), ConfigError::MissingTarget);
}

#[test]
fn settings_out_of_range_are_refused() {
    let base = params(2);
    assert_eq!(validate_params(&base), Ok(()));

    let mut p = base.clone();
    p.num_filters = 0;
    assert_eq!(config_error(&p), ConfigError::FilterCount);
    p.num_filters = 21;
    assert_eq!(config_error(&p), ConfigError::FilterCount);

    let mut p = base.clone();
    p.min_db = 3000;
    p.max_db = 3000;
    assert_eq!(config_error(&p), ConfigError::GainRange);

    let mut p = base.clone();
    p.min_q = 4000;
    p.max_q = 1000;
    assert_eq!(config_error(&p), ConfigError::QRange);
    p.min_q = 0;
    assert_eq!(config_error(&p), ConfigError::QRange);

    let mut p = base.clone();
    p.min_freq = 13_000;
    p.max_freq = 7000;
    assert_eq!(config_error(&p), ConfigError::FreqRange);

    let mut p = base.clone();
    p.population = 3;
    assert_eq!(config_error(&p), ConfigError::PopulationTooSmall);
    p.population = 10_001;
    assert_eq!(config_error(&p), ConfigError::PopulationTooLarge);

    let mut p = base.clone();
    p.maxeval = 100_000_001;
    assert_eq!(config_error(&p), ConfigError::Evaluations);

    let mut p = base.clone();
    p.de_f = 2001;
    assert_eq!(config_error(&p), ConfigError::MutationFactor);

    let mut p = base.clone();
    p.de_cr = 1001;
    assert_eq!(config_error(&p), ConfigError::Recombination);

    let mut p = base.clone();
    p.tolerance = 1_000_001;
    assert_eq!(config_error(&p), ConfigError::Tolerance);

    let mut p = base.clone();
    p.min_spacing_oct = -1;
    assert_eq!(config_error(&p), ConfigError::Spacing);

    let mut p = base.clone();
    p.spacing_weight = 1_000_001;
    assert_eq!(config_error(&p), ConfigError::SpacingWeight);

    let mut p = base.clone();
    p.smooth = true;
    p.smooth_n = 0;
    assert_eq!(config_error(&p), ConfigError::Smoothing);

    let mut p = base.clone();
    p.sample_rate = 0;
    assert_eq!(config_error(&p), ConfigError::SampleRate);

    let mut p = base.clone();
    p.peq_model = PeqModel::Free;
    p.free_types = vec![FilterType::Peak];
    assert_eq!(config_error(&p), ConfigError::FreeTypes);
}

#[test]
fn refused_run_result_carries_only_the_error() {
    let mut p = params(1);
    p.population = 2;
    let r = run_optimization_internal(&p, &Always(true), &CancellationState::new());
    assert!(!r.success);
    assert_eq!(r.error, Some(OptimizationError::InvalidConfig(ConfigError::PopulationTooSmall)));
    assert!(r.filter_params.is_none());
    assert!(r.objective_value.is_none());
    assert_eq!(r.evaluations, 0);
}

#[test]
fn smoothing_run_succeeds() {
    let mut p = params(1);
    p.smooth = true;
    p.smooth_n = 2;
    p.maxeval = 600;
    let r = optimize(&p, &Always(true), &CancellationState::new()).unwrap();
    assert!(r.success);
    assert_eq!(r.filter_response.unwrap().len(), 20);
}

#[test]
fn same_seed_same_refined_run() {
    let mut p = params(2);
    p.maxeval = 600;
    p.refine = true;
    p.refine_maxeval = 400;
    let a = optimize(&p, &Always(true), &CancellationState::new()).unwrap();
    let b = optimize(&p, &Always(true), &CancellationState::new()).unwrap();
    assert_eq!(a.refine_moves, b.refine_moves);
    assert!(a.refine_moves > 0);
    assert_eq!(a.filter_params, b.filter_params);
    assert_eq!(a.objective_value, b.objective_value);
}

#[test]
fn different_seeds_start_differently() {
    let mut p = params(2);
    let cancel = CancellationState::new();
    cancel.cancel();
    let a = optimize(&p, &Always(true), &cancel).unwrap();
    p.seed = 43;
    let b = optimize(&p, &Always(true), &cancel).unwrap();
    assert_ne!(a.filter_params, b.filter_params);
}

#[test]
fn default_settings_are_valid_and_run() {
    let p = OptimizationParams::new(dip_curve());
    assert_eq!(validate_params(&p), Ok(()));
    assert_eq!(p.num_filters, 5);
    let r = optimize(&p, &Always(true), &CancellationState::new()).unwrap();
    let f = r.filters.unwrap();
    assert_eq!(f.len(), 5);
    for band in &f {
        assert_eq!(band.filter_type, FilterType::Peak);
        assert!(band.gain >= 1000 && band.gain <= 3000);
        assert!(band.q >= 1000 && band.q <= 3000);
        assert!(band.freq >= 5907 && band.freq <= 13_966);
    }
    assert!(r.evaluations <= 20_000 + 30);
}
