//! The optimization run: checks the settings, builds the objective, runs
//! the global search and the optional refinement, and assembles the result.
use vstd::prelude::*;
use crate::curve::{
    CurveData, CurveError, MAX_FREQ, MAX_LEVEL, curve_fault, half_window, interpolated, levels_within,
    lemma_no_fault_valid,
};
use crate::de::{
    DeModel, DeState, SearchBounds, generation_prefix, generations_after, init_prefix, stagnant, Strategy, MAX_MUTATION, MAX_POPULATION, bounds_ok, copy_vec, is_stagnant,
    within,
};
use crate::filters::{
    FilterParameter, FilterType, PeqModel, MAX_FILTERS, MAX_GAIN, MAX_Q, chain_at, chain_response,
    decode, model_fits,
};
use crate::local::{compass_after, compass_start, refine};
use crate::loss::{
    LossKind, Objective, ObjectiveModel, MAX_SPACING_WEIGHT, deviation, mean_square,
    mean_square_deviation,
};
use crate::progress::{CancellationState, ProgressCallback, ProgressUpdate};

verus! {

/// Largest evaluation budget of either phase.
pub const MAX_EVALUATIONS: usize = 100_000_000;

/// Settings of one run. Frequencies are in milli-octaves above 1 Hz, gains
/// in milli-decibels, quality factors, mutation and recombination factors
/// in thousandths, the relative tolerance in millionths.
#[derive(Clone, Debug)]
pub struct OptimizationParams {
    pub num_filters: usize,
    /// Sample rate in Hz.
    pub sample_rate: u64,
    pub min_db: i64,
    pub max_db: i64,
    pub min_q: i64,
    pub max_q: i64,
    pub min_freq: i64,
    pub max_freq: i64,
    pub peq_model: PeqModel,
    /// Kinds of the bands when `peq_model` is free.
    pub free_types: Vec<FilterType>,
    pub loss: LossKind,
    pub population: usize,
    pub maxeval: usize,
    pub strategy: Strategy,
    pub de_f: u64,
    pub de_cr: u64,
    /// Each member draws its mutation factor from `[de_f / 2, de_f]`.
    pub adaptive: bool,
    pub tolerance: u64,
    pub atolerance: u64,
    /// Stagnant generations in a row that end the search; zero never ends it.
    pub stall_generations: usize,
    pub refine: bool,
    pub refine_maxeval: usize,
    pub min_spacing_oct: i64,
    pub spacing_weight: u64,
    pub smooth: bool,
    /// Smoothing over `1/smooth_n` octave.
    pub smooth_n: u64,
    pub seed: u64,
    pub input_curve: Option<CurveData>,
    pub target_curve: Option<CurveData>,
}

impl OptimizationParams {
    /// The usual settings for a measured curve: five peaks between 60 Hz
    /// and 16 kHz with gains of 1 to 3 dB and Q of 1 to 3, kept half an
    /// octave apart; a population of 30 and 20 000 evaluations; a flat
    /// target and smoothing over one octave.
    pub fn new(input_curve: CurveData) -> (r: OptimizationParams)
        ensures
            r.num_filters == 5,
            r.sample_rate == 48_000,
            r.min_db == 1000 && r.max_db == 3000,
            r.min_q == 1000 && r.max_q == 3000,
            r.min_freq == 5907 && r.max_freq == 13_966,
            r.peq_model == PeqModel::Pk,
            r.free_types@.len() == 0,
            r.loss == LossKind::Flat,
            r.population == 30,
            r.maxeval == 20_000,
            r.strategy == Strategy::CurrentToBest1Bin,
            r.de_f == 800 && r.de_cr == 900,
            !r.adaptive,
            r.tolerance == 1000 && r.atolerance == 100,
            r.stall_generations == 25,
            !r.refine,
            r.refine_maxeval == 2000,
            r.min_spacing_oct == 500,
            r.spacing_weight == 20,
            r.smooth && r.smooth_n == 1,
            r.seed == 0,
            r.input_curve == Some(input_curve),
            r.target_curve is None,
    {
        OptimizationParams {
            num_filters: 5,
            sample_rate: 48_000,
            min_db: 1000,
            max_db: 3000,
            min_q: 1000,
            max_q: 3000,
            min_freq: 5907,
            max_freq: 13_966,
            peq_model: PeqModel::Pk,
            free_types: Vec::new(),
            loss: LossKind::Flat,
            population: 30,
            maxeval: 20_000,
            strategy: Strategy::CurrentToBest1Bin,
            de_f: 800,
            de_cr: 900,
            adaptive: false,
            tolerance: 1000,
            atolerance: 100,
            stall_generations: 25,
            refine: false,
            refine_maxeval: 2000,
            min_spacing_oct: 500,
            spacing_weight: 20,
            smooth: true,
            smooth_n: 1,
            seed: 0,
            input_curve: Some(input_curve),
            target_curve: None,
        }
    }
}

/// A setting out of range.
#[derive(Clone, Copy, Debug, PartialEq, Eq, Structural)]
pub enum ConfigError {
    FilterCount,
    GainRange,
    QRange,
    FreqRange,
    PopulationTooSmall,
    PopulationTooLarge,
    Evaluations,
    MutationFactor,
    Recombination,
    Tolerance,
    Spacing,
    SpacingWeight,
    Smoothing,
    SampleRate,
    FreeTypes,
    MissingTarget,
}

/// Why a run was refused before any search.
#[derive(Clone, Copy, Debug, PartialEq, Eq, Structural)]
pub enum OptimizationError {
    /// No measured curve.
    EmptyInput,
    /// A curve that is not valid.
    InvalidCurve(CurveError),
    /// A setting out of range.
    InvalidConfig(ConfigError),
}

impl OptimizationError {
    /// A sentence for the user.
    pub fn message(&self) -> &'static str {
        match self {
            OptimizationError::EmptyInput => "No input curve data available",
            OptimizationError::InvalidCurve(_) => "Invalid curve",
            OptimizationError::InvalidConfig(c) => match c {
                ConfigError::FilterCount => "Number of filters must be between 1 and 20",
                ConfigError::GainRange => "Min dB must be less than Max dB",
                ConfigError::QRange => "Min Q must be less than Max Q",
                ConfigError::FreqRange => "Min frequency must be less than Max frequency",
                ConfigError::PopulationTooSmall => "Population must hold at least 4 members",
                ConfigError::PopulationTooLarge => "Population is too large",
                ConfigError::Evaluations => "Evaluation budget is too large",
                ConfigError::MutationFactor => "Mutation factor is out of range",
                ConfigError::Recombination => "Recombination factor is out of range",
                ConfigError::Tolerance => "Tolerance is out of range",
                ConfigError::Spacing => "Minimum spacing is out of range",
                ConfigError::SpacingWeight => "Spacing weight is out of range",
                ConfigError::Smoothing => "Smoothing needs a positive fraction of an octave",
                ConfigError::SampleRate => "Sample rate must be positive",
                ConfigError::FreeTypes => "A free topology needs one filter type per band",
                ConfigError::MissingTarget => "No target curve data available",
            },
        }
    }
}

/// The first check of the numeric settings that fails, if any.
pub open spec fn settings_fault(p: OptimizationParams) -> Option<OptimizationError> {
    if !(1 <= p.num_filters <= MAX_FILTERS) {
        Some(OptimizationError::InvalidConfig(ConfigError::FilterCount))
    } else if !(-MAX_GAIN <= p.min_db < p.max_db <= MAX_GAIN) {
        Some(OptimizationError::InvalidConfig(ConfigError::GainRange))
    } else if !(0 < p.min_q < p.max_q <= MAX_Q) {
        Some(OptimizationError::InvalidConfig(ConfigError::QRange))
    } else if !(0 < p.min_freq < p.max_freq <= MAX_FREQ) {
        Some(OptimizationError::InvalidConfig(ConfigError::FreqRange))
    } else if p.population < 4 {
        Some(OptimizationError::InvalidConfig(ConfigError::PopulationTooSmall))
    } else if p.population > MAX_POPULATION {
        Some(OptimizationError::InvalidConfig(ConfigError::PopulationTooLarge))
    } else if p.maxeval > MAX_EVALUATIONS || p.refine_maxeval > MAX_EVALUATIONS {
        Some(OptimizationError::InvalidConfig(ConfigError::Evaluations))
    } else if p.de_f > MAX_MUTATION {
        Some(OptimizationError::InvalidConfig(ConfigError::MutationFactor))
    } else if p.de_cr > 1000 {
        Some(OptimizationError::InvalidConfig(ConfigError::Recombination))
    } else if p.tolerance > 1_000_000 {
        Some(OptimizationError::InvalidConfig(ConfigError::Tolerance))
    } else if !(0 <= p.min_spacing_oct <= MAX_FREQ) {
        Some(OptimizationError::InvalidConfig(ConfigError::Spacing))
    } else if p.spacing_weight > MAX_SPACING_WEIGHT {
        Some(OptimizationError::InvalidConfig(ConfigError::SpacingWeight))
    } else if p.smooth && p.smooth_n == 0 {
        Some(OptimizationError::InvalidConfig(ConfigError::Smoothing))
    } else if p.sample_rate == 0 {
        Some(OptimizationError::InvalidConfig(ConfigError::SampleRate))
    } else if !model_fits(p.peq_model, p.free_types@, p.num_filters as int) {
        Some(OptimizationError::InvalidConfig(ConfigError::FreeTypes))
    } else {
        None
    }
}

/// The first check of the curves that fails, if any.
pub open spec fn curves_fault(p: OptimizationParams) -> Option<OptimizationError> {
    if p.input_curve is None {
        Some(OptimizationError::EmptyInput)
    } else if curve_fault(p.input_curve.unwrap().freq@, p.input_curve.unwrap().spl@) is Some {
        Some(OptimizationError::InvalidCurve(curve_fault(p.input_curve.unwrap().freq@, p.input_curve.unwrap().spl@).unwrap()))
    } else if p.loss == LossKind::Target && p.target_curve is None {
        Some(OptimizationError::InvalidConfig(ConfigError::MissingTarget))
    } else if p.loss == LossKind::Target && curve_fault(p.target_curve.unwrap().freq@, p.target_curve.unwrap().spl@) is Some {
        Some(OptimizationError::InvalidCurve(curve_fault(p.target_curve.unwrap().freq@, p.target_curve.unwrap().spl@).unwrap()))
    } else {
        None
    }
}

/// The first check that the settings fail, if any.
pub open spec fn config_fault(p: OptimizationParams) -> Option<OptimizationError> {
    if settings_fault(p) is Some {
        settings_fault(p)
    } else {
        curves_fault(p)
    }
}

/// Checks the settings as a whole, before any evaluation.
pub fn validate_params(p: &OptimizationParams) -> (r: Result<(), OptimizationError>)
    ensures
        match r {
            Ok(_) => config_fault(*p) is None,
            Err(e) => config_fault(*p) == Some(e),
        },
{
    match check_settings(p) {
        Err(e) => Err(e),
        Ok(_) => check_curves(p),
    }
}

fn check_settings(p: &OptimizationParams) -> (r: Result<(), OptimizationError>)
    ensures
        match r {
            Ok(_) => settings_fault(*p) is None,
            Err(e) => settings_fault(*p) == Some(e),
        },
{
    if p.num_filters < 1 || p.num_filters > MAX_FILTERS {
        return Err(OptimizationError::InvalidConfig(ConfigError::FilterCount));
    }
    if !(-MAX_GAIN <= p.min_db && p.min_db < p.max_db && p.max_db <= MAX_GAIN) {
        return Err(OptimizationError::InvalidConfig(ConfigError::GainRange));
    }
    if !(0 < p.min_q && p.min_q < p.max_q && p.max_q <= MAX_Q) {
        return Err(OptimizationError::InvalidConfig(ConfigError::QRange));
    }
    if !(0 < p.min_freq && p.min_freq < p.max_freq && p.max_freq <= MAX_FREQ) {
        return Err(OptimizationError::InvalidConfig(ConfigError::FreqRange));
    }
    if p.population < 4 {
        return Err(OptimizationError::InvalidConfig(ConfigError::PopulationTooSmall));
    }
    if p.population > MAX_POPULATION {
        return Err(OptimizationError::InvalidConfig(ConfigError::PopulationTooLarge));
    }
    if p.maxeval > MAX_EVALUATIONS || p.refine_maxeval > MAX_EVALUATIONS {
        return Err(OptimizationError::InvalidConfig(ConfigError::Evaluations));
    }
    if p.de_f > MAX_MUTATION {
        return Err(OptimizationError::InvalidConfig(ConfigError::MutationFactor));
    }
    if p.de_cr > 1000 {
        return Err(OptimizationError::InvalidConfig(ConfigError::Recombination));
    }
    if p.tolerance > 1_000_000 {
        return Err(OptimizationError::InvalidConfig(ConfigError::Tolerance));
    }
    if !(0 <= p.min_spacing_oct && p.min_spacing_oct <= MAX_FREQ) {
        return Err(OptimizationError::InvalidConfig(ConfigError::Spacing));
    }
    if p.spacing_weight > MAX_SPACING_WEIGHT {
        return Err(OptimizationError::InvalidConfig(ConfigError::SpacingWeight));
    }
    if p.smooth && p.smooth_n == 0 {
        return Err(OptimizationError::InvalidConfig(ConfigError::Smoothing));
    }
    if p.sample_rate == 0 {
        return Err(OptimizationError::InvalidConfig(ConfigError::SampleRate));
    }
    if p.peq_model == PeqModel::Free && p.free_types.len() != p.num_filters {
        return Err(OptimizationError::InvalidConfig(ConfigError::FreeTypes));
    }
    Ok(())
}

fn check_curves(p: &OptimizationParams) -> (r: Result<(), OptimizationError>)
    ensures
        match r {
            Ok(_) => curves_fault(*p) is None,
            Err(e) => curves_fault(*p) == Some(e),
        },
{
    match &p.input_curve {
        None => {
            return Err(OptimizationError::EmptyInput);
        },
        Some(c) => {
            if let Err(e) = CurveData::check(&c.freq, &c.spl) {
                return Err(OptimizationError::InvalidCurve(e));
            }
        },
    }
    if p.loss == LossKind::Target {
        match &p.target_curve {
            None => {
                return Err(OptimizationError::InvalidConfig(ConfigError::MissingTarget));
            },
            Some(t) => {
                if let Err(e) = CurveData::check(&t.freq, &t.spl) {
                    return Err(OptimizationError::InvalidCurve(e));
                }
            },
        }
    }
    Ok(())
}

/// Target levels on the grid of the measured curve: zero for a flat target,
/// else the target curve interpolated at each grid frequency.
pub open spec fn target_levels(p: OptimizationParams) -> Seq<i64> {
    let input = p.input_curve.unwrap();
    match p.loss {
        LossKind::Flat => Seq::new(input.freq@.len(), |i: int| 0i64),
        LossKind::Target => {
            let t = p.target_curve.unwrap();
            Seq::new(input.freq@.len(), |i: int| interpolated(t.freq@, t.spl@, input.freq@[i] as int) as i64)
        },
    }
}

/// The objective that a run with these settings minimizes.
pub open spec fn objective_model_of(p: OptimizationParams) -> ObjectiveModel {
    let input = p.input_curve.unwrap();
    ObjectiveModel {
        freq: input.freq@,
        input: input.spl@,
        target: target_levels(p),
        model: p.peq_model,
        free_types: p.free_types@,
        num_filters: p.num_filters as int,
        min_freq: p.min_freq as int,
        max_freq: p.max_freq as int,
        min_spacing: p.min_spacing_oct as int,
        spacing_weight: p.spacing_weight as int,
        smooth_half_width: if p.smooth { Some(half_window(p.smooth_n as int)) } else { None },
    }
}

/// Lower corner of the search box: per band, the lowest frequency, Q and gain.
pub open spec fn box_lower(p: OptimizationParams) -> Seq<i64> {
    Seq::new(
        (3 * p.num_filters) as nat,
        |k: int| if k % 3 == 0 { p.min_freq } else if k % 3 == 1 { p.min_q } else { p.min_db },
    )
}

/// Upper corner of the search box.
pub open spec fn box_upper(p: OptimizationParams) -> Seq<i64> {
    Seq::new(
        (3 * p.num_filters) as nat,
        |k: int| if k % 3 == 0 { p.max_freq } else if k % 3 == 1 { p.max_q } else { p.max_db },
    )
}

fn copy_types(v: &Vec<FilterType>) -> (r: Vec<FilterType>)
    ensures
        r@ == v@,
{
    let mut out: Vec<FilterType> = Vec::new();
    let mut i: usize = 0;
    while i < v.len()
        invariant
            i <= v@.len(),
            out@ == v@.subrange(0, i as int),
        decreases v@.len() - i,
    {
        out.push(v[i]);
        proof {
            assert(v@.subrange(0, i + 1) =~= v@.subrange(0, i as int).push(v@[i as int]));
        }
        i = i + 1;
    }
    proof {
        assert(v@.subrange(0, v@.len() as int) =~= v@);
    }
    out
}

fn target_on_grid(p: &OptimizationParams, input: &CurveData) -> (r: Vec<i64>)
    requires
        config_fault(*p) is None,
        p.input_curve == Some(*input),
    ensures
        r@ == target_levels(*p),
        levels_within(r@, MAX_LEVEL as int),
{
    let n = input.freq.len();
    let mut out: Vec<i64> = Vec::new();
    let mut i: usize = 0;
    proof {
        lemma_no_fault_valid(input.freq@, input.spl@);
        if p.loss == LossKind::Target {
            lemma_no_fault_valid(p.target_curve.unwrap().freq@, p.target_curve.unwrap().spl@);
        }
    }
    while i < n
        invariant
            config_fault(*p) is None,
            p.input_curve == Some(*input),
            p.loss == LossKind::Target ==> p.target_curve is Some && p.target_curve.unwrap().wf(),
            n == input.freq@.len(),
            i <= n,
            out@.len() == i,
            forall|k: int| 0 <= k < i ==> #[trigger] out@[k] == target_levels(*p)[k],
            forall|k: int| 0 <= k < i ==> -MAX_LEVEL <= #[trigger] out@[k] <= MAX_LEVEL,
        decreases n - i,
    {
        let v: i64 = match p.loss {
            LossKind::Flat => 0,
            LossKind::Target => match &p.target_curve {
                Some(t) => t.interpolate(input.freq[i]),
                None => 0,
            },
        };
        out.push(v);
        i = i + 1;
    }
    proof {
        assert(out@ =~= target_levels(*p));
    }
    out
}

/// The objective of a run, built once from its settings.
pub fn build_objective(p: &OptimizationParams, input: &CurveData) -> (r: Objective)
    requires
        config_fault(*p) is None,
        p.input_curve == Some(*input),
    ensures
        r.wf(),
        r@ == objective_model_of(*p),
{
    proof {
        lemma_no_fault_valid(input.freq@, input.spl@);
    }
    let target = target_on_grid(p, input);
    let smooth_half_width: Option<i64> = if p.smooth {
        Some((500 / p.smooth_n) as i64)
    } else {
        None
    };
    let r = Objective {
        freq: copy_vec(&input.freq),
        input: copy_vec(&input.spl),
        target,
        model: p.peq_model,
        free_types: copy_types(&p.free_types),
        num_filters: p.num_filters,
        min_freq: p.min_freq,
        max_freq: p.max_freq,
        min_spacing: p.min_spacing_oct,
        spacing_weight: p.spacing_weight,
        smooth_half_width,
    };
    proof {
        assert(r@.smooth_half_width == objective_model_of(*p).smooth_half_width);
    }
    r
}

/// The search box of a run.
pub fn build_bounds(p: &OptimizationParams) -> (r: SearchBounds)
    requires
        config_fault(*p) is None,
    ensures
        r.lower@ == box_lower(*p),
        r.upper@ == box_upper(*p),
        bounds_ok(r.lower@, r.upper@, p.num_filters as int),
{
    let mut lower: Vec<i64> = Vec::new();
    let mut upper: Vec<i64> = Vec::new();
    let mut i: usize = 0;
    while i < p.num_filters
        invariant
            config_fault(*p) is None,
            i <= p.num_filters <= MAX_FILTERS,
            lower@.len() == 3 * i,
            upper@.len() == 3 * i,
            forall|k: int| 0 <= k < 3 * i ==> #[trigger] lower@[k] == box_lower(*p)[k],
            forall|k: int| 0 <= k < 3 * i ==> #[trigger] upper@[k] == box_upper(*p)[k],
        decreases p.num_filters - i,
    {
        lower.push(p.min_freq);
        lower.push(p.min_q);
        lower.push(p.min_db);
        upper.push(p.max_freq);
        upper.push(p.max_q);
        upper.push(p.max_db);
        proof {
            assert forall|k: int| 3 * i <= k < 3 * i + 3 implies #[trigger] lower@[k] == box_lower(*p)[k] && upper@[k] == box_upper(*p)[k] by {
                assert(k % 3 == k - 3 * i) by (nonlinear_arith)
                    requires 3 * i <= k < 3 * i + 3;
                assert(3 * i + 3 <= 3 * p.num_filters) by (nonlinear_arith)
                    requires i < p.num_filters;
            }
        }
        i = i + 1;
    }
    proof {
        assert(lower@ =~= box_lower(*p));
        assert(upper@ =~= box_upper(*p));
    }
    SearchBounds { lower, upper }
}

/// The search state of a run with settings `p` after `g` generations.
pub open spec fn search_model(p: OptimizationParams, g: int) -> DeModel {
    let obj = objective_model_of(p);
    let lo = box_lower(p);
    let hi = box_upper(p);
    generations_after(
        init_prefix(p.seed, obj, lo, hi, p.population as int),
        obj,
        lo,
        hi,
        p.population as int,
        p.strategy,
        p.de_f as int,
        p.de_cr as int,
        p.adaptive,
        g,
    )
}

/// Loss of the best member of a search state.
pub open spec fn model_best_fitness(m: DeModel) -> u64 {
    m.fitness[m.best]
}

/// Why a search ended.
#[derive(Clone, Copy, Debug, PartialEq, Eq, Structural)]
pub enum StopReason {
    /// The evaluation budget was spent.
    MaxEvaluations,
    /// The best loss stopped improving.
    Converged,
    /// The cancellation flag was raised.
    Cancelled,
    /// The progress callback asked to stop.
    CallbackAbort,
}

/// Each entry is no greater than the ones before it.
pub open spec fn nonincreasing(s: Seq<u64>) -> bool {
    forall|i: int, j: int| 0 <= i <= j < s.len() ==> #[trigger] s[j] <= #[trigger] s[i]
}

/// Generation `k` of a history gained too little over generation `k - 1`.
pub open spec fn stagnant_at(history: Seq<u64>, k: int, tolerance: int, atolerance: int) -> bool {
    stagnant(history[k - 1] as int, history[k] as int, tolerance, atolerance)
}

/// The last `stall_generations` generations of a history were all
/// stagnant.
pub open spec fn converged(p: OptimizationParams, history: Seq<u64>) -> bool {
    let g = history.len() - 1;
    &&& p.stall_generations > 0
    &&& g >= p.stall_generations
    &&& forall|k: int|
        g - p.stall_generations < k <= g ==> #[trigger] stagnant_at(history, k, p.tolerance as int, p.atolerance as int)
}

proof fn lemma_search_model_step(p: OptimizationParams, g: int)
    requires
        g >= 0,
    ensures
        search_model(p, g + 1) == generation_prefix(
            search_model(p, g),
            objective_model_of(p),
            box_lower(p),
            box_upper(p),
            p.population as int,
            p.strategy,
            p.de_f as int,
            p.de_cr as int,
            p.adaptive,
            p.population as int,
        ),
{
}

proof fn lemma_history_step(p: OptimizationParams, prev: Seq<u64>, h: Seq<u64>)
    requires
        prev.len() >= 1,
        h == prev.push(h.last()),
        nonincreasing(prev),
        h.last() <= prev.last(),
        forall|k: int| 0 <= k < prev.len() ==> #[trigger] prev[k] == model_best_fitness(search_model(p, k)),
        h.last() == model_best_fitness(search_model(p, prev.len() as int)),
    ensures
        nonincreasing(h),
        forall|k: int| 0 <= k < h.len() ==> #[trigger] h[k] == model_best_fitness(search_model(p, k)),
{
    assert forall|k: int| 0 <= k < h.len() implies #[trigger] h[k] == model_best_fitness(search_model(p, k)) by {
        if k < prev.len() {
            assert(h[k] == prev[k]);
        }
    }
    assert forall|i: int, j: int| 0 <= i <= j < h.len() implies #[trigger] h[j] <= #[trigger] h[i] by {
        if j == h.len() - 1 && i < j {
            assert(prev[i] >= prev[j - 1]);
        } else if j < h.len() - 1 {
            assert(h[i] == prev[i] && h[j] == prev[j]);
        }
    }
}

proof fn lemma_stall_step(prev: Seq<u64>, h: Seq<u64>, stall: int, tolerance: int, atolerance: int)
    requires
        prev.len() >= 1,
        h == prev.push(h.last()),
        0 <= stall <= prev.len() - 1,
        forall|k: int| prev.len() - 1 - stall < k <= prev.len() - 1 ==> #[trigger] stagnant_at(prev, k, tolerance, atolerance),
        stagnant(prev.last() as int, h.last() as int, tolerance, atolerance),
    ensures
        forall|k: int| h.len() - 1 - (stall + 1) < k <= h.len() - 1 ==> #[trigger] stagnant_at(h, k, tolerance, atolerance),
{
    assert forall|k: int| h.len() - 1 - (stall + 1) < k <= h.len() - 1 implies #[trigger] stagnant_at(h, k, tolerance, atolerance) by {
        if k < h.len() - 1 {
            assert(stagnant_at(prev, k, tolerance, atolerance));
            assert(h[k - 1] == prev[k - 1]);
            assert(h[k] == prev[k]);
        }
    }
}

/// State of the global search when it ends.
pub struct SearchOutcome {
    pub state: DeState,
    pub stop: StopReason,
    pub generations: usize,
    /// Best loss after initialization, then after each generation.
    pub history: Vec<u64>,
}

/// The global search: generations until the budget is spent, the best loss
/// stagnates, the callback declines to go on, or the flag is raised (polled
/// before each generation).
pub fn run_search<P: ProgressCallback>(
    obj: &Objective,
    bounds: &SearchBounds,
    p: &OptimizationParams,
    progress: &P,
    cancel: &CancellationState,
) -> (r: SearchOutcome)
    requires
        obj.wf(),
        obj.num_filters == p.num_filters,
        bounds_ok(bounds.lower@, bounds.upper@, obj.num_filters as int),
        config_fault(*p) is None,
        obj@ == objective_model_of(*p),
        bounds.lower@ == box_lower(*p),
        bounds.upper@ == box_upper(*p),
    ensures
        r.state@ == search_model(*p, r.generations as int),
        forall|k: int| 0 <= k < r.history@.len() ==> #[trigger] r.history@[k] == model_best_fitness(search_model(*p, k)),
        r.state.wf(*obj, bounds.lower@, bounds.upper@, p.population as int),
        r.state.evaluations <= p.maxeval + p.population,
        r.stop == StopReason::MaxEvaluations ==> r.state.evaluations >= p.maxeval,
        r.stop == StopReason::Converged ==> converged(*p, r.history@),
        r.history@.len() == r.generations + 1,
        nonincreasing(r.history@),
        r.history@.last() == r.state.best_fitness(),
{
    let np = p.population;
    let mut state = DeState::init(obj, bounds, np, p.seed);
    let mut history: Vec<u64> = Vec::new();
    history.push(state.fitness[state.best]);
    let mut generations: usize = 0;
    let mut stall: usize = 0;
    let mut stop = StopReason::MaxEvaluations;
    while state.evaluations < p.maxeval
        invariant_except_break
            stop == StopReason::MaxEvaluations,
        invariant
            obj.wf(),
            bounds_ok(bounds.lower@, bounds.upper@, obj.num_filters as int),
            p.de_f <= MAX_MUTATION,
            p.tolerance <= 1_000_000,
            np == p.population,
            4 <= np <= MAX_POPULATION,
            p.maxeval <= MAX_EVALUATIONS,
            stall <= generations,
            p.stall_generations == 0 ==> stall == 0,
            forall|k: int|
                generations - stall < k <= generations ==> #[trigger] stagnant_at(history@, k, p.tolerance as int, p.atolerance as int),
            state.wf(*obj, bounds.lower@, bounds.upper@, np as int),
            state.evaluations <= p.maxeval + np,
            history@.len() == generations + 1,
            generations <= state.evaluations,
            nonincreasing(history@),
            history@.last() == state.best_fitness(),
            obj@ == objective_model_of(*p),
            bounds.lower@ == box_lower(*p),
            bounds.upper@ == box_upper(*p),
            state@ == search_model(*p, generations as int),
            forall|k: int| 0 <= k < history@.len() ==> #[trigger] history@[k] == model_best_fitness(search_model(*p, k)),
        ensures
            stop == StopReason::MaxEvaluations ==> state.evaluations >= p.maxeval,
            stop == StopReason::Converged ==> p.stall_generations > 0 && stall >= p.stall_generations,
        decreases p.maxeval + np - state.evaluations,
    {
        if cancel.is_cancelled() {
            stop = StopReason::Cancelled;
            break;
        }
        let prev = state.fitness[state.best];
        state.generation(obj, bounds, np, p.strategy, p.de_f, p.de_cr, p.adaptive);
        proof {
            lemma_search_model_step(*p, generations as int);
        }
        generations = generations + 1;
        let cur = state.fitness[state.best];
        let ghost prev_history = history@;
        history.push(cur);
        proof {
            lemma_history_step(*p, prev_history, history@);
        }
        if p.stall_generations > 0 {
            if is_stagnant(prev, cur, p.tolerance, p.atolerance) {
                proof {
                    lemma_stall_step(prev_history, history@, stall as int, p.tolerance as int, p.atolerance as int);
                }
                stall = stall + 1;
            } else {
                stall = 0;
            }
        }
        let update = ProgressUpdate {
            iteration: generations,
            best_fitness: cur,
            best_params: copy_vec(&state.pop[state.best]),
        };
        if !progress.on_progress(update) {
            stop = StopReason::CallbackAbort;
            break;
        }
        if p.stall_generations > 0 && stall >= p.stall_generations {
            stop = StopReason::Converged;
            break;
        }
    }
    SearchOutcome { state, stop, generations, history }
}

/// What a run hands back. On success every optional part is present; on
/// failure only the error is.
#[derive(Clone, Debug)]
pub struct OptimizationResult {
    pub success: bool,
    pub error: Option<OptimizationError>,
    /// The bands found, in band order.
    pub filters: Option<Vec<FilterParameter>>,
    /// The parameter vector they were decoded from.
    pub filter_params: Option<Vec<i64>>,
    /// Its loss.
    pub objective_value: Option<u64>,
    /// Mean squared deviation from the target over the whole curve, before
    /// and after the chain is applied.
    pub preference_score_before: Option<u64>,
    pub preference_score_after: Option<u64>,
    /// Response of the chain on the grid of the measured curve.
    pub filter_response: Option<Vec<i64>>,
    /// Corrected level minus target level on that grid.
    pub deviation_curve: Option<Vec<i64>>,
    pub stop_reason: Option<StopReason>,
    /// Evaluations of both phases.
    pub evaluations: usize,
    pub generations: usize,
    /// Moves of the refinement (zero without one).
    pub refine_moves: u64,
    /// Best loss after initialization, then after each generation.
    pub history: Vec<u64>,
}

/// The best vector of the search, refined by `moves` compass moves when the
/// settings ask for refinement.
pub open spec fn final_params(p: OptimizationParams, generations: int, moves: int) -> Seq<i64> {
    let s = search_model(p, generations);
    let sx = s.pop[s.best];
    if p.refine {
        compass_after(
            compass_start(sx, s.fitness[s.best] as int, box_lower(p), box_upper(p)),
            objective_model_of(p),
            box_lower(p),
            box_upper(p),
            moves,
        ).x
    } else {
        sx
    }
}

/// What a successful run with settings `p` reports.
pub open spec fn reports(p: OptimizationParams, r: OptimizationResult) -> bool {
    let m = objective_model_of(p);
    let x = r.filter_params.unwrap()@;
    let fs = r.filters.unwrap()@;
    let v = r.objective_value.unwrap();
    let fr = r.filter_response.unwrap()@;
    let dc = r.deviation_curve.unwrap()@;
    &&& r.success
    &&& r.error is None
    &&& r.filter_params is Some
    &&& r.filters is Some
    &&& r.objective_value is Some
    &&& r.filter_response is Some
    &&& r.deviation_curve is Some
    &&& r.stop_reason is Some
    &&& within(box_lower(p), box_upper(p), x)
    &&& fs == m.filters_of(x)
    &&& fs.len() == p.num_filters
    &&& v == m.loss_of(x)
    &&& forall|k: int| 0 <= k < r.history@.len() ==> v <= #[trigger] r.history@[k]
    &&& nonincreasing(r.history@)
    &&& r.history@.len() == r.generations + 1
    &&& forall|k: int| 0 <= k < r.history@.len() ==> #[trigger] r.history@[k] == model_best_fitness(search_model(p, k))
    &&& x == final_params(p, r.generations as int, r.refine_moves as int)
    &&& (!p.refine ==> r.refine_moves == 0)
    &&& r.evaluations <= p.maxeval + p.population + if p.refine { p.refine_maxeval } else { 0 }
    &&& (r.stop_reason == Some(StopReason::MaxEvaluations) ==> r.evaluations >= p.maxeval)
    &&& (r.stop_reason == Some(StopReason::Converged) ==> converged(p, r.history@))
    &&& fr.len() == m.freq.len()
    &&& forall|i: int| 0 <= i < fr.len() ==> #[trigger] fr[i] == chain_at(fs, m.freq[i] as int)
    &&& dc.len() == m.freq.len()
    &&& forall|i: int| 0 <= i < dc.len() ==> #[trigger] dc[i] == m.corrected_of(x)[i] - m.target[i]
    &&& r.preference_score_before == Some(
        mean_square(m.freq, deviation(m.input, m.target), 0, MAX_FREQ as int) as u64,
    )
    &&& r.preference_score_after == Some(
        mean_square(m.freq, deviation(m.corrected_of(x), m.target), 0, MAX_FREQ as int) as u64,
    )
}

impl OptimizationResult {
    /// The result of a refused run.
    pub fn failure(e: OptimizationError) -> (r: OptimizationResult)
        ensures
            !r.success,
            r.error == Some(e),
            r.filters is None,
            r.filter_params is None,
            r.objective_value is None,
            r.evaluations == 0,
    {
        OptimizationResult {
            success: false,
            error: Some(e),
            filters: None,
            filter_params: None,
            objective_value: None,
            preference_score_before: None,
            preference_score_after: None,
            filter_response: None,
            deviation_curve: None,
            stop_reason: None,
            evaluations: 0,
            generations: 0,
            refine_moves: 0,
            history: Vec::new(),
        }
    }

    /// The error's sentence, on failure.
    pub fn error_message(&self) -> (r: Option<&'static str>)
        ensures
            r is Some <==> self.error is Some,
    {
        match &self.error {
            Some(e) => Some(e.message()),
            None => None,
        }
    }
}

/// Differences of two level sequences on one grid.
fn difference(a: &Vec<i64>, b: &Vec<i64>) -> (r: Vec<i64>)
    requires
        a@.len() == b@.len(),
        levels_within(a@, crate::loss::CORRECTED_LIMIT as int),
        levels_within(b@, MAX_LEVEL as int),
    ensures
        r@.len() == a@.len(),
        forall|i: int| 0 <= i < r@.len() ==> #[trigger] r@[i] == a@[i] - b@[i],
{
    let mut out: Vec<i64> = Vec::new();
    let mut i: usize = 0;
    while i < a.len()
        invariant
            a@.len() == b@.len(),
            levels_within(a@, crate::loss::CORRECTED_LIMIT as int),
            levels_within(b@, MAX_LEVEL as int),
            i <= a@.len(),
            out@.len() == i,
            forall|k: int| 0 <= k < i ==> #[trigger] out@[k] == a@[k] - b@[k],
        decreases a@.len() - i,
    {
        proof {
            assert(-crate::loss::CORRECTED_LIMIT <= a@[i as int] <= crate::loss::CORRECTED_LIMIT);
            assert(-MAX_LEVEL <= b@[i as int] <= MAX_LEVEL);
        }
        out.push(a[i] - b[i]);
        i = i + 1;
    }
    out
}

/// Runs the whole pipeline: checks the settings, searches, refines when
/// asked (keeping the refined vector only when it is no worse), and
/// reports the best vector found. A raised flag or a declining callback
/// ends the search early; the run still succeeds with the best vector so
/// far, which always exists since the initial population is evaluated.
pub fn optimize<P: ProgressCallback>(
    p: &OptimizationParams,
    progress: &P,
    cancel: &CancellationState,
) -> (r: Result<OptimizationResult, OptimizationError>)
    ensures
        match r {
            Ok(res) => config_fault(*p) is None && reports(*p, res),
            Err(e) => config_fault(*p) == Some(e),
        },
{
    if let Err(e) = validate_params(p) {
        return Err(e);
    }
    let input = match &p.input_curve {
        Some(c) => c,
        None => {
            return Err(OptimizationError::EmptyInput);
        },
    };
    let obj = build_objective(p, input);
    let bounds = build_bounds(p);
    let out = run_search(&obj, &bounds, p, progress, cancel);
    let ghost np = p.population as int;
    let ghost m = obj@;
    let state = out.state;
    let mut x = state.best_params(Ghost(obj), Ghost(bounds.lower@), Ghost(bounds.upper@), Ghost(np));
    let mut fx = state.fitness[state.best];
    let mut evaluations = state.evaluations;
    let mut refine_moves: u64 = 0;
    let history = out.history;
    proof {
        assert(history@[history@.len() - 1] == fx);
        assert forall|k: int| 0 <= k < history@.len() implies fx <= #[trigger] history@[k] by {
            assert(history@[history@.len() - 1] <= history@[k]);
        }
    }
    if p.refine {
        let refined = refine(&obj, &bounds, &x, fx, p.refine_maxeval, cancel);
        if refined.fitness <= fx {
            x = refined.params;
            fx = refined.fitness;
        }
        evaluations = evaluations + refined.evaluations;
        refine_moves = refined.moves;
    }
    proof {
        crate::de::lemma_within_ok(bounds.lower@, bounds.upper@, x@, p.num_filters as int);
        crate::loss::lemma_decoded_in_range(x@, p.num_filters as int, obj.model, obj.free_types@);
        assert(x@.len() / 3 == p.num_filters) by (nonlinear_arith)
            requires x@.len() == 3 * p.num_filters;
    }
    let filters = decode(&x, obj.model, &obj.free_types);
    let corrected = obj.corrected(&filters);
    let response = chain_response(&filters, &obj.freq);
    let dev = difference(&corrected, &obj.target);
    proof {
        assert(corrected@ =~= m.corrected_of(x@));
        assert forall|i: int| 0 <= i < obj.input@.len() implies -crate::loss::CORRECTED_LIMIT <= #[trigger] obj.input@[i] <= crate::loss::CORRECTED_LIMIT by {
            assert(-MAX_LEVEL <= obj.input@[i] <= MAX_LEVEL);
        }
    }
    let before = mean_square_deviation(&obj.freq, &obj.input, &obj.target, 0, MAX_FREQ);
    let after = mean_square_deviation(&obj.freq, &corrected, &obj.target, 0, MAX_FREQ);
    Ok(OptimizationResult {
        success: true,
        error: None,
        filters: Some(filters),
        filter_params: Some(x),
        objective_value: Some(fx),
        preference_score_before: Some(before),
        preference_score_after: Some(after),
        filter_response: Some(response),
        deviation_curve: Some(dev),
        stop_reason: Some(out.stop),
        evaluations,
        generations: out.generations,
        refine_moves,
        history,
    })
}

/// Runs are reproducible: two successful runs with the same settings, seed
/// included, that complete the same number of generations and refinement
/// moves report the same vector, bands, loss and history. (How many
/// generations and moves complete depends on the progress callback and the
/// cancellation flag, and on nothing else outside the settings.)
pub proof fn law_same_settings_same_result(p: OptimizationParams, r1: OptimizationResult, r2: OptimizationResult)
    requires
        reports(p, r1),
        reports(p, r2),
        r1.generations == r2.generations,
        r1.refine_moves == r2.refine_moves,
    ensures
        r1.filter_params.unwrap()@ == r2.filter_params.unwrap()@,
        r1.filters.unwrap()@ == r2.filters.unwrap()@,
        r1.objective_value == r2.objective_value,
        r1.history@ == r2.history@,
{
    assert(r1.history@ =~= r2.history@);
}

/// A run stopped before its first generation (the flag raised, say) still
/// succeeds with a full chain of bands: without refinement, those of the best
/// member of the initial population.
pub proof fn law_stopped_before_first_generation(p: OptimizationParams, r: OptimizationResult)
    requires
        config_fault(p) is None,
        reports(p, r),
        r.generations == 0,
    ensures
        r.success,
        r.filters.unwrap()@.len() == p.num_filters,
        p.num_filters >= 1,
        !p.refine ==> r.filter_params.unwrap()@ == init_prefix(
            p.seed,
            objective_model_of(p),
            box_lower(p),
            box_upper(p),
            p.population as int,
        ).pop[init_prefix(p.seed, objective_model_of(p), box_lower(p), box_upper(p), p.population as int).best],
{
    assert(search_model(p, 0) == init_prefix(
        p.seed,
        objective_model_of(p),
        box_lower(p),
        box_upper(p),
        p.population as int,
    ));
}

/// `optimize`, with a refusal folded into an unsuccessful result.
pub fn run_optimization_internal<P: ProgressCallback>(
    p: &OptimizationParams,
    progress: &P,
    cancel: &CancellationState,
) -> (r: OptimizationResult)
    ensures
        config_fault(*p) is None ==> reports(*p, r),
        config_fault(*p) is Some ==> !r.success && r.error == config_fault(*p) && r.filters is None,
{
    match optimize(p, progress, cancel) {
        Ok(res) => res,
        Err(e) => OptimizationResult::failure(e),
    }
}

} // verus!
