//! The objective: how far a filter chain leaves the corrected response from
//! the target, plus a penalty on bands crowded together.
use vstd::prelude::*;
use crate::curve::{
    MAX_FREQ, MAX_LEVEL, SMOOTH_LIMIT, freqs_in_range, levels_within, smoothed_at,
    lemma_smoothed_bounded, smooth_levels,
};
use crate::filters::{
    FilterParameter, FilterType, PeqModel, MAX_BAND, MAX_FILTERS, MAX_GAIN, MAX_Q, abs, chain_at,
    chain_response, decode, decoded, filters_in_range, model_fits,
};

verus! {

/// Largest spacing-penalty weight.
pub const MAX_SPACING_WEIGHT: u64 = 1_000_000;

/// Largest magnitude of a corrected level: a curve level plus a full chain.
pub const CORRECTED_LIMIT: i64 = 5_000_000;

/// Largest magnitude of a deviation from the target.
pub const DEVIATION_LIMIT: i64 = 5_200_000;

/// What the corrected response is held against.
#[derive(Clone, Copy, Debug, PartialEq, Eq, Structural)]
pub enum LossKind {
    /// A flat 0 dB target.
    Flat,
    /// The target curve that the caller supplies.
    Target,
}

/// Slot `k` of a parameter vector holds a value the response kernel accepts:
/// a frequency, a quality factor or a gain, by `k % 3`.
pub open spec fn slot_ok(k: int, v: int) -> bool {
    if k % 3 == 0 {
        0 < v <= MAX_FREQ
    } else if k % 3 == 1 {
        0 < v <= MAX_Q
    } else {
        -MAX_GAIN <= v <= MAX_GAIN
    }
}

/// A vector of `n` bands whose every slot is acceptable.
pub open spec fn params_ok(x: Seq<i64>, n: int) -> bool {
    &&& x.len() == 3 * n
    &&& forall|k: int| 0 <= k < x.len() ==> slot_ok(k, #[trigger] x[k] as int)
}

pub proof fn lemma_decoded_in_range(x: Seq<i64>, n: int, model: PeqModel, free_types: Seq<FilterType>)
    requires
        params_ok(x, n),
    ensures
        filters_in_range(decoded(x, model, free_types)),
        decoded(x, model, free_types).len() == n,
{
    let d = decoded(x, model, free_types);
    assert(x.len() / 3 == n) by (nonlinear_arith)
        requires x.len() == 3 * n, n >= 0;
    assert forall|i: int| 0 <= i < d.len() implies crate::filters::filter_in_range(#[trigger] d[i]) by {
        assert((3 * i) % 3 == 0) by (nonlinear_arith);
        assert((3 * i + 1) % 3 == 1) by (nonlinear_arith);
        assert((3 * i + 2) % 3 == 2) by (nonlinear_arith);
        assert(3 * i + 2 < 3 * n) by (nonlinear_arith) requires i < n;
        assert(slot_ok(3 * i, x[3 * i] as int));
        assert(slot_ok(3 * i + 1, x[3 * i + 1] as int));
        assert(slot_ok(3 * i + 2, x[3 * i + 2] as int));
    }
}

/// Sum of the squared deviations at the first `k` samples whose frequency
/// lies within `[lo, hi]`.
pub open spec fn sq_sum(freq: Seq<i64>, dev: Seq<int>, lo: int, hi: int, k: int) -> int
    decreases k,
{
    if k <= 0 {
        0
    } else {
        sq_sum(freq, dev, lo, hi, k - 1) + if lo <= freq[k - 1] <= hi {
            dev[k - 1] * dev[k - 1]
        } else {
            0
        }
    }
}

/// Number of the first `k` samples whose frequency lies within `[lo, hi]`.
pub open spec fn range_count(freq: Seq<i64>, lo: int, hi: int, k: int) -> int
    decreases k,
{
    if k <= 0 {
        0
    } else {
        range_count(freq, lo, hi, k - 1) + if lo <= freq[k - 1] <= hi {
            1int
        } else {
            0
        }
    }
}

/// Mean squared deviation over the samples within `[lo, hi]`, rounded down;
/// zero when no sample lies there.
pub open spec fn mean_square(freq: Seq<i64>, dev: Seq<int>, lo: int, hi: int) -> int {
    let c = range_count(freq, lo, hi, freq.len() as int);
    if c == 0 {
        0
    } else {
        sq_sum(freq, dev, lo, hi, freq.len() as int) / c
    }
}

pub open spec fn deviation(levels: Seq<i64>, target: Seq<i64>) -> Seq<int> {
    Seq::new(levels.len(), |i: int| levels[i] - target[i])
}

proof fn lemma_sq_sum_bounds(freq: Seq<i64>, dev: Seq<int>, lo: int, hi: int, k: int, bound: int)
    requires
        0 <= k <= freq.len(),
        freq.len() == dev.len(),
        bound >= 0,
        forall|i: int| 0 <= i < dev.len() ==> -bound <= #[trigger] dev[i] <= bound,
    ensures
        0 <= sq_sum(freq, dev, lo, hi, k) <= range_count(freq, lo, hi, k) * (bound * bound),
        0 <= range_count(freq, lo, hi, k) <= k,
    decreases k,
{
    if k > 0 {
        lemma_sq_sum_bounds(freq, dev, lo, hi, k - 1, bound);
        let v = dev[k - 1];
        assert(0 <= v * v <= bound * bound) by (nonlinear_arith)
            requires -bound <= v <= bound;
        let c = range_count(freq, lo, hi, k - 1);
        assert((c + 1) * (bound * bound) == c * (bound * bound) + bound * bound) by (nonlinear_arith);
    }
}

/// Mean squared deviation between `levels` and `target` over the samples
/// whose frequency lies within `[lo, hi]`.
pub fn mean_square_deviation(freq: &Vec<i64>, levels: &Vec<i64>, target: &Vec<i64>, lo: i64, hi: i64) -> (r: u64)
    requires
        freq@.len() == levels@.len(),
        freq@.len() == target@.len(),
        levels_within(levels@, CORRECTED_LIMIT as int),
        levels_within(target@, MAX_LEVEL as int),
    ensures
        r == mean_square(freq@, deviation(levels@, target@), lo as int, hi as int),
        r <= DEVIATION_LIMIT * DEVIATION_LIMIT,
{
    let n = freq.len();
    let ghost dev = deviation(levels@, target@);
    let mut sum: u128 = 0;
    let mut count: u64 = 0;
    let mut i: usize = 0;
    while i < n
        invariant
            n == freq@.len(),
            n == levels@.len(),
            n == target@.len(),
            i <= n,
            dev == deviation(levels@, target@),
            levels_within(levels@, CORRECTED_LIMIT as int),
            levels_within(target@, MAX_LEVEL as int),
            sum == sq_sum(freq@, dev, lo as int, hi as int, i as int),
            count == range_count(freq@, lo as int, hi as int, i as int),
        decreases n - i,
    {
        proof {
            assert forall|k: int| 0 <= k < dev.len() implies -DEVIATION_LIMIT <= #[trigger] dev[k] <= DEVIATION_LIMIT by {
                assert(-CORRECTED_LIMIT <= levels@[k] <= CORRECTED_LIMIT);
                assert(-MAX_LEVEL <= target@[k] <= MAX_LEVEL);
            }
            lemma_sq_sum_bounds(freq@, dev, lo as int, hi as int, i as int, DEVIATION_LIMIT as int);
            assert(count * (DEVIATION_LIMIT * DEVIATION_LIMIT) <= (u64::MAX as int) * (DEVIATION_LIMIT * DEVIATION_LIMIT)) by (nonlinear_arith)
                requires 0 <= count <= u64::MAX;
            assert(-CORRECTED_LIMIT <= levels@[i as int] <= CORRECTED_LIMIT);
            assert(-MAX_LEVEL <= target@[i as int] <= MAX_LEVEL);
        }
        let f = freq[i];
        if lo <= f && f <= hi {
            let d: i64 = levels[i] - target[i];
            let ad: u128 = if d < 0 { (-d) as u128 } else { d as u128 };
            proof {
                assert(ad * ad == dev[i as int] * dev[i as int]) by (nonlinear_arith)
                    requires ad == abs(dev[i as int]);
                assert(ad * ad <= DEVIATION_LIMIT * DEVIATION_LIMIT) by (nonlinear_arith)
                    requires ad <= DEVIATION_LIMIT;
            }
            sum = sum + ad * ad;
            count = count + 1;
        }
        i = i + 1;
    }
    if count == 0 {
        0
    } else {
        proof {
            assert forall|k: int| 0 <= k < dev.len() implies -DEVIATION_LIMIT <= #[trigger] dev[k] <= DEVIATION_LIMIT by {
                assert(-CORRECTED_LIMIT <= levels@[k] <= CORRECTED_LIMIT);
                assert(-MAX_LEVEL <= target@[k] <= MAX_LEVEL);
            }
            lemma_sq_sum_bounds(freq@, dev, lo as int, hi as int, n as int, DEVIATION_LIMIT as int);
            lemma_mean_bounds_nat(sum as int, count as int, DEVIATION_LIMIT * DEVIATION_LIMIT);
        }
        (sum / (count as u128)) as u64
    }
}

proof fn lemma_mean_bounds_nat(s: int, c: int, hi: int)
    requires
        c > 0,
        0 <= s <= c * hi,
    ensures
        0 <= s / c <= hi,
{
    assert(c * hi == hi * c) by (nonlinear_arith);
    assert(0 * c == 0int);
    crate::arith::lemma_mean_bounds(s, c, 0, hi);
}

/// How far two bands are inside the minimum spacing `s`: zero when they are
/// at least `s` apart.
pub open spec fn deficit(a: int, b: int, s: int) -> int {
    let d = abs(a - b);
    if d < s {
        s - d
    } else {
        0
    }
}

/// Squared deficits of band `i` against the first `k` bands.
pub open spec fn row_penalty(filters: Seq<FilterParameter>, s: int, i: int, k: int) -> int
    decreases k,
{
    if k <= 0 {
        0
    } else {
        row_penalty(filters, s, i, k - 1) + deficit(filters[k - 1].freq as int, filters[i].freq as int, s)
            * deficit(filters[k - 1].freq as int, filters[i].freq as int, s)
    }
}

/// Squared deficits over the pairs among the first `k` bands.
pub open spec fn pair_penalty(filters: Seq<FilterParameter>, s: int, k: int) -> int
    decreases k,
{
    if k <= 0 {
        0
    } else {
        pair_penalty(filters, s, k - 1) + row_penalty(filters, s, k - 1, k - 1)
    }
}

/// The spacing penalty: the weight times the sum, over each pair of bands
/// closer than `s`, of the squared shortfall.
pub open spec fn spacing_penalty_of(filters: Seq<FilterParameter>, s: int, weight: int) -> int {
    weight * pair_penalty(filters, s, filters.len() as int)
}

proof fn lemma_row_bounds(filters: Seq<FilterParameter>, s: int, i: int, k: int)
    requires
        0 <= i < filters.len(),
        0 <= k <= filters.len(),
        0 <= s <= MAX_FREQ,
    ensures
        0 <= row_penalty(filters, s, i, k) <= k * (MAX_FREQ * MAX_FREQ),
    decreases k,
{
    if k > 0 {
        lemma_row_bounds(filters, s, i, k - 1);
        let d = deficit(filters[k - 1].freq as int, filters[i].freq as int, s);
        assert(0 <= d <= MAX_FREQ);
        assert(0 <= d * d <= MAX_FREQ * MAX_FREQ) by (nonlinear_arith)
            requires 0 <= d <= MAX_FREQ;
        assert((k - 1) * (MAX_FREQ * MAX_FREQ) + MAX_FREQ * MAX_FREQ == k * (MAX_FREQ * MAX_FREQ)) by (nonlinear_arith);
    }
}

proof fn lemma_pair_bounds(filters: Seq<FilterParameter>, s: int, k: int)
    requires
        0 <= k <= filters.len(),
        0 <= s <= MAX_FREQ,
    ensures
        0 <= pair_penalty(filters, s, k) <= k * k * (MAX_FREQ * MAX_FREQ),
    decreases k,
{
    if k > 0 {
        lemma_pair_bounds(filters, s, k - 1);
        lemma_row_bounds(filters, s, k - 1, k - 1);
        assert((k - 1) * (k - 1) * (MAX_FREQ * MAX_FREQ) + (k - 1) * (MAX_FREQ * MAX_FREQ) <= k * k * (MAX_FREQ * MAX_FREQ)) by (nonlinear_arith)
            requires k >= 1;
    }
}

/// Largest spacing penalty of a chain.
pub open spec fn penalty_limit() -> int {
    MAX_SPACING_WEIGHT * (MAX_FILTERS * MAX_FILTERS * (MAX_FREQ * MAX_FREQ))
}

/// The spacing penalty of a chain, for a minimum spacing of `min_spacing`
/// milli-octaves.
pub fn spacing_penalty(filters: &Vec<FilterParameter>, min_spacing: i64, weight: u64) -> (r: u64)
    requires
        filters@.len() <= MAX_FILTERS,
        filters_in_range(filters@),
        0 <= min_spacing <= MAX_FREQ,
        weight <= MAX_SPACING_WEIGHT,
    ensures
        r == spacing_penalty_of(filters@, min_spacing as int, weight as int),
        r <= penalty_limit(),
{
    let n = filters.len();
    let mut total: u64 = 0;
    let mut i: usize = 0;
    while i < n
        invariant
            n == filters@.len() <= MAX_FILTERS,
            filters_in_range(filters@),
            0 <= min_spacing <= MAX_FREQ,
            i <= n,
            total == pair_penalty(filters@, min_spacing as int, i as int),
        decreases n - i,
    {
        let mut row: u64 = 0;
        let mut j: usize = 0;
        while j < i
            invariant
                n == filters@.len() <= MAX_FILTERS,
                filters_in_range(filters@),
                0 <= min_spacing <= MAX_FREQ,
                i < n,
                j <= i,
                total == pair_penalty(filters@, min_spacing as int, i as int),
                row == row_penalty(filters@, min_spacing as int, i as int, j as int),
            decreases i - j,
        {
            proof {
                lemma_row_bounds(filters@, min_spacing as int, i as int, j as int);
                assert(j * (MAX_FREQ * MAX_FREQ) <= 20 * (MAX_FREQ * MAX_FREQ)) by (nonlinear_arith)
                    requires j <= 20;
                assert(filters@[j as int].freq > 0 && filters@[j as int].freq <= MAX_FREQ);
                assert(filters@[i as int].freq > 0 && filters@[i as int].freq <= MAX_FREQ);
            }
            let a = filters[j].freq;
            let b = filters[i].freq;
            let d: i64 = if a >= b { a - b } else { b - a };
            let short: u64 = if d < min_spacing { (min_spacing - d) as u64 } else { 0 };
            proof {
                assert(short <= MAX_FREQ);
                assert(short * short <= MAX_FREQ * MAX_FREQ) by (nonlinear_arith)
                    requires short <= MAX_FREQ;
            }
            row = row + short * short;
            j = j + 1;
        }
        proof {
            lemma_pair_bounds(filters@, min_spacing as int, i as int);
            lemma_row_bounds(filters@, min_spacing as int, i as int, i as int);
            assert(i * i * (MAX_FREQ * MAX_FREQ) + i * (MAX_FREQ * MAX_FREQ) <= 20 * 20 * (MAX_FREQ * MAX_FREQ)) by (nonlinear_arith)
                requires i < 20;
        }
        total = total + row;
        i = i + 1;
    }
    proof {
        lemma_pair_bounds(filters@, min_spacing as int, n as int);
        assert(n * n * (MAX_FREQ * MAX_FREQ) <= MAX_FILTERS * MAX_FILTERS * (MAX_FREQ * MAX_FREQ)) by (nonlinear_arith)
            requires n <= MAX_FILTERS;
        assert(weight * total <= MAX_SPACING_WEIGHT * (MAX_FILTERS * MAX_FILTERS * (MAX_FREQ * MAX_FREQ))) by (nonlinear_arith)
            requires
                weight <= MAX_SPACING_WEIGHT,
                0 <= total <= MAX_FILTERS * MAX_FILTERS * (MAX_FREQ * MAX_FREQ),
        ;
    }
    weight * total
}

proof fn lemma_row_monotone(filters: Seq<FilterParameter>, s: int, i: int, k1: int, k2: int)
    requires
        0 <= k1 <= k2 <= filters.len(),
        0 <= i < filters.len(),
    ensures
        row_penalty(filters, s, i, k1) <= row_penalty(filters, s, i, k2),
    decreases k2 - k1,
{
    if k1 < k2 {
        lemma_row_monotone(filters, s, i, k1, k2 - 1);
        let d = deficit(filters[k2 - 1].freq as int, filters[i].freq as int, s);
        assert(d * d >= 0) by (nonlinear_arith);
    }
}

proof fn lemma_row_nonneg(filters: Seq<FilterParameter>, s: int, i: int, k: int)
    requires
        0 <= k <= filters.len(),
        0 <= i < filters.len(),
    ensures
        row_penalty(filters, s, i, k) >= 0,
{
    lemma_row_monotone(filters, s, i, 0, k);
}

proof fn lemma_pair_monotone(filters: Seq<FilterParameter>, s: int, k1: int, k2: int)
    requires
        0 <= k1 <= k2 <= filters.len(),
    ensures
        pair_penalty(filters, s, k1) <= pair_penalty(filters, s, k2),
    decreases k2 - k1,
{
    if k1 < k2 {
        lemma_pair_monotone(filters, s, k1, k2 - 1);
        lemma_row_nonneg(filters, s, k2 - 1, k2 - 1);
    }
}

/// Two distinct bands at one frequency are penalized whenever the minimum
/// spacing and the weight are positive.
pub proof fn lemma_coincident_bands_penalized(filters: Seq<FilterParameter>, s: int, weight: int, i: int, j: int)
    requires
        0 <= i < filters.len(),
        0 <= j < filters.len(),
        i != j,
        filters[i].freq == filters[j].freq,
        s > 0,
        weight > 0,
    ensures
        spacing_penalty_of(filters, s, weight) >= weight * (s * s),
        spacing_penalty_of(filters, s, weight) > 0,
{
    let lo = if i < j { i } else { j };
    let hi = if i < j { j } else { i };
    let n = filters.len() as int;
    lemma_row_monotone(filters, s, hi, lo + 1, hi);
    lemma_row_monotone(filters, s, hi, 0, lo);
    assert(deficit(filters[lo].freq as int, filters[hi].freq as int, s) == s);
    assert(row_penalty(filters, s, hi, lo + 1) >= s * s);
    assert(row_penalty(filters, s, hi, hi) >= s * s);
    lemma_pair_monotone(filters, s, 0, hi);
    lemma_pair_monotone(filters, s, hi + 1, n);
    assert(pair_penalty(filters, s, n) >= s * s);
    assert(weight * pair_penalty(filters, s, n) >= weight * (s * s)) by (nonlinear_arith)
        requires pair_penalty(filters, s, n) >= s * s, weight > 0;
    assert(weight * (s * s) > 0) by (nonlinear_arith)
        requires weight > 0, s > 0;
}

/// Bands pairwise at least `s` apart.
pub open spec fn well_spaced(filters: Seq<FilterParameter>, s: int) -> bool {
    forall|a: int, b: int|
        0 <= a < filters.len() && 0 <= b < filters.len() && a != b ==> abs(
            #[trigger] filters[a].freq - #[trigger] filters[b].freq,
        ) >= s
}

proof fn lemma_row_zero(filters: Seq<FilterParameter>, s: int, i: int, k: int)
    requires
        well_spaced(filters, s),
        0 <= k <= i < filters.len(),
    ensures
        row_penalty(filters, s, i, k) == 0,
    decreases k,
{
    if k > 0 {
        lemma_row_zero(filters, s, i, k - 1);
        assert(abs(filters[k - 1].freq - filters[i].freq) >= s);
    }
}

proof fn lemma_pair_zero(filters: Seq<FilterParameter>, s: int, k: int)
    requires
        well_spaced(filters, s),
        0 <= k <= filters.len(),
    ensures
        pair_penalty(filters, s, k) == 0,
    decreases k,
{
    if k > 0 {
        lemma_pair_zero(filters, s, k - 1);
        lemma_row_zero(filters, s, k - 1, k - 1);
    }
}

/// Bands that keep the minimum spacing are not penalized.
pub proof fn lemma_well_spaced_unpenalized(filters: Seq<FilterParameter>, s: int, weight: int)
    requires
        well_spaced(filters, s),
    ensures
        spacing_penalty_of(filters, s, weight) == 0,
{
    lemma_pair_zero(filters, s, filters.len() as int);
}

/// The objective built from the curves and settings of one run.
#[derive(Clone, Debug)]
pub struct Objective {
    /// Frequency grid of the measured curve.
    pub freq: Vec<i64>,
    /// Measured levels on the grid.
    pub input: Vec<i64>,
    /// Target levels on the grid.
    pub target: Vec<i64>,
    pub model: PeqModel,
    /// Kinds of the bands of a free topology.
    pub free_types: Vec<FilterType>,
    pub num_filters: usize,
    /// The samples within `[min_freq, max_freq]` count towards the loss.
    pub min_freq: i64,
    pub max_freq: i64,
    /// Minimum spacing of band frequencies, in milli-octaves.
    pub min_spacing: i64,
    pub spacing_weight: u64,
    /// Half-width of the smoothing window, when the corrected response is
    /// smoothed before it is compared.
    pub smooth_half_width: Option<i64>,
}

/// The mathematical content of an objective.
pub struct ObjectiveModel {
    pub freq: Seq<i64>,
    pub input: Seq<i64>,
    pub target: Seq<i64>,
    pub model: PeqModel,
    pub free_types: Seq<FilterType>,
    pub num_filters: int,
    pub min_freq: int,
    pub max_freq: int,
    pub min_spacing: int,
    pub spacing_weight: int,
    pub smooth_half_width: Option<int>,
}

impl ObjectiveModel {
    /// The chain a parameter vector stands for.
    pub open spec fn filters_of(&self, x: Seq<i64>) -> Seq<FilterParameter> {
        decoded(x, self.model, self.free_types)
    }

    /// Measured levels with the chain applied.
    pub open spec fn corrected_of(&self, x: Seq<i64>) -> Seq<i64> {
        Seq::new(
            self.freq.len(),
            |i: int| (self.input[i] + chain_at(self.filters_of(x), self.freq[i] as int)) as i64,
        )
    }

    /// Corrected levels as compared with the target: smoothed when asked.
    pub open spec fn levels_of(&self, x: Seq<i64>) -> Seq<i64> {
        match self.smooth_half_width {
            Some(h) => Seq::new(
                self.freq.len(),
                |i: int| smoothed_at(self.freq, self.corrected_of(x), i, h) as i64,
            ),
            None => self.corrected_of(x),
        }
    }

    /// Mean squared deviation from the target within the frequency range.
    pub open spec fn base_loss_of(&self, x: Seq<i64>) -> int {
        mean_square(
            self.freq,
            deviation(self.levels_of(x), self.target),
            self.min_freq,
            self.max_freq,
        )
    }

    /// The loss of a parameter vector: lower is better.
    pub open spec fn loss_of(&self, x: Seq<i64>) -> int {
        self.base_loss_of(x) + spacing_penalty_of(
            self.filters_of(x),
            self.min_spacing,
            self.spacing_weight,
        )
    }
}

impl View for Objective {
    type V = ObjectiveModel;

    open spec fn view(&self) -> ObjectiveModel {
        ObjectiveModel {
            freq: self.freq@,
            input: self.input@,
            target: self.target@,
            model: self.model,
            free_types: self.free_types@,
            num_filters: self.num_filters as int,
            min_freq: self.min_freq as int,
            max_freq: self.max_freq as int,
            min_spacing: self.min_spacing as int,
            spacing_weight: self.spacing_weight as int,
            smooth_half_width: match self.smooth_half_width {
                Some(h) => Some(h as int),
                None => None,
            },
        }
    }
}

impl Objective {
    pub open spec fn wf(&self) -> bool {
        &&& self.freq@.len() == self.input@.len()
        &&& self.freq@.len() == self.target@.len()
        &&& freqs_in_range(self.freq@)
        &&& levels_within(self.input@, MAX_LEVEL as int)
        &&& levels_within(self.target@, MAX_LEVEL as int)
        &&& 1 <= self.num_filters <= MAX_FILTERS
        &&& model_fits(self.model, self.free_types@, self.num_filters as int)
        &&& 0 <= self.min_spacing <= MAX_FREQ
        &&& self.spacing_weight <= MAX_SPACING_WEIGHT
        &&& (self.smooth_half_width matches Some(h) ==> h >= 0)
    }

    /// The chain a parameter vector stands for.
    pub open spec fn filters_of(&self, x: Seq<i64>) -> Seq<FilterParameter> {
        self@.filters_of(x)
    }

    /// Measured levels with the chain applied.
    pub open spec fn corrected_of(&self, x: Seq<i64>) -> Seq<i64> {
        self@.corrected_of(x)
    }

    /// Corrected levels as compared with the target.
    pub open spec fn levels_of(&self, x: Seq<i64>) -> Seq<i64> {
        self@.levels_of(x)
    }

    /// Mean squared deviation from the target within the frequency range.
    pub open spec fn base_loss_of(&self, x: Seq<i64>) -> int {
        self@.base_loss_of(x)
    }

    /// The loss of a parameter vector: lower is better.
    pub open spec fn loss_of(&self, x: Seq<i64>) -> int {
        self@.loss_of(x)
    }

    /// Measured levels with a chain applied.
    pub fn corrected(&self, filters: &Vec<FilterParameter>) -> (r: Vec<i64>)
        requires
            self.wf(),
            filters@.len() <= MAX_FILTERS,
            filters_in_range(filters@),
        ensures
            r@.len() == self.freq@.len(),
            forall|i: int| 0 <= i < r@.len() ==> #[trigger] r@[i] == self.input@[i] + chain_at(filters@, self.freq@[i] as int),
            levels_within(r@, CORRECTED_LIMIT as int),
    {
        let resp = chain_response(filters, &self.freq);
        let n = self.freq.len();
        let mut out: Vec<i64> = Vec::new();
        let mut i: usize = 0;
        while i < n
            invariant
                self.wf(),
                n == self.freq@.len(),
                resp@.len() == n,
                forall|k: int| 0 <= k < n ==> #[trigger] resp@[k] == chain_at(filters@, self.freq@[k] as int),
                forall|k: int| 0 <= k < n ==> -MAX_BAND * MAX_FILTERS <= #[trigger] resp@[k] <= MAX_BAND * MAX_FILTERS,
                i <= n,
                out@.len() == i,
                forall|k: int| 0 <= k < i ==> #[trigger] out@[k] == self.input@[k] + chain_at(filters@, self.freq@[k] as int),
                forall|k: int| 0 <= k < i ==> -CORRECTED_LIMIT <= #[trigger] out@[k] <= CORRECTED_LIMIT,
            decreases n - i,
        {
            proof {
                assert(-MAX_LEVEL <= self.input@[i as int] <= MAX_LEVEL);
                assert(-MAX_BAND * MAX_FILTERS <= resp@[i as int] <= MAX_BAND * MAX_FILTERS);
            }
            out.push(self.input[i] + resp[i]);
            i = i + 1;
        }
        out
    }

    /// Corrected levels of a parameter vector, smoothed when asked.
    pub fn levels(&self, x: &Vec<i64>) -> (r: Vec<i64>)
        requires
            self.wf(),
            params_ok(x@, self.num_filters as int),
        ensures
            r@ == self.levels_of(x@),
            levels_within(r@, CORRECTED_LIMIT as int),
    {
        proof {
            lemma_decoded_in_range(x@, self.num_filters as int, self.model, self.free_types@);
            assert(x@.len() / 3 == self.num_filters) by (nonlinear_arith)
                requires x@.len() == 3 * self.num_filters;
        }
        let filters = decode(x, self.model, &self.free_types);
        let corrected = self.corrected(&filters);
        proof {
            assert(corrected@ =~= self.corrected_of(x@));
        }
        match self.smooth_half_width {
            Some(h) => {
                proof {
                    assert(levels_within(corrected@, SMOOTH_LIMIT as int));
                }
                let sm = smooth_levels(&self.freq, &corrected, h);
                proof {
                    assert forall|i: int| 0 <= i < sm@.len() implies -CORRECTED_LIMIT <= #[trigger] sm@[i] <= CORRECTED_LIMIT by {
                        lemma_smoothed_bounded(self.freq@, corrected@, i, h as int, CORRECTED_LIMIT as int);
                    }
                    assert(sm@ =~= self.levels_of(x@));
                }
                sm
            },
            None => corrected,
        }
    }

    /// Mean squared deviation from the target within the frequency range.
    pub fn base_loss(&self, x: &Vec<i64>) -> (r: u64)
        requires
            self.wf(),
            params_ok(x@, self.num_filters as int),
        ensures
            r == self.base_loss_of(x@),
            r <= DEVIATION_LIMIT * DEVIATION_LIMIT,
    {
        let lv = self.levels(x);
        mean_square_deviation(&self.freq, &lv, &self.target, self.min_freq, self.max_freq)
    }

    /// The loss of a parameter vector: base loss plus spacing penalty.
    pub fn loss(&self, x: &Vec<i64>) -> (r: u64)
        requires
            self.wf(),
            params_ok(x@, self.num_filters as int),
        ensures
            r == self.loss_of(x@),
    {
        proof {
            lemma_decoded_in_range(x@, self.num_filters as int, self.model, self.free_types@);
            assert(x@.len() / 3 == self.num_filters) by (nonlinear_arith)
                requires x@.len() == 3 * self.num_filters;
        }
        let base = self.base_loss(x);
        let filters = decode(x, self.model, &self.free_types);
        let pen = spacing_penalty(&filters, self.min_spacing, self.spacing_weight);
        base + pen
    }
}

/// Crowding is penalized: a vector that puts two bands on one frequency
/// scores strictly worse than one whose bands keep the minimum spacing,
/// whenever the spacing and its weight are positive and the crowded vector
/// fits the curve no better.
pub proof fn law_spacing_penalty(obj: Objective, crowded: Seq<i64>, spaced: Seq<i64>, i: int, j: int)
    requires
        obj.wf(),
        params_ok(crowded, obj.num_filters as int),
        params_ok(spaced, obj.num_filters as int),
        0 <= i < obj.num_filters,
        0 <= j < obj.num_filters,
        i != j,
        obj.filters_of(crowded)[i].freq == obj.filters_of(crowded)[j].freq,
        well_spaced(obj.filters_of(spaced), obj.min_spacing as int),
        obj.min_spacing > 0,
        obj.spacing_weight > 0,
        obj.base_loss_of(crowded) >= obj.base_loss_of(spaced),
    ensures
        obj.loss_of(crowded) > obj.loss_of(spaced),
{
    lemma_decoded_in_range(crowded, obj.num_filters as int, obj.model, obj.free_types@);
    lemma_coincident_bands_penalized(
        obj.filters_of(crowded),
        obj.min_spacing as int,
        obj.spacing_weight as int,
        i,
        j,
    );
    lemma_well_spaced_unpenalized(obj.filters_of(spaced), obj.min_spacing as int, obj.spacing_weight as int);
}

} // verus!
