//! Frequency-response curves: validated sample pairs, clamped linear
//! interpolation and fractional-octave smoothing.
use vstd::prelude::*;
use crate::arith::{floor_div, lemma_mean_bounds};

verus! {

/// Highest representable frequency, in milli-octaves above 1 Hz (about 1 MHz).
pub const MAX_FREQ: i64 = 20_000;

/// Largest magnitude of a curve level, in milli-decibels (200 dB).
pub const MAX_LEVEL: i64 = 200_000;

/// Largest magnitude of any level handed to the smoothing kernel.
pub const SMOOTH_LIMIT: i64 = 1_000_000_000;

/// A sampled response: `freq[i]` (milli-octaves above 1 Hz) carries level
/// `spl[i]` (milli-decibels).
#[derive(Clone, Debug)]
pub struct CurveData {
    pub freq: Vec<i64>,
    pub spl: Vec<i64>,
}

/// Why a pair of sequences is not a curve.
#[derive(Clone, Copy, Debug, PartialEq, Eq, Structural)]
pub enum CurveError {
    /// The two sequences differ in length.
    LengthMismatch,
    /// Fewer than two samples.
    TooShort,
    /// A frequency lies outside `(0, MAX_FREQ]`.
    FrequencyOutOfRange,
    /// Frequencies are not strictly increasing.
    NotIncreasing,
    /// A level lies outside `[-MAX_LEVEL, MAX_LEVEL]`.
    LevelOutOfRange,
}

pub open spec fn freqs_in_range(freq: Seq<i64>) -> bool {
    forall|i: int| 0 <= i < freq.len() ==> 0 < #[trigger] freq[i] <= MAX_FREQ
}

pub open spec fn strictly_increasing(freq: Seq<i64>) -> bool {
    forall|i: int| 0 <= i < freq.len() - 1 ==> #[trigger] freq[i] < freq[i + 1]
}

pub open spec fn levels_within(spl: Seq<i64>, bound: int) -> bool {
    forall|i: int| 0 <= i < spl.len() ==> -bound <= #[trigger] spl[i] <= bound
}

/// The invariant of a curve.
pub open spec fn valid_curve(freq: Seq<i64>, spl: Seq<i64>) -> bool {
    &&& freq.len() == spl.len()
    &&& freq.len() >= 2
    &&& freqs_in_range(freq)
    &&& strictly_increasing(freq)
    &&& levels_within(spl, MAX_LEVEL as int)
}

/// A curve is valid exactly when no check fails.
pub proof fn lemma_no_fault_valid(freq: Seq<i64>, spl: Seq<i64>)
    ensures
        curve_fault(freq, spl) is None <==> valid_curve(freq, spl),
{
}

/// Which check a pair of sequences fails first, if any.
pub open spec fn curve_fault(freq: Seq<i64>, spl: Seq<i64>) -> Option<CurveError> {
    if freq.len() != spl.len() {
        Some(CurveError::LengthMismatch)
    } else if freq.len() < 2 {
        Some(CurveError::TooShort)
    } else if !freqs_in_range(freq) {
        Some(CurveError::FrequencyOutOfRange)
    } else if !strictly_increasing(freq) {
        Some(CurveError::NotIncreasing)
    } else if !levels_within(spl, MAX_LEVEL as int) {
        Some(CurveError::LevelOutOfRange)
    } else {
        None
    }
}

/// Sorted sequences keep their order between any two positions.
pub proof fn lemma_increasing_pairwise(freq: Seq<i64>, i: int, j: int)
    requires
        strictly_increasing(freq),
        0 <= i < j < freq.len(),
    ensures
        freq[i] < freq[j],
    decreases j - i,
{
    if j > i + 1 {
        lemma_increasing_pairwise(freq, i, j - 1);
    }
    assert(freq[j - 1] < freq[j]);
}

/// Index of the segment `[freq[i], freq[i + 1]]` that a search from `i` settles on.
pub open spec fn segment(freq: Seq<i64>, f: int, i: int) -> int
    decreases freq.len() - i,
{
    if i < 0 || i + 2 >= freq.len() || f < freq[i + 1] {
        i
    } else {
        segment(freq, f, i + 1)
    }
}

/// Linear interpolation between two samples, rounded down.
pub open spec fn lerp(f0: int, v0: int, f1: int, v1: int, f: int) -> int {
    v0 + (v1 - v0) * (f - f0) / (f1 - f0)
}

/// Level of a curve at `f`, linear between samples and clamped to the edge
/// samples outside the sampled range.
pub open spec fn interpolated(freq: Seq<i64>, spl: Seq<i64>, f: int) -> int {
    let n = freq.len() as int;
    if f <= freq[0] {
        spl[0] as int
    } else if f >= freq[n - 1] {
        spl[n - 1] as int
    } else {
        let i = segment(freq, f, 0);
        lerp(freq[i] as int, spl[i] as int, freq[i + 1] as int, spl[i + 1] as int, f)
    }
}

pub open spec fn in_window(freq: Seq<i64>, c: int, j: int, half_width: int) -> bool {
    -half_width <= freq[j] - freq[c] <= half_width
}

/// Sum of the levels among the first `k` samples that lie within
/// `half_width` of sample `c`.
pub open spec fn window_sum(freq: Seq<i64>, lv: Seq<i64>, c: int, half_width: int, k: int) -> int
    decreases k,
{
    if k <= 0 {
        0
    } else {
        window_sum(freq, lv, c, half_width, k - 1) + if in_window(freq, c, k - 1, half_width) {
            lv[k - 1] as int
        } else {
            0
        }
    }
}

/// Number of the first `k` samples that lie within `half_width` of sample `c`.
pub open spec fn window_count(freq: Seq<i64>, c: int, half_width: int, k: int) -> int
    decreases k,
{
    if k <= 0 {
        0
    } else {
        window_count(freq, c, half_width, k - 1) + if in_window(freq, c, k - 1, half_width) {
            1int
        } else {
            0
        }
    }
}

/// Moving average at sample `c` over the samples within `half_width`
/// (in log frequency), rounded down.
pub open spec fn smoothed_at(freq: Seq<i64>, lv: Seq<i64>, c: int, half_width: int) -> int {
    window_sum(freq, lv, c, half_width, freq.len() as int) / window_count(
        freq,
        c,
        half_width,
        freq.len() as int,
    )
}

/// Half the width of a `1/n`-octave window, in milli-octaves.
pub open spec fn half_window(n: int) -> int {
    500int / n
}

proof fn lemma_window_bounds(freq: Seq<i64>, lv: Seq<i64>, c: int, h: int, k: int, bound: int)
    requires
        0 <= k <= freq.len(),
        freq.len() == lv.len(),
        0 <= c < freq.len(),
        h >= 0,
        bound >= 0,
        levels_within(lv, bound),
    ensures
        -bound * window_count(freq, c, h, k) <= window_sum(freq, lv, c, h, k) <= bound
            * window_count(freq, c, h, k),
        0 <= window_count(freq, c, h, k) <= k,
        k > c ==> window_count(freq, c, h, k) >= 1,
    decreases k,
{
    if k > 0 {
        lemma_window_bounds(freq, lv, c, h, k - 1, bound);
        assert(-bound <= lv[k - 1] <= bound);
        let wc = window_count(freq, c, h, k - 1);
        assert(-bound * (wc + 1) == -bound * wc - bound) by (nonlinear_arith);
        assert(bound * (wc + 1) == bound * wc + bound) by (nonlinear_arith);
    }
}

/// A smoothed level stays within any bound that holds of all levels.
pub proof fn lemma_smoothed_bounded(freq: Seq<i64>, lv: Seq<i64>, c: int, h: int, bound: int)
    requires
        freq.len() == lv.len(),
        0 <= c < freq.len(),
        h >= 0,
        bound >= 0,
        levels_within(lv, bound),
    ensures
        -bound <= smoothed_at(freq, lv, c, h) <= bound,
{
    let n = freq.len() as int;
    lemma_window_bounds(freq, lv, c, h, n, bound);
    let s = window_sum(freq, lv, c, h, n);
    let k = window_count(freq, c, h, n);
    assert(-bound * k == (-bound) * k) by (nonlinear_arith);
    assert(s <= bound * k);
    lemma_mean_bounds(s, k, -bound, bound);
}

/// Moving average of `levels` over a window of `half_width` milli-octaves
/// on either side of each sample.
pub fn smooth_levels(freq: &Vec<i64>, levels: &Vec<i64>, half_width: i64) -> (r: Vec<i64>)
    requires
        freq@.len() == levels@.len(),
        half_width >= 0,
        freqs_in_range(freq@),
        levels_within(levels@, SMOOTH_LIMIT as int),
    ensures
        r@.len() == levels@.len(),
        forall|i: int| 0 <= i < r@.len() ==> #[trigger] r@[i] == smoothed_at(freq@, levels@, i, half_width as int),
{
    let n = freq.len();
    let mut out: Vec<i64> = Vec::with_capacity(n);
    let mut c: usize = 0;
    while c < n
        invariant
            freq@.len() == n,
            levels@.len() == n,
            c <= n,
            half_width >= 0,
            freqs_in_range(freq@),
            levels_within(levels@, SMOOTH_LIMIT as int),
            out@.len() == c,
            forall|i: int| 0 <= i < c ==> #[trigger] out@[i] == smoothed_at(freq@, levels@, i, half_width as int),
        decreases n - c,
    {
        let mut sum: i128 = 0;
        let mut count: i128 = 0;
        let mut j: usize = 0;
        while j < n
            invariant
                freq@.len() == n,
                levels@.len() == n,
                c < n,
                j <= n,
                half_width >= 0,
                freqs_in_range(freq@),
                levels_within(levels@, SMOOTH_LIMIT as int),
                sum == window_sum(freq@, levels@, c as int, half_width as int, j as int),
                count == window_count(freq@, c as int, half_width as int, j as int),
            decreases n - j,
        {
            proof {
                lemma_window_bounds(freq@, levels@, c as int, half_width as int, j as int, SMOOTH_LIMIT as int);
                assert(j <= usize::MAX);
                assert(SMOOTH_LIMIT * count <= SMOOTH_LIMIT * (u64::MAX as int)) by (nonlinear_arith)
                    requires count <= u64::MAX, count >= 0;
            }
            let d = freq[j] - freq[c];
            if -half_width <= d && d <= half_width {
                sum = sum + levels[j] as i128;
                count = count + 1;
            }
            j = j + 1;
        }
        proof {
            lemma_window_bounds(freq@, levels@, c as int, half_width as int, n as int, SMOOTH_LIMIT as int);
            assert(SMOOTH_LIMIT * count <= SMOOTH_LIMIT * (u64::MAX as int)) by (nonlinear_arith)
                requires count <= u64::MAX, count >= 0;
            lemma_smoothed_bounded(freq@, levels@, c as int, half_width as int, SMOOTH_LIMIT as int);
            assert(count <= n);
            assert(n <= u64::MAX);
            assert(-SMOOTH_LIMIT * count >= -SMOOTH_LIMIT * (u64::MAX as int)) by (nonlinear_arith)
                requires count <= u64::MAX, count >= 0;
        }
        let avg = floor_div(sum, count);
        out.push(avg as i64);
        c = c + 1;
    }
    out
}

impl CurveData {
    pub open spec fn wf(&self) -> bool {
        valid_curve(self.freq@, self.spl@)
    }

    /// Checks that frequencies and levels form a curve: equal lengths (at
    /// least two), frequencies strictly increasing, all values within range.
    pub fn check(freq: &Vec<i64>, spl: &Vec<i64>) -> (r: Result<(), CurveError>)
        ensures
            match r {
                Ok(_) => curve_fault(freq@, spl@) is None,
                Err(e) => curve_fault(freq@, spl@) == Some(e),
            },
    {
        if freq.len() != spl.len() {
            return Err(CurveError::LengthMismatch);
        }
        if freq.len() < 2 {
            return Err(CurveError::TooShort);
        }
        let n = freq.len();
        let mut i: usize = 0;
        while i < n
            invariant
                n == freq@.len(),
                n == spl@.len(),
                n >= 2,
                i <= n,
                forall|k: int| 0 <= k < i ==> 0 < #[trigger] freq@[k] <= MAX_FREQ,
            decreases n - i,
        {
            if freq[i] <= 0 || freq[i] > MAX_FREQ {
                proof {
                    assert(!(0 < freq@[i as int] <= MAX_FREQ));
                    assert(!freqs_in_range(freq@));
                }
                return Err(CurveError::FrequencyOutOfRange);
            }
            i = i + 1;
        }
        let mut i: usize = 0;
        while i + 1 < n
            invariant
                n == freq@.len(),
                n == spl@.len(),
                n >= 2,
                i < n,
                freqs_in_range(freq@),
                forall|k: int| 0 <= k < i ==> #[trigger] freq@[k] < freq@[k + 1],
            decreases n - i,
        {
            if freq[i] >= freq[i + 1] {
                proof {
                    assert(!(freq@[i as int] < freq@[i + 1]));
                    assert(!strictly_increasing(freq@));
                }
                return Err(CurveError::NotIncreasing);
            }
            i = i + 1;
        }
        let mut i: usize = 0;
        while i < n
            invariant
                n == freq@.len(),
                n == spl@.len(),
                n >= 2,
                i <= n,
                freqs_in_range(freq@),
                strictly_increasing(freq@),
                forall|k: int| 0 <= k < i ==> -MAX_LEVEL <= #[trigger] spl@[k] <= MAX_LEVEL,
            decreases n - i,
        {
            if spl[i] < -MAX_LEVEL || spl[i] > MAX_LEVEL {
                proof {
                    assert(!(-MAX_LEVEL <= spl@[i as int] <= MAX_LEVEL));
                    assert(!levels_within(spl@, MAX_LEVEL as int));
                }
                return Err(CurveError::LevelOutOfRange);
            }
            i = i + 1;
        }
        Ok(())
    }

    /// Builds a curve from frequencies and levels, which must be of equal
    /// length (at least two), with frequencies strictly increasing and all
    /// values within range. Unsorted input is refused, not sorted.
    pub fn new(freq: Vec<i64>, spl: Vec<i64>) -> (r: Result<CurveData, CurveError>)
        ensures
            match r {
                Ok(c) => curve_fault(freq@, spl@) is None && c.freq@ == freq@ && c.spl@ == spl@,
                Err(e) => curve_fault(freq@, spl@) == Some(e),
            },
    {
        match CurveData::check(&freq, &spl) {
            Ok(_) => Ok(CurveData { freq, spl }),
            Err(e) => Err(e),
        }
    }

    /// Lowest sampled frequency.
    pub fn min_freq(&self) -> (r: i64)
        requires
            self.wf(),
        ensures
            r == self.freq@[0],
            forall|i: int| 0 <= i < self.freq@.len() ==> r <= #[trigger] self.freq@[i],
    {
        proof {
            assert forall|i: int| 0 <= i < self.freq@.len() implies self.freq@[0] <= #[trigger] self.freq@[i] by {
                if i > 0 {
                    lemma_increasing_pairwise(self.freq@, 0, i);
                }
            }
        }
        self.freq[0]
    }

    /// Highest sampled frequency.
    pub fn max_freq(&self) -> (r: i64)
        requires
            self.wf(),
        ensures
            r == self.freq@[self.freq@.len() - 1],
            forall|i: int| 0 <= i < self.freq@.len() ==> #[trigger] self.freq@[i] <= r,
    {
        let n = self.freq.len();
        proof {
            assert forall|i: int| 0 <= i < n implies #[trigger] self.freq@[i] <= self.freq@[n - 1] by {
                if i < n - 1 {
                    lemma_increasing_pairwise(self.freq@, i, n - 1);
                }
            }
        }
        self.freq[n - 1]
    }

    /// Lowest level.
    pub fn min_spl(&self) -> (r: i64)
        requires
            self.wf(),
        ensures
            exists|i: int| 0 <= i < self.spl@.len() && #[trigger] self.spl@[i] == r,
            forall|i: int| 0 <= i < self.spl@.len() ==> r <= #[trigger] self.spl@[i],
    {
        let n = self.spl.len();
        let mut best: i64 = self.spl[0];
        let mut i: usize = 1;
        while i < n
            invariant
                n == self.spl@.len(),
                1 <= i <= n,
                exists|k: int| 0 <= k < i && #[trigger] self.spl@[k] == best,
                forall|k: int| 0 <= k < i ==> best <= #[trigger] self.spl@[k],
            decreases n - i,
        {
            if self.spl[i] < best {
                best = self.spl[i];
            }
            i = i + 1;
        }
        best
    }

    /// Highest level.
    pub fn max_spl(&self) -> (r: i64)
        requires
            self.wf(),
        ensures
            exists|i: int| 0 <= i < self.spl@.len() && #[trigger] self.spl@[i] == r,
            forall|i: int| 0 <= i < self.spl@.len() ==> #[trigger] self.spl@[i] <= r,
    {
        let n = self.spl.len();
        let mut best: i64 = self.spl[0];
        let mut i: usize = 1;
        while i < n
            invariant
                n == self.spl@.len(),
                1 <= i <= n,
                exists|k: int| 0 <= k < i && #[trigger] self.spl@[k] == best,
                forall|k: int| 0 <= k < i ==> #[trigger] self.spl@[k] <= best,
            decreases n - i,
        {
            if self.spl[i] > best {
                best = self.spl[i];
            }
            i = i + 1;
        }
        best
    }

    /// Level at frequency `f`, interpolated linearly between samples and
    /// clamped to the edge samples outside the sampled range.
    pub fn interpolate(&self, f: i64) -> (r: i64)
        requires
            self.wf(),
        ensures
            r == interpolated(self.freq@, self.spl@, f as int),
            -MAX_LEVEL <= r <= MAX_LEVEL,
    {
        let n = self.freq.len();
        if f <= self.freq[0] {
            return self.spl[0];
        }
        if f >= self.freq[n - 1] {
            return self.spl[n - 1];
        }
        let mut i: usize = 0;
        while i + 2 < n && f >= self.freq[i + 1]
            invariant
                self.wf(),
                n == self.freq@.len(),
                i + 1 < n,
                self.freq@[i as int] <= f,
                f < self.freq@[n - 1],
                segment(self.freq@, f as int, 0) == segment(self.freq@, f as int, i as int),
            decreases n - i,
        {
            i = i + 1;
        }
        let f0 = self.freq[i];
        let f1 = self.freq[i + 1];
        let v0 = self.spl[i];
        let v1 = self.spl[i + 1];
        proof {
            assert(self.freq@[i as int] < self.freq@[i + 1]);
            assert(f < f1);
            assert(0 < f0 <= MAX_FREQ);
            assert(0 < f1 <= MAX_FREQ);
            assert(-MAX_LEVEL <= v0 <= MAX_LEVEL);
            assert(-MAX_LEVEL <= v1 <= MAX_LEVEL);
            let d = v1 - v0;
            let a = f - f0;
            assert(-1_000_000_000_000int <= d * a <= 1_000_000_000_000int) by (nonlinear_arith)
                requires
                    -400_000 <= d <= 400_000,
                    0 <= a <= 20_000,
            ;
        }
        let num: i128 = (v1 as i128 - v0 as i128) * (f as i128 - f0 as i128);
        let den: i128 = f1 as i128 - f0 as i128;
        let step = floor_div(num, den);
        proof {
            let d = v1 - v0;
            let a = f - f0;
            let lo = if d < 0 { d as int } else { 0int };
            let hi = if d < 0 { 0int } else { d as int };
            assert(lo * den <= num <= hi * den) by (nonlinear_arith)
                requires
                    num == d * a,
                    0 <= a < den,
                    lo == (if d < 0 { d as int } else { 0int }),
                    hi == (if d < 0 { 0int } else { d as int }),
            ;
            lemma_mean_bounds(num as int, den as int, lo, hi);
            assert(-MAX_LEVEL <= v0 <= MAX_LEVEL);
            assert(-MAX_LEVEL <= v1 <= MAX_LEVEL);
        }
        v0 + step as i64
    }

    /// The curve averaged over a sliding `1/n`-octave window.
    pub fn smooth(&self, n: u64) -> (r: CurveData)
        requires
            self.wf(),
            n >= 1,
        ensures
            r.wf(),
            r.freq@ == self.freq@,
            forall|i: int| 0 <= i < r.spl@.len() ==> #[trigger] r.spl@[i] == smoothed_at(
                self.freq@,
                self.spl@,
                i,
                half_window(n as int),
            ),
    {
        let h: i64 = (500 / n) as i64;
        let spl = smooth_levels(&self.freq, &self.spl, h);
        proof {
            assert forall|i: int| 0 <= i < spl@.len() implies -MAX_LEVEL <= #[trigger] spl@[i] <= MAX_LEVEL by {
                lemma_smoothed_bounded(self.freq@, self.spl@, i, h as int, MAX_LEVEL as int);
            }
        }
        CurveData { freq: self.freq.clone(), spl }
    }
}

} // verus!
