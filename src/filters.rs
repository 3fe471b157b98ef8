//! Filter parameterization: the flat parameter vector, the filter chain it
//! stands for under a topology, and the chain's level response.
use vstd::prelude::*;
use crate::arith::lemma_mean_bounds;
use crate::curve::{MAX_FREQ, freqs_in_range};

verus! {

/// Highest quality factor, in thousandths (Q = 100).
pub const MAX_Q: i64 = 100_000;

/// Largest magnitude of a gain, in milli-decibels (60 dB).
pub const MAX_GAIN: i64 = 60_000;

/// Most bands in a chain.
pub const MAX_FILTERS: usize = 20;

/// Largest magnitude of one band's response, in milli-decibels.
pub const MAX_BAND: i64 = 240_000;

/// Slope of the high- and low-pass skirts, in milli-decibels per
/// milli-octave (12 dB per octave).
pub const SKIRT_SLOPE: i64 = 12;

/// Kind of one band.
#[derive(Clone, Copy, Debug, PartialEq, Eq, Structural)]
pub enum FilterType {
    Peak,
    HighPass,
    LowPass,
}

/// Which band carries which kind of filter.
#[derive(Clone, Copy, Debug, PartialEq, Eq, Structural)]
pub enum PeqModel {
    /// Every band is a peak.
    Pk,
    /// The first band is a high-pass, the others peaks.
    HpPk,
    /// The first band is a high-pass, the last a low-pass, the others peaks.
    HpPkLp,
    /// Each band has the kind that the caller lists for it.
    Free,
}

/// One band: kind, centre or corner frequency (milli-octaves above 1 Hz),
/// quality factor (thousandths) and gain (milli-decibels, zero for high-
/// and low-pass bands).
#[derive(Clone, Copy, Debug, PartialEq, Eq, Structural)]
pub struct FilterParameter {
    pub filter_type: FilterType,
    pub freq: i64,
    pub q: i64,
    pub gain: i64,
}

/// Kind of band `i` of `n` under a topology.
pub open spec fn band_type(model: PeqModel, free_types: Seq<FilterType>, i: int, n: int) -> FilterType {
    match model {
        PeqModel::Pk => FilterType::Peak,
        PeqModel::HpPk => if i == 0 { FilterType::HighPass } else { FilterType::Peak },
        PeqModel::HpPkLp => if i == 0 {
            FilterType::HighPass
        } else if i == n - 1 {
            FilterType::LowPass
        } else {
            FilterType::Peak
        },
        PeqModel::Free => free_types[i],
    }
}

/// A topology can describe `n` bands: a free one lists a kind for each.
pub open spec fn model_fits(model: PeqModel, free_types: Seq<FilterType>, n: int) -> bool {
    model == PeqModel::Free ==> free_types.len() == n
}

/// Band `i` read from slots `3i` (frequency), `3i + 1` (Q) and `3i + 2`
/// (gain, dropped for high- and low-pass bands).
pub open spec fn decode_band(params: Seq<i64>, model: PeqModel, free_types: Seq<FilterType>, i: int) -> FilterParameter {
    let t = band_type(model, free_types, i, (params.len() / 3) as int);
    FilterParameter {
        filter_type: t,
        freq: params[3 * i],
        q: params[3 * i + 1],
        gain: if t == FilterType::Peak { params[3 * i + 2] } else { 0 },
    }
}

pub open spec fn decoded(params: Seq<i64>, model: PeqModel, free_types: Seq<FilterType>) -> Seq<FilterParameter> {
    Seq::new((params.len() / 3) as nat, |i: int| decode_band(params, model, free_types, i))
}

/// Slot `k` of the vector that lists each band as frequency, Q, gain.
pub open spec fn encoded_slot(filters: Seq<FilterParameter>, k: int) -> i64 {
    let fp = filters[k / 3];
    if k % 3 == 0 {
        fp.freq
    } else if k % 3 == 1 {
        fp.q
    } else {
        fp.gain
    }
}

pub open spec fn encoded(filters: Seq<FilterParameter>) -> Seq<i64> {
    Seq::new(3 * filters.len(), |k: int| encoded_slot(filters, k))
}

/// Each band has the kind its topology gives it, and only peaks carry gain.
pub open spec fn conforms(filters: Seq<FilterParameter>, model: PeqModel, free_types: Seq<FilterType>) -> bool {
    forall|i: int|
        0 <= i < filters.len() ==> {
            &&& (#[trigger] filters[i]).filter_type == band_type(model, free_types, i, filters.len() as int)
            &&& (filters[i].filter_type != FilterType::Peak ==> filters[i].gain == 0)
        }
}

/// Decoding the encoding of a conforming chain gives the chain back.
pub proof fn law_decode_encode(filters: Seq<FilterParameter>, model: PeqModel, free_types: Seq<FilterType>)
    requires
        conforms(filters, model, free_types),
    ensures
        decoded(encoded(filters), model, free_types) == filters,
{
    let e = encoded(filters);
    let n = filters.len() as int;
    assert(e.len() / 3 == n) by (nonlinear_arith)
        requires e.len() == 3 * n, n >= 0;
    let d = decoded(e, model, free_types);
    assert forall|i: int| 0 <= i < n implies #[trigger] d[i] == filters[i] by {
        assert((3 * i) / 3 == i && (3 * i) % 3 == 0) by (nonlinear_arith);
        assert((3 * i + 1) / 3 == i && (3 * i + 1) % 3 == 1) by (nonlinear_arith);
        assert((3 * i + 2) / 3 == i && (3 * i + 2) % 3 == 2) by (nonlinear_arith);
        assert(3 * i + 2 < 3 * n) by (nonlinear_arith) requires i < n;
    }
    assert(d =~= filters);
}

/// The three slots of each band lie in order in the vector.
pub fn encode(filters: &Vec<FilterParameter>) -> (r: Vec<i64>)
    requires
        filters@.len() <= MAX_FILTERS,
    ensures
        r@ == encoded(filters@),
{
    let mut out: Vec<i64> = Vec::new();
    let mut i: usize = 0;
    while i < filters.len()
        invariant
            i <= filters@.len() <= MAX_FILTERS,
            out@.len() == 3 * i,
            forall|k: int| 0 <= k < 3 * i ==> #[trigger] out@[k] == encoded_slot(filters@, k),
        decreases filters@.len() - i,
    {
        let fp = filters[i];
        out.push(fp.freq);
        out.push(fp.q);
        out.push(fp.gain);
        proof {
            assert forall|k: int| 3 * i <= k < 3 * i + 3 implies #[trigger] out@[k] == encoded_slot(filters@, k) by {
                assert(k / 3 == i as int && k % 3 == k - 3 * i) by (nonlinear_arith)
                    requires 3 * i <= k < 3 * i + 3;
            }
        }
        i = i + 1;
    }
    proof {
        assert(out@ =~= encoded(filters@));
    }
    out
}

/// Kind of band `i` of `n` under a topology.
pub fn band_kind(model: PeqModel, free_types: &Vec<FilterType>, i: usize, n: usize) -> (r: FilterType)
    requires
        i < n,
        model_fits(model, free_types@, n as int),
    ensures
        r == band_type(model, free_types@, i as int, n as int),
{
    match model {
        PeqModel::Pk => FilterType::Peak,
        PeqModel::HpPk => if i == 0 { FilterType::HighPass } else { FilterType::Peak },
        PeqModel::HpPkLp => if i == 0 {
            FilterType::HighPass
        } else if i == n - 1 {
            FilterType::LowPass
        } else {
            FilterType::Peak
        },
        PeqModel::Free => free_types[i],
    }
}

/// The chain of bands that a parameter vector stands for.
pub fn decode(params: &Vec<i64>, model: PeqModel, free_types: &Vec<FilterType>) -> (r: Vec<FilterParameter>)
    requires
        params@.len() % 3 == 0,
        model_fits(model, free_types@, (params@.len() / 3) as int),
    ensures
        r@ == decoded(params@, model, free_types@),
{
    let len = params.len();
    let n = len / 3;
    let mut out: Vec<FilterParameter> = Vec::new();
    let mut i: usize = 0;
    while i < n
        invariant
            len == params@.len(),
            n == params@.len() / 3,
            params@.len() % 3 == 0,
            model_fits(model, free_types@, n as int),
            i <= n,
            out@.len() == i,
            forall|k: int| 0 <= k < i ==> #[trigger] out@[k] == decode_band(params@, model, free_types@, k),
        decreases n - i,
    {
        let t = band_kind(model, free_types, i, n);
        proof {
            assert(3 * i + 2 < params@.len()) by (nonlinear_arith)
                requires i < n, n == params@.len() / 3, params@.len() % 3 == 0;
        }
        let gain = if t == FilterType::Peak { params[3 * i + 2] } else { 0 };
        out.push(FilterParameter { filter_type: t, freq: params[3 * i], q: params[3 * i + 1], gain });
        i = i + 1;
    }
    proof {
        assert(out@ =~= decoded(params@, model, free_types@));
    }
    out
}

/// A band whose values the response kernel accepts.
pub open spec fn filter_in_range(fp: FilterParameter) -> bool {
    &&& 0 < fp.freq <= MAX_FREQ
    &&& 0 < fp.q <= MAX_Q
    &&& -MAX_GAIN <= fp.gain <= MAX_GAIN
}

pub open spec fn filters_in_range(filters: Seq<FilterParameter>) -> bool {
    forall|i: int| 0 <= i < filters.len() ==> filter_in_range(#[trigger] filters[i])
}

pub open spec fn abs(x: int) -> int {
    if x < 0 { -x } else { x }
}

/// Response of a peak with gain `g` and quality `q` at distance `d`
/// (milli-octaves) from its centre: the gain scaled by `1 / (1 + (2 Q Δ)^2)`,
/// with Δ the distance in octaves, rounded toward zero.
pub open spec fn peak_response(g: int, q: int, d: int) -> int {
    let x = 2 * q * abs(d) / 1000;
    let den = 1_000_000 + x * x;
    if g >= 0 {
        g * 1_000_000 / den
    } else {
        -((-g) * 1_000_000 / den)
    }
}

/// Level response of one band at frequency `f`, in milli-decibels. High-
/// and low-pass bands fall off at `SKIRT_SLOPE` beyond their corner.
pub open spec fn band_response(fp: FilterParameter, f: int) -> int {
    match fp.filter_type {
        FilterType::Peak => peak_response(fp.gain as int, fp.q as int, f - fp.freq),
        FilterType::HighPass => if f < fp.freq { -SKIRT_SLOPE * (fp.freq - f) } else { 0 },
        FilterType::LowPass => if f > fp.freq { -SKIRT_SLOPE * (f - fp.freq) } else { 0 },
    }
}

/// Response of a chain of bands at `f`: the sum of the bands' responses.
pub open spec fn chain_at(filters: Seq<FilterParameter>, f: int) -> int
    decreases filters.len(),
{
    if filters.len() == 0 {
        0
    } else {
        chain_at(filters.drop_last(), f) + band_response(filters.last(), f)
    }
}

/// Response of one band at `f`.
pub fn band_response_at(fp: &FilterParameter, f: i64) -> (r: i64)
    requires
        filter_in_range(*fp),
        0 < f <= MAX_FREQ,
    ensures
        r == band_response(*fp, f as int),
        -MAX_BAND <= r <= MAX_BAND,
{
    match fp.filter_type {
        FilterType::Peak => {
            let d: i64 = f - fp.freq;
            let ad: u64 = if d < 0 { (-d) as u64 } else { d as u64 };
            proof {
                assert(2 * (fp.q as u64) * ad <= 2 * 100_000 * 20_000) by (nonlinear_arith)
                    requires fp.q <= 100_000, ad <= 20_000, fp.q > 0;
            }
            let x: u64 = 2 * (fp.q as u64) * ad / 1000;
            proof {
                assert(x <= 4_000_000);
                assert(x * x <= 16_000_000_000_000) by (nonlinear_arith) requires x <= 4_000_000;
            }
            let den: u64 = 1_000_000 + x * x;
            let g: i64 = fp.gain;
            let mag: u64 = if g >= 0 { g as u64 } else { (-g) as u64 };
            let scaled: u64 = mag * 1_000_000 / den;
            proof {
                assert(mag * 1_000_000 <= mag * den) by (nonlinear_arith)
                    requires den >= 1_000_000, mag >= 0;
                lemma_mean_bounds(mag * 1_000_000, den as int, 0, mag as int);
                assert(x == 2 * fp.q * abs(f - fp.freq) / 1000);
            }
            if g >= 0 {
                scaled as i64
            } else {
                -(scaled as i64)
            }
        },
        FilterType::HighPass => if f < fp.freq { 0 - SKIRT_SLOPE * (fp.freq - f) } else { 0 },
        FilterType::LowPass => if f > fp.freq { 0 - SKIRT_SLOPE * (f - fp.freq) } else { 0 },
    }
}

/// Response of a chain at `f`: the sum over its bands.
pub fn chain_response_at(filters: &Vec<FilterParameter>, f: i64) -> (r: i64)
    requires
        filters@.len() <= MAX_FILTERS,
        filters_in_range(filters@),
        0 < f <= MAX_FREQ,
    ensures
        r == chain_at(filters@, f as int),
        -MAX_BAND * MAX_FILTERS <= r <= MAX_BAND * MAX_FILTERS,
{
    let mut acc: i64 = 0;
    let mut i: usize = 0;
    while i < filters.len()
        invariant
            i <= filters@.len() <= MAX_FILTERS,
            filters_in_range(filters@),
            0 < f <= MAX_FREQ,
            acc == chain_at(filters@.subrange(0, i as int), f as int),
            -(MAX_BAND * i) <= acc <= MAX_BAND * i,
        decreases filters@.len() - i,
    {
        let b = band_response_at(&filters[i], f);
        proof {
            let s = filters@.subrange(0, i + 1);
            assert(s.drop_last() =~= filters@.subrange(0, i as int));
            assert(s.last() == filters@[i as int]);
            assert(MAX_BAND * (i + 1) == MAX_BAND * i + MAX_BAND) by (nonlinear_arith);
            assert(MAX_BAND * i <= MAX_BAND * MAX_FILTERS) by (nonlinear_arith) requires i <= MAX_FILTERS;
        }
        acc = acc + b;
        i = i + 1;
    }
    proof {
        assert(filters@.subrange(0, filters@.len() as int) =~= filters@);
        assert(MAX_BAND * i <= MAX_BAND * MAX_FILTERS) by (nonlinear_arith) requires i <= MAX_FILTERS;
    }
    acc
}

/// Response of a chain on a grid of frequencies.
pub fn chain_response(filters: &Vec<FilterParameter>, freqs: &Vec<i64>) -> (r: Vec<i64>)
    requires
        filters@.len() <= MAX_FILTERS,
        filters_in_range(filters@),
        freqs_in_range(freqs@),
    ensures
        r@.len() == freqs@.len(),
        forall|i: int| 0 <= i < r@.len() ==> #[trigger] r@[i] == chain_at(filters@, freqs@[i] as int),
        forall|i: int| 0 <= i < r@.len() ==> -MAX_BAND * MAX_FILTERS <= #[trigger] r@[i] <= MAX_BAND * MAX_FILTERS,
{
    let mut out: Vec<i64> = Vec::new();
    let mut i: usize = 0;
    while i < freqs.len()
        invariant
            i <= freqs@.len(),
            filters@.len() <= MAX_FILTERS,
            filters_in_range(filters@),
            freqs_in_range(freqs@),
            out@.len() == i,
            forall|k: int| 0 <= k < i ==> #[trigger] out@[k] == chain_at(filters@, freqs@[k] as int),
            forall|k: int| 0 <= k < i ==> -MAX_BAND * MAX_FILTERS <= #[trigger] out@[k] <= MAX_BAND * MAX_FILTERS,
        decreases freqs@.len() - i,
    {
        let v = chain_response_at(filters, freqs[i]);
        out.push(v);
        i = i + 1;
    }
    out
}

/// Bands in order of frequency.
pub open spec fn sorted_by_freq(s: Seq<FilterParameter>) -> bool {
    forall|i: int, j: int| 0 <= i <= j < s.len() ==> (#[trigger] s[i]).freq <= (#[trigger] s[j]).freq
}

/// The same bands in order of frequency; bands of equal frequency keep
/// their order.
pub fn sort_by_frequency(filters: &Vec<FilterParameter>) -> (r: Vec<FilterParameter>)
    ensures
        sorted_by_freq(r@),
        r@.to_multiset() == filters@.to_multiset(),
        r@.len() == filters@.len(),
{
    broadcast use vstd::seq_lib::to_multiset_insert;

    let mut out: Vec<FilterParameter> = Vec::new();
    let mut i: usize = 0;
    proof {
        assert(out@ =~= filters@.subrange(0, 0));
    }
    while i < filters.len()
        invariant
            i <= filters@.len(),
            out@.len() == i,
            sorted_by_freq(out@),
            out@.to_multiset() == filters@.subrange(0, i as int).to_multiset(),
        decreases filters@.len() - i,
    {
        let e = filters[i];
        let mut pos: usize = 0;
        while pos < out.len() && out[pos].freq <= e.freq
            invariant
                pos <= out@.len(),
                forall|k: int| 0 <= k < pos ==> (#[trigger] out@[k]).freq <= e.freq,
            decreases out@.len() - pos,
        {
            pos = pos + 1;
        }
        let ghost before = out@;
        out.insert(pos, e);
        proof {
            assert(out@ == before.insert(pos as int, e));
            assert forall|a: int, b: int| 0 <= a <= b < out@.len() implies (#[trigger] out@[a]).freq <= (#[trigger] out@[b]).freq by {
                if pos < before.len() {
                    assert(before[pos as int].freq > e.freq);
                }
                if a < pos && b > pos {
                    assert(before[a].freq <= e.freq);
                } else if a == pos && b > pos {
                    assert(out@[b] == before[b - 1]);
                    assert(before[pos as int].freq <= before[b - 1].freq);
                } else if a > pos {
                    assert(out@[a] == before[a - 1]);
                    assert(out@[b] == before[b - 1]);
                }
            }
            assert(filters@.subrange(0, i + 1) =~= filters@.subrange(0, i as int).push(e));
            vstd::seq_lib::to_multiset_build(filters@.subrange(0, i as int), e);
            vstd::seq_lib::to_multiset_insert(before, pos as int, e);
            assert(out@.to_multiset() == before.to_multiset().insert(e));
            assert(filters@.subrange(0, i + 1).to_multiset() =~= filters@.subrange(0, i as int).to_multiset().insert(e));
        }
        i = i + 1;
    }
    proof {
        assert(filters@.subrange(0, filters@.len() as int) =~= filters@);
    }
    out
}

/// The bands of a parameter vector under a topology, in order of frequency.
pub fn convert_raw_params_to_filters(
    raw_params: &Vec<i64>,
    peq_model: PeqModel,
    free_types: &Vec<FilterType>,
) -> (r: Vec<FilterParameter>)
    requires
        raw_params@.len() % 3 == 0,
        model_fits(peq_model, free_types@, (raw_params@.len() / 3) as int),
    ensures
        sorted_by_freq(r@),
        r@.to_multiset() == decoded(raw_params@, peq_model, free_types@).to_multiset(),
        r@.len() == raw_params@.len() / 3,
{
    let filters = decode(raw_params, peq_model, free_types);
    sort_by_frequency(&filters)
}

} // verus!
