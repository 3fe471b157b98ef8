//! Differential evolution over a box of parameter vectors.
use vstd::prelude::*;
use crate::arith::floor_div;
use crate::loss::{Objective, ObjectiveModel, params_ok, slot_ok};
use crate::rng::{SplitMix64, advance, advance_by, draw_below, mix64};

verus! {

/// Largest magnitude of any slot of a parameter vector.
pub const VALUE_LIMIT: i64 = 100_000;

/// Most individuals in a population.
pub const MAX_POPULATION: usize = 10_000;

/// Largest mutation factor, in thousandths.
pub const MAX_MUTATION: u64 = 2_000;

/// How a mutant vector is formed.
#[derive(Clone, Copy, Debug, PartialEq, Eq, Structural)]
pub enum Strategy {
    /// `a + F (b - c)` from three random others.
    Rand1Bin,
    /// `best + F (a - b)`.
    Best1Bin,
    /// `x + F (best - x) + F (a - b)`, with `x` the current individual.
    CurrentToBest1Bin,
}

/// Per-slot lower and upper bounds of the search box.
#[derive(Clone, Debug)]
pub struct SearchBounds {
    pub lower: Vec<i64>,
    pub upper: Vec<i64>,
}

/// A box over vectors of `n` bands whose corners hold acceptable values.
pub open spec fn bounds_ok(lower: Seq<i64>, upper: Seq<i64>, n: int) -> bool {
    &&& lower.len() == 3 * n
    &&& upper.len() == 3 * n
    &&& forall|k: int|
        0 <= k < 3 * n ==> {
            &&& #[trigger] lower[k] <= upper[k]
            &&& slot_ok(k, lower[k] as int)
            &&& slot_ok(k, upper[k] as int)
        }
}

/// `x` lies in the box.
pub open spec fn within(lower: Seq<i64>, upper: Seq<i64>, x: Seq<i64>) -> bool {
    &&& x.len() == lower.len()
    &&& forall|k: int| 0 <= k < x.len() ==> lower[k] <= #[trigger] x[k] <= upper[k]
}

pub proof fn lemma_within_ok(lower: Seq<i64>, upper: Seq<i64>, x: Seq<i64>, n: int)
    requires
        bounds_ok(lower, upper, n),
        within(lower, upper, x),
    ensures
        params_ok(x, n),
        forall|k: int| 0 <= k < x.len() ==> -VALUE_LIMIT <= #[trigger] x[k] <= VALUE_LIMIT,
{
    assert forall|k: int| 0 <= k < x.len() implies slot_ok(k, #[trigger] x[k] as int) && -VALUE_LIMIT <= x[k] <= VALUE_LIMIT by {
        assert(lower[k] <= upper[k]);
    }
}

/// Evaluates a vector of the box. Every evaluation of a search goes
/// through here, so no vector outside the box is ever evaluated.
pub fn evaluate(obj: &Objective, lower: &Vec<i64>, upper: &Vec<i64>, x: &Vec<i64>) -> (r: u64)
    requires
        obj.wf(),
        bounds_ok(lower@, upper@, obj.num_filters as int),
        within(lower@, upper@, x@),
    ensures
        r == obj.loss_of(x@),
{
    proof {
        lemma_within_ok(lower@, upper@, x@, obj.num_filters as int);
    }
    obj.loss(x)
}

/// A copy of a vector.
pub fn copy_vec(v: &Vec<i64>) -> (r: Vec<i64>)
    ensures
        r@ == v@,
{
    let mut out: Vec<i64> = Vec::new();
    let mut i: usize = 0;
    while i < v.len()
        invariant
            i <= v@.len(),
            out@ == v@.subrange(0, i as int),
        decreases v@.len() - i,
    {
        out.push(v[i]);
        proof {
            assert(v@.subrange(0, i + 1) =~= v@.subrange(0, i as int).push(v@[i as int]));
        }
        i = i + 1;
    }
    proof {
        assert(v@.subrange(0, v@.len() as int) =~= v@);
    }
    out
}

/// The first `k` slots of a draw from the box that starts at state `s`:
/// slot `j` takes the `j + 1`-th draw, reduced into its range.
pub open spec fn sample_prefix(s: u64, lower: Seq<i64>, upper: Seq<i64>, k: int) -> Seq<i64>
    decreases k,
{
    if k <= 0 {
        Seq::empty()
    } else {
        sample_prefix(s, lower, upper, k - 1).push(
            (lower[k - 1] + (mix64(advance_by(s, k as nat)) as int) % (upper[k - 1] - lower[k - 1] + 1)) as i64,
        )
    }
}

/// A uniform draw from the box.
pub fn sample_in_box(rng: &mut SplitMix64, lower: &Vec<i64>, upper: &Vec<i64>) -> (r: Vec<i64>)
    requires
        lower@.len() == upper@.len(),
        forall|k: int| 0 <= k < lower@.len() ==> #[trigger] lower@[k] <= upper@[k],
        forall|k: int| 0 <= k < lower@.len() ==> -VALUE_LIMIT <= #[trigger] lower@[k] && upper@[k] <= VALUE_LIMIT,
    ensures
        within(lower@, upper@, r@),
        r@ == sample_prefix(old(rng).state, lower@, upper@, lower@.len() as int),
        final(rng).state == advance_by(old(rng).state, lower@.len()),
{
    let ghost s0 = rng.state;
    let mut out: Vec<i64> = Vec::new();
    let mut k: usize = 0;
    while k < lower.len()
        invariant
            lower@.len() == upper@.len(),
            forall|j: int| 0 <= j < lower@.len() ==> #[trigger] lower@[j] <= upper@[j],
            forall|j: int| 0 <= j < lower@.len() ==> -VALUE_LIMIT <= #[trigger] lower@[j] && upper@[j] <= VALUE_LIMIT,
            k <= lower@.len(),
            out@.len() == k,
            forall|j: int| 0 <= j < k ==> lower@[j] <= #[trigger] out@[j] <= upper@[j],
            out@ == sample_prefix(s0, lower@, upper@, k as int),
            rng.state == advance_by(s0, k as nat),
        decreases lower@.len() - k,
    {
        proof {
            assert(lower@[k as int] <= upper@[k as int]);
            assert(-VALUE_LIMIT <= lower@[k as int] && upper@[k as int] <= VALUE_LIMIT);
        }
        let v = rng.between(lower[k], upper[k]);
        out.push(v);
        k = k + 1;
        proof {
            assert(out@ =~= sample_prefix(s0, lower@, upper@, k as int));
        }
    }
    out
}

/// Index of the individual at offset `u` after `i`, wrapping around.
pub open spec fn offset_index(np: int, i: int, u: int) -> int {
    if i + 1 + u < np {
        i + 1 + u
    } else {
        i + 1 + u - np
    }
}

/// Offsets of the three donors drawn from state `s`: three draws, from
/// `0..np - 1`, `0..np - 2` and `0..np - 3`, each pushed past the offsets
/// drawn before it so that all three differ.
pub open spec fn donor_offsets(s: u64, np: int) -> (int, int, int) {
    let u1 = draw_below(s, np - 1);
    let r2 = draw_below(advance(s), np - 2);
    let u2 = if r2 >= u1 { r2 + 1 } else { r2 };
    let r3 = draw_below(advance(advance(s)), np - 3);
    let lo = if u1 < u2 { u1 } else { u2 };
    let hi = if u1 < u2 { u2 } else { u1 };
    let t = if r3 >= lo { r3 + 1 } else { r3 };
    let u3 = if t >= hi { t + 1 } else { t };
    (u1, u2, u3)
}

/// The donors of member `i`: the individuals at those offsets after `i`.
pub open spec fn donors(s: u64, np: int, i: int) -> (int, int, int) {
    let (u1, u2, u3) = donor_offsets(s, np);
    (offset_index(np, i, u1), offset_index(np, i, u2), offset_index(np, i, u3))
}

/// Three distinct individuals other than `i`.
pub fn pick_donors(rng: &mut SplitMix64, np: usize, i: usize) -> (r: (usize, usize, usize))
    requires
        4 <= np <= MAX_POPULATION,
        i < np,
    ensures
        r.0 < np && r.1 < np && r.2 < np,
        r.0 != i && r.1 != i && r.2 != i,
        r.0 != r.1 && r.0 != r.2 && r.1 != r.2,
        (r.0 as int, r.1 as int, r.2 as int) == donors(old(rng).state, np as int, i as int),
        final(rng).state == advance(advance(advance(old(rng).state))),
{
    let u1 = rng.below((np - 1) as u64) as usize;
    let mut u2 = rng.below((np - 2) as u64) as usize;
    if u2 >= u1 {
        u2 = u2 + 1;
    }
    let mut u3 = rng.below((np - 3) as u64) as usize;
    let lo = if u1 < u2 { u1 } else { u2 };
    let hi = if u1 < u2 { u2 } else { u1 };
    if u3 >= lo {
        u3 = u3 + 1;
    }
    if u3 >= hi {
        u3 = u3 + 1;
    }
    let a = if i + 1 + u1 < np { i + 1 + u1 } else { i + 1 + u1 - np };
    let b = if i + 1 + u2 < np { i + 1 + u2 } else { i + 1 + u2 - np };
    let c = if i + 1 + u3 < np { i + 1 + u3 } else { i + 1 + u3 - np };
    (a, b, c)
}

/// Component `k` of the mutant for individual `x`.
pub open spec fn mutant_component(strategy: Strategy, f: int, x: int, best: int, a: int, b: int, c: int) -> int {
    match strategy {
        Strategy::Rand1Bin => a + f * (b - c) / 1000,
        Strategy::Best1Bin => best + f * (a - b) / 1000,
        Strategy::CurrentToBest1Bin => x + f * (best - x) / 1000 + f * (a - b) / 1000,
    }
}

/// Clamps `v` into `[lo, hi]`.
pub open spec fn clip(v: int, lo: int, hi: int) -> int {
    if v < lo {
        lo
    } else if v > hi {
        hi
    } else {
        v
    }
}

fn mutant_at(strategy: Strategy, f: i64, x: i64, best: i64, a: i64, b: i64, c: i64) -> (r: i128)
    requires
        0 <= f <= MAX_MUTATION,
        -VALUE_LIMIT <= x <= VALUE_LIMIT,
        -VALUE_LIMIT <= best <= VALUE_LIMIT,
        -VALUE_LIMIT <= a <= VALUE_LIMIT,
        -VALUE_LIMIT <= b <= VALUE_LIMIT,
        -VALUE_LIMIT <= c <= VALUE_LIMIT,
    ensures
        r == mutant_component(strategy, f as int, x as int, best as int, a as int, b as int, c as int),
{
    let ff = f as i128;
    match strategy {
        Strategy::Rand1Bin => {
            proof {
                assert(-400_000_000 <= ff * (b - c) <= 400_000_000) by (nonlinear_arith)
                    requires 0 <= ff <= 2000, -200_000 <= b - c <= 200_000;
            }
            a as i128 + floor_div(ff * (b as i128 - c as i128), 1000)
        },
        Strategy::Best1Bin => {
            proof {
                assert(-400_000_000 <= ff * (a - b) <= 400_000_000) by (nonlinear_arith)
                    requires 0 <= ff <= 2000, -200_000 <= a - b <= 200_000;
            }
            best as i128 + floor_div(ff * (a as i128 - b as i128), 1000)
        },
        Strategy::CurrentToBest1Bin => {
            proof {
                assert(-400_000_000 <= ff * (a - b) <= 400_000_000) by (nonlinear_arith)
                    requires 0 <= ff <= 2000, -200_000 <= a - b <= 200_000;
                assert(-400_000_000 <= ff * (best - x) <= 400_000_000) by (nonlinear_arith)
                    requires 0 <= ff <= 2000, -200_000 <= best - x <= 200_000;
            }
            let t = floor_div(ff * (best as i128 - x as i128), 1000);
            let d = floor_div(ff * (a as i128 - b as i128), 1000);
            proof {
                crate::arith::lemma_mean_bounds(ff * (best - x), 1000, -400_000, 400_000);
                crate::arith::lemma_mean_bounds(ff * (a - b), 1000, -400_000, 400_000);
            }
            x as i128 + t + d
        },
    }
}

/// The population as sequences.
pub open spec fn pop_view(pop: Seq<Vec<i64>>) -> Seq<Seq<i64>> {
    pop.map_values(|v: Vec<i64>| v@)
}

/// Slot `k` of the trial for member `idx.0` (with best `idx.1` and donors
/// `idx.2`, `idx.3`, `idx.4`): the mutant's value when `take`, else the
/// member's, clipped into the box.
pub open spec fn trial_slot(
    pop: Seq<Seq<i64>>,
    lower: Seq<i64>,
    upper: Seq<i64>,
    idx: (int, int, int, int, int),
    strategy: Strategy,
    f: int,
    take: bool,
    k: int,
) -> i64 {
    let x = pop[idx.0][k] as int;
    let v = if take {
        mutant_component(
            strategy,
            f,
            x,
            pop[idx.1][k] as int,
            pop[idx.2][k] as int,
            pop[idx.3][k] as int,
            pop[idx.4][k] as int,
        )
    } else {
        x
    };
    clip(v, lower[k] as int, upper[k] as int) as i64
}

/// The first `k` slots of a trial. `s` is the state after slot `jrand` was
/// drawn; slot `j` takes the mutant's value when `j == jrand` or when the
/// `j + 1`-th draw from `s`, reduced to `0..1000`, is below `cr`.
pub open spec fn trial_prefix(
    s: u64,
    pop: Seq<Seq<i64>>,
    lower: Seq<i64>,
    upper: Seq<i64>,
    idx: (int, int, int, int, int),
    strategy: Strategy,
    f: int,
    cr: int,
    jrand: int,
    k: int,
) -> Seq<i64>
    decreases k,
{
    if k <= 0 {
        Seq::empty()
    } else {
        let take = k - 1 == jrand || (mix64(advance_by(s, k as nat)) as int) % 1000 < cr;
        trial_prefix(s, pop, lower, upper, idx, strategy, f, cr, jrand, k - 1).push(
            trial_slot(pop, lower, upper, idx, strategy, f, take, k - 1),
        )
    }
}

/// A trial vector for member `i`: binomial crossover of the member with its
/// mutant (slot `jrand` always from the mutant), clipped into the box.
fn make_trial(
    rng: &mut SplitMix64,
    pop: &Vec<Vec<i64>>,
    lower: &Vec<i64>,
    upper: &Vec<i64>,
    n: Ghost<int>,
    idx: (usize, usize, usize, usize, usize),
    strategy: Strategy,
    f: i64,
    cr: u64,
) -> (r: Vec<i64>)
    requires
        bounds_ok(lower@, upper@, n@),
        n@ >= 1,
        forall|j: int| 0 <= j < pop@.len() ==> within(lower@, upper@, #[trigger] pop@[j]@),
        idx.0 < pop@.len() && idx.1 < pop@.len() && idx.2 < pop@.len() && idx.3 < pop@.len() && idx.4 < pop@.len(),
        0 <= f <= MAX_MUTATION,
    ensures
        within(lower@, upper@, r@),
        r@ == trial_prefix(
            advance(old(rng).state),
            pop_view(pop@),
            lower@,
            upper@,
            (idx.0 as int, idx.1 as int, idx.2 as int, idx.3 as int, idx.4 as int),
            strategy,
            f as int,
            cr as int,
            draw_below(old(rng).state, lower@.len() as int),
            lower@.len() as int,
        ),
        final(rng).state == advance_by(advance(old(rng).state), lower@.len()),
{
    let ghost s0 = rng.state;
    let ghost pv = pop_view(pop@);
    let ghost gidx = (idx.0 as int, idx.1 as int, idx.2 as int, idx.3 as int, idx.4 as int);
    let (i, best, a, b, c) = idx;
    let dim = lower.len();
    proof {
        lemma_within_ok(lower@, upper@, pop@[i as int]@, n@);
        lemma_within_ok(lower@, upper@, pop@[best as int]@, n@);
        lemma_within_ok(lower@, upper@, pop@[a as int]@, n@);
        lemma_within_ok(lower@, upper@, pop@[b as int]@, n@);
        lemma_within_ok(lower@, upper@, pop@[c as int]@, n@);
    }
    let jrand = rng.below(dim as u64) as usize;
    let ghost s1 = rng.state;
    let mut out: Vec<i64> = Vec::new();
    let mut k: usize = 0;
    while k < dim
        invariant
            bounds_ok(lower@, upper@, n@),
            dim == lower@.len(),
            forall|j: int| 0 <= j < pop@.len() ==> within(lower@, upper@, #[trigger] pop@[j]@),
            i < pop@.len() && best < pop@.len() && a < pop@.len() && b < pop@.len() && c < pop@.len(),
            forall|j: int| 0 <= j < dim ==> -VALUE_LIMIT <= #[trigger] pop@[i as int]@[j] <= VALUE_LIMIT,
            forall|j: int| 0 <= j < dim ==> -VALUE_LIMIT <= #[trigger] pop@[best as int]@[j] <= VALUE_LIMIT,
            forall|j: int| 0 <= j < dim ==> -VALUE_LIMIT <= #[trigger] pop@[a as int]@[j] <= VALUE_LIMIT,
            forall|j: int| 0 <= j < dim ==> -VALUE_LIMIT <= #[trigger] pop@[b as int]@[j] <= VALUE_LIMIT,
            forall|j: int| 0 <= j < dim ==> -VALUE_LIMIT <= #[trigger] pop@[c as int]@[j] <= VALUE_LIMIT,
            0 <= f <= MAX_MUTATION,
            k <= dim,
            out@.len() == k,
            forall|j: int| 0 <= j < k ==> lower@[j] <= #[trigger] out@[j] <= upper@[j],
            s1 == advance(s0),
            jrand as int == draw_below(s0, dim as int),
            pv == pop_view(pop@),
            gidx == (i as int, best as int, a as int, b as int, c as int),
            rng.state == advance_by(s1, k as nat),
            out@ == trial_prefix(s1, pv, lower@, upper@, gidx, strategy, f as int, cr as int, jrand as int, k as int),
        decreases dim - k,
    {
        let draw = rng.below(1000);
        let take = k == jrand || draw < cr;
        let xi = pop[i][k];
        let v: i128 = if take {
            mutant_at(strategy, f, xi, pop[best][k], pop[a][k], pop[b][k], pop[c][k])
        } else {
            xi as i128
        };
        proof {
            assert(lower@[k as int] <= upper@[k as int]);
        }
        let lo = lower[k];
        let hi = upper[k];
        let clipped: i64 = if v < lo as i128 {
            lo
        } else if v > hi as i128 {
            hi
        } else {
            v as i64
        };
        out.push(clipped);
        k = k + 1;
        proof {
            assert(pv[i as int] == pop@[i as int]@);
            assert(pv[best as int] == pop@[best as int]@);
            assert(pv[a as int] == pop@[a as int]@);
            assert(pv[b as int] == pop@[b as int]@);
            assert(pv[c as int] == pop@[c as int]@);
            assert(out@ =~= trial_prefix(s1, pv, lower@, upper@, gidx, strategy, f as int, cr as int, jrand as int, k as int));
        }
    }
    out
}

/// A population, each member's loss, the index of the best member, the
/// generator and the number of evaluations so far.
#[derive(Clone, Debug)]
pub struct DeState {
    pub pop: Vec<Vec<i64>>,
    pub fitness: Vec<u64>,
    pub best: usize,
    pub rng: SplitMix64,
    pub evaluations: usize,
}

/// The mathematical content of a search state.
pub struct DeModel {
    pub pop: Seq<Seq<i64>>,
    pub fitness: Seq<u64>,
    pub best: int,
    pub rng: u64,
    pub evaluations: int,
}

impl View for DeState {
    type V = DeModel;

    open spec fn view(&self) -> DeModel {
        DeModel {
            pop: pop_view(self.pop@),
            fitness: self.fitness@,
            best: self.best as int,
            rng: self.rng.state,
            evaluations: self.evaluations as int,
        }
    }
}

/// The mutation factor of one member, and the state after drawing it: with
/// `adaptive`, a draw from `[mutation / 2, mutation]`; else `mutation`, with
/// no draw.
pub open spec fn factor_draw(s: u64, mutation: int, adaptive: bool) -> (u64, int) {
    if adaptive {
        (advance(s), mutation / 2 + (mix64(advance(s)) as int) % (mutation - mutation / 2 + 1))
    } else {
        (s, mutation)
    }
}

/// Member `i` meets its trial: the factor, then the donors, then the trial
/// are drawn; the trial replaces the member when its loss is strictly
/// lower, and becomes the best when it is strictly below the best.
pub open spec fn member_step(
    m: DeModel,
    obj: ObjectiveModel,
    lower: Seq<i64>,
    upper: Seq<i64>,
    np: int,
    strategy: Strategy,
    mutation: int,
    cr: int,
    adaptive: bool,
    i: int,
) -> DeModel {
    let (s1, f) = factor_draw(m.rng, mutation, adaptive);
    let d = donors(s1, np, i);
    let s2 = advance(advance(advance(s1)));
    let dim = lower.len() as int;
    let trial = trial_prefix(
        advance(s2),
        m.pop,
        lower,
        upper,
        (i, m.best, d.0, d.1, d.2),
        strategy,
        f,
        cr,
        draw_below(s2, dim),
        dim,
    );
    let ft = obj.loss_of(trial);
    let better = ft < m.fitness[i];
    DeModel {
        pop: if better { m.pop.update(i, trial) } else { m.pop },
        fitness: if better { m.fitness.update(i, ft as u64) } else { m.fitness },
        best: if better && ft < m.fitness[m.best] { i } else { m.best },
        rng: advance_by(advance(s2), dim as nat),
        evaluations: m.evaluations + 1,
    }
}

/// The state after the first `k` members of a generation have met their
/// trials.
pub open spec fn generation_prefix(
    m: DeModel,
    obj: ObjectiveModel,
    lower: Seq<i64>,
    upper: Seq<i64>,
    np: int,
    strategy: Strategy,
    mutation: int,
    cr: int,
    adaptive: bool,
    k: int,
) -> DeModel
    decreases k,
{
    if k <= 0 {
        m
    } else {
        member_step(
            generation_prefix(m, obj, lower, upper, np, strategy, mutation, cr, adaptive, k - 1),
            obj,
            lower,
            upper,
            np,
            strategy,
            mutation,
            cr,
            adaptive,
            k - 1,
        )
    }
}

/// The state after `g` whole generations from `m`.
pub open spec fn generations_after(
    m: DeModel,
    obj: ObjectiveModel,
    lower: Seq<i64>,
    upper: Seq<i64>,
    np: int,
    strategy: Strategy,
    mutation: int,
    cr: int,
    adaptive: bool,
    g: int,
) -> DeModel
    decreases g,
{
    if g <= 0 {
        m
    } else {
        generation_prefix(
            generations_after(m, obj, lower, upper, np, strategy, mutation, cr, adaptive, g - 1),
            obj,
            lower,
            upper,
            np,
            strategy,
            mutation,
            cr,
            adaptive,
            np,
        )
    }
}

/// The state after the first `k` members of the initial population have
/// been drawn, one box draw each, and evaluated; `best` is the first member
/// of lowest loss.
pub open spec fn init_prefix(seed: u64, obj: ObjectiveModel, lower: Seq<i64>, upper: Seq<i64>, k: int) -> DeModel
    decreases k,
{
    if k <= 0 {
        DeModel { pop: Seq::empty(), fitness: Seq::empty(), best: 0, rng: seed, evaluations: 0 }
    } else {
        let m = init_prefix(seed, obj, lower, upper, k - 1);
        let x = sample_prefix(m.rng, lower, upper, lower.len() as int);
        let fx = obj.loss_of(x);
        DeModel {
            pop: m.pop.push(x),
            fitness: m.fitness.push(fx as u64),
            best: if k - 1 == 0 || fx < m.fitness[m.best] { k - 1 } else { m.best },
            rng: advance_by(m.rng, lower.len()),
            evaluations: k,
        }
    }
}

impl DeState {
    /// Every member lies in the box and carries its own loss, and `best`
    /// has the lowest loss.
    pub open spec fn wf(&self, obj: Objective, lower: Seq<i64>, upper: Seq<i64>, np: int) -> bool {
        &&& self.pop@.len() == np
        &&& self.fitness@.len() == np
        &&& 0 <= self.best < np
        &&& forall|i: int| 0 <= i < np ==> within(lower, upper, #[trigger] self.pop@[i]@)
        &&& forall|i: int| 0 <= i < np ==> #[trigger] self.fitness@[i] == obj.loss_of(self.pop@[i]@)
        &&& forall|i: int| 0 <= i < np ==> self.fitness@[self.best as int] <= #[trigger] self.fitness@[i]
    }

    /// Loss of the best member.
    pub open spec fn best_fitness(&self) -> u64 {
        self.fitness@[self.best as int]
    }

    /// A population of `np` uniform draws from the box, each evaluated once.
    pub fn init(obj: &Objective, bounds: &SearchBounds, np: usize, seed: u64) -> (r: DeState)
        requires
            obj.wf(),
            bounds_ok(bounds.lower@, bounds.upper@, obj.num_filters as int),
            4 <= np <= MAX_POPULATION,
        ensures
            r.wf(*obj, bounds.lower@, bounds.upper@, np as int),
            r.evaluations == np,
            r@ == init_prefix(seed, obj@, bounds.lower@, bounds.upper@, np as int),
    {
        let mut rng = SplitMix64::new(seed);
        let mut pop: Vec<Vec<i64>> = Vec::new();
        let mut fitness: Vec<u64> = Vec::new();
        let mut best: usize = 0;
        let ghost n = obj.num_filters as int;
        proof {
            assert forall|k: int| 0 <= k < bounds.lower@.len() implies -VALUE_LIMIT <= #[trigger] bounds.lower@[k] && bounds.upper@[k] <= VALUE_LIMIT by {
                assert(bounds.lower@[k] <= bounds.upper@[k]);
            }
        }
        let mut i: usize = 0;
        proof {
            assert(pop_view(pop@) =~= Seq::<Seq<i64>>::empty());
        }
        while i < np
            invariant
                obj.wf(),
                n == obj.num_filters,
                bounds_ok(bounds.lower@, bounds.upper@, n),
                forall|k: int| 0 <= k < bounds.lower@.len() ==> -VALUE_LIMIT <= #[trigger] bounds.lower@[k] && bounds.upper@[k] <= VALUE_LIMIT,
                i <= np,
                pop@.len() == i,
                fitness@.len() == i,
                i > 0 ==> best < i,
                forall|j: int| 0 <= j < i ==> within(bounds.lower@, bounds.upper@, #[trigger] pop@[j]@),
                forall|j: int| 0 <= j < i ==> #[trigger] fitness@[j] == obj.loss_of(pop@[j]@),
                forall|j: int| 0 <= j < i ==> fitness@[best as int] <= #[trigger] fitness@[j],
                (DeModel {
                    pop: pop_view(pop@),
                    fitness: fitness@,
                    best: best as int,
                    rng: rng.state,
                    evaluations: i as int,
                }) == init_prefix(seed, obj@, bounds.lower@, bounds.upper@, i as int),
            decreases np - i,
        {
            proof {
                assert forall|k: int| 0 <= k < bounds.lower@.len() implies #[trigger] bounds.lower@[k] <= bounds.upper@[k] by {
                }
            }
            let ghost prev_pop = pop@;
            let x = sample_in_box(&mut rng, &bounds.lower, &bounds.upper);
            let fx = evaluate(obj, &bounds.lower, &bounds.upper, &x);
            if i == 0 || fx < fitness[best] {
                best = i;
            }
            pop.push(x);
            fitness.push(fx);
            i = i + 1;
            proof {
                assert(pop_view(pop@) =~= pop_view(prev_pop).push(x@));
            }
        }
        DeState { pop, fitness, best, rng, evaluations: np }
    }
}

impl DeState {
    /// One generation: each member in turn meets a trial vector and is
    /// replaced when the trial's loss is strictly lower (on a tie the member
    /// stays). With `adaptive`, each member draws its own mutation factor
    /// from `[mutation / 2, mutation]`.
    #[verifier::rlimit(60)]
    pub fn generation(
        &mut self,
        obj: &Objective,
        bounds: &SearchBounds,
        np: usize,
        strategy: Strategy,
        mutation: u64,
        recombination: u64,
        adaptive: bool,
    )
        requires
            obj.wf(),
            bounds_ok(bounds.lower@, bounds.upper@, obj.num_filters as int),
            4 <= np <= MAX_POPULATION,
            old(self).wf(*obj, bounds.lower@, bounds.upper@, np as int),
            old(self).evaluations + np <= usize::MAX,
            mutation <= MAX_MUTATION,
        ensures
            final(self).wf(*obj, bounds.lower@, bounds.upper@, np as int),
            final(self).evaluations == old(self).evaluations + np,
            final(self).best_fitness() <= old(self).best_fitness(),
            forall|j: int| 0 <= j < np ==> #[trigger] final(self).fitness@[j] <= old(self).fitness@[j],
            final(self)@ == generation_prefix(
                old(self)@,
                obj@,
                bounds.lower@,
                bounds.upper@,
                np as int,
                strategy,
                mutation as int,
                recombination as int,
                adaptive,
                np as int,
            ),
    {
        let ghost n = obj.num_filters as int;
        let ghost old_fit = self.fitness@;
        let ghost old_best_fit = self.best_fitness();
        let mut i: usize = 0;
        while i < np
            invariant
                obj.wf(),
                n == obj.num_filters,
                bounds_ok(bounds.lower@, bounds.upper@, n),
                4 <= np <= MAX_POPULATION,
                mutation <= MAX_MUTATION,
                i <= np,
                self.wf(*obj, bounds.lower@, bounds.upper@, np as int),
                self.evaluations == old(self).evaluations + i,
                old(self).evaluations + np <= usize::MAX,
                old_fit == old(self).fitness@,
                old_best_fit == old(self).best_fitness(),
                self.best_fitness() <= old_best_fit,
                old_fit.len() == np,
                forall|j: int| 0 <= j < np ==> #[trigger] self.fitness@[j] <= old_fit[j],
                self@ == generation_prefix(
                    old(self)@,
                    obj@,
                    bounds.lower@,
                    bounds.upper@,
                    np as int,
                    strategy,
                    mutation as int,
                    recombination as int,
                    adaptive,
                    i as int,
                ),
            decreases np - i,
        {
            let ghost m = self@;
            let f: i64 = if adaptive {
                self.rng.between((mutation / 2) as i64, mutation as i64)
            } else {
                mutation as i64
            };
            let (a, b, c) = pick_donors(&mut self.rng, np, i);
            let trial = make_trial(
                &mut self.rng,
                &self.pop,
                &bounds.lower,
                &bounds.upper,
                Ghost(n),
                (i, self.best, a, b, c),
                strategy,
                f,
                recombination,
            );
            let ft = evaluate(obj, &bounds.lower, &bounds.upper, &trial);
            let best_fit = self.fitness[self.best];
            if ft < self.fitness[i] {
                self.pop[i] = trial;
                self.fitness[i] = ft;
                if ft < best_fit {
                    self.best = i;
                }
            }
            self.evaluations = self.evaluations + 1;
            proof {
                let next = member_step(
                    m,
                    obj@,
                    bounds.lower@,
                    bounds.upper@,
                    np as int,
                    strategy,
                    mutation as int,
                    recombination as int,
                    adaptive,
                    i as int,
                );
                assert(self@.pop =~= next.pop);
                assert(self@.fitness =~= next.fitness);
                assert(self@ == next);
            }
            i = i + 1;
        }
    }

    /// A copy of the best member.
    pub(crate) fn best_params(&self, Ghost(obj): Ghost<Objective>, Ghost(lower): Ghost<Seq<i64>>, Ghost(upper): Ghost<Seq<i64>>, np: Ghost<int>) -> (r: Vec<i64>)
        requires
            self.wf(obj, lower, upper, np@),
        ensures
            r@ == self.pop@[self.best as int]@,
            within(lower, upper, r@),
            obj.loss_of(r@) == self.best_fitness(),
    {
        copy_vec(&self.pop[self.best])
    }
}

/// The step from one best loss to the next counts as stagnant when it
/// gains no more than `atolerance` plus `tolerance` millionths of the
/// earlier loss.
pub open spec fn stagnant(prev: int, next: int, tolerance: int, atolerance: int) -> bool {
    prev - next <= atolerance + prev * tolerance / 1_000_000
}

pub fn is_stagnant(prev: u64, next: u64, tolerance: u64, atolerance: u64) -> (r: bool)
    requires
        next <= prev,
        tolerance <= 1_000_000,
    ensures
        r == stagnant(prev as int, next as int, tolerance as int, atolerance as int),
{
    proof {
        assert((prev as u128) * (tolerance as u128) <= (u64::MAX as int) * 1_000_000) by (nonlinear_arith)
            requires prev <= u64::MAX, tolerance <= 1_000_000;
    }
    let allowance: u128 = atolerance as u128 + (prev as u128) * (tolerance as u128) / 1_000_000;
    ((prev - next) as u128) <= allowance
}

} // verus!
