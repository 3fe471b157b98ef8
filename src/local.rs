//! Local refinement: a compass search around a starting vector, inside the
//! search box, under an evaluation budget.
use vstd::prelude::*;
use crate::de::{SearchBounds, bounds_ok, clip, copy_vec, evaluate, within, VALUE_LIMIT, lemma_within_ok};
use crate::loss::{Objective, ObjectiveModel};
use crate::progress::CancellationState;

verus! {

/// Starting step of each slot: a quarter of its range, and at least one.
pub open spec fn initial_step(lo: int, hi: int) -> int {
    if (hi - lo) / 4 >= 1 { (hi - lo) / 4 } else { 1 }
}

/// State of a compass search: the current vector and its loss, the step of
/// each slot, the slot under trial and the direction tried next, how many
/// slots in a row had a zero step, and the evaluations spent.
pub struct CompassModel {
    pub x: Seq<i64>,
    pub fx: int,
    pub steps: Seq<i64>,
    pub k: int,
    pub up: bool,
    pub idle: int,
    pub evals: int,
}

/// The slot after `k`, wrapping around.
pub open spec fn next_slot(k: int, dim: int) -> int {
    if k + 1 < dim { k + 1 } else { 0 }
}

/// The start of a compass search from `x`.
pub open spec fn compass_start(x: Seq<i64>, fx: int, lower: Seq<i64>, upper: Seq<i64>) -> CompassModel {
    CompassModel {
        x,
        fx,
        steps: Seq::new(lower.len(), |j: int| initial_step(lower[j] as int, upper[j] as int) as i64),
        k: 0,
        up: true,
        idle: 0,
        evals: 0,
    }
}

/// One move: a slot with a zero step is passed over; otherwise the slot is
/// moved one step in the current direction (clipped into the box) and the
/// move is kept when it lowers the loss; after a failed step up the step
/// down is tried, and after a failed step down the slot's step is halved
/// and the next slot comes.
pub open spec fn compass_step(c: CompassModel, obj: ObjectiveModel, lower: Seq<i64>, upper: Seq<i64>) -> CompassModel {
    let dim = lower.len() as int;
    if c.steps[c.k] == 0 {
        CompassModel { x: c.x, fx: c.fx, steps: c.steps, k: next_slot(c.k, dim), up: true, idle: c.idle + 1, evals: c.evals }
    } else {
        let cur = c.x[c.k] as int;
        let moved = if c.up { cur + c.steps[c.k] } else { cur - c.steps[c.k] };
        let cand = c.x.update(c.k, clip(moved, lower[c.k] as int, upper[c.k] as int) as i64);
        let fc = obj.loss_of(cand);
        if fc < c.fx {
            CompassModel { x: cand, fx: fc, steps: c.steps, k: c.k, up: c.up, idle: 0, evals: c.evals + 1 }
        } else if c.up {
            CompassModel { x: c.x, fx: c.fx, steps: c.steps, k: c.k, up: false, idle: 0, evals: c.evals + 1 }
        } else {
            CompassModel {
                x: c.x,
                fx: c.fx,
                steps: c.steps.update(c.k, (c.steps[c.k] / 2) as i64),
                k: next_slot(c.k, dim),
                up: true,
                idle: 0,
                evals: c.evals + 1,
            }
        }
    }
}

/// The state after `t` moves from `c`.
pub open spec fn compass_after(c: CompassModel, obj: ObjectiveModel, lower: Seq<i64>, upper: Seq<i64>, t: int) -> CompassModel
    decreases t,
{
    if t <= 0 {
        c
    } else {
        compass_step(compass_after(c, obj, lower, upper, t - 1), obj, lower, upper)
    }
}

/// Whether a compass search goes on: budget left and some step not zero
/// in the last full round of slots.
pub open spec fn compass_running(c: CompassModel, budget: int, dim: int) -> bool {
    c.evals < budget && c.idle < dim
}

/// What a refinement returns: the vector, its loss, the evaluations spent,
/// the moves made, and whether the cancellation flag cut it short.
pub struct Refined {
    pub params: Vec<i64>,
    pub fitness: u64,
    pub evaluations: usize,
    pub moves: u64,
    pub cancelled: bool,
}

/// Compass search from `start`. Slot by slot it tries one step up, then
/// one step down, keeps a move that lowers the loss, and halves the slot's
/// step when neither does. It stops when every step is zero, when `budget`
/// evaluations are spent, or when `cancel` is raised (polled before each
/// move). The result is never worse than the start.
pub fn refine(
    obj: &Objective,
    bounds: &SearchBounds,
    start: &Vec<i64>,
    start_fitness: u64,
    budget: usize,
    cancel: &CancellationState,
) -> (r: Refined)
    requires
        obj.wf(),
        bounds_ok(bounds.lower@, bounds.upper@, obj.num_filters as int),
        within(bounds.lower@, bounds.upper@, start@),
        start_fitness == obj.loss_of(start@),
        budget <= 100_000_000,
    ensures
        within(bounds.lower@, bounds.upper@, r.params@),
        r.fitness == obj.loss_of(r.params@),
        r.fitness <= start_fitness,
        r.evaluations <= budget,
        ({
            let c = compass_after(
                compass_start(start@, start_fitness as int, bounds.lower@, bounds.upper@),
                obj@,
                bounds.lower@,
                bounds.upper@,
                r.moves as int,
            );
            &&& r.params@ == c.x
            &&& r.fitness == c.fx
            &&& r.evaluations == c.evals
            &&& (!r.cancelled ==> !compass_running(c, budget as int, bounds.lower@.len() as int))
        }),
{
    let ghost n = obj.num_filters as int;
    let ghost lower = bounds.lower@;
    proof {
        assert(3 * obj.num_filters <= 60);
    }
    let ghost upper = bounds.upper@;
    let dim = bounds.lower.len();
    let mut steps: Vec<i64> = Vec::new();
    let mut k: usize = 0;
    while k < dim
        invariant
            bounds_ok(bounds.lower@, bounds.upper@, n),
            dim == bounds.lower@.len(),
            k <= dim,
            steps@.len() == k,
            forall|j: int| 0 <= j < k ==> 0 <= #[trigger] steps@[j] <= 2 * VALUE_LIMIT,
            forall|j: int| 0 <= j < k ==> #[trigger] steps@[j] == initial_step(bounds.lower@[j] as int, bounds.upper@[j] as int),
        decreases dim - k,
    {
        proof {
            assert(bounds.lower@[k as int] <= bounds.upper@[k as int]);
            assert(crate::loss::slot_ok(k as int, bounds.lower@[k as int] as int));
            assert(crate::loss::slot_ok(k as int, bounds.upper@[k as int] as int));
        }
        let q = (bounds.upper[k] - bounds.lower[k]) / 4;
        steps.push(if q >= 1 { q } else { 1 });
        k = k + 1;
    }
    let ghost c0 = compass_start(start@, start_fitness as int, lower, upper);
    proof {
        assert(steps@ =~= c0.steps);
    }
    let mut x = copy_vec(start);
    let mut fx = start_fitness;
    let mut evals: usize = 0;
    let mut k: usize = 0;
    let mut up: bool = true;
    let mut idle: usize = 0;
    let mut moves: u64 = 0;
    let mut cancelled = false;
    while evals < budget && idle < dim
        invariant_except_break
            !cancelled,
        invariant
            obj.wf(),
            n == obj.num_filters,
            bounds_ok(bounds.lower@, bounds.upper@, n),
            lower == bounds.lower@,
            upper == bounds.upper@,
            c0 == compass_start(start@, start_fitness as int, lower, upper),
            dim == bounds.lower@.len(),
            dim == 3 * n,
            steps@.len() == dim,
            forall|j: int| 0 <= j < dim ==> 0 <= #[trigger] steps@[j] <= 2 * VALUE_LIMIT,
            within(bounds.lower@, bounds.upper@, x@),
            fx == obj.loss_of(x@),
            fx <= start_fitness,
            evals <= budget,
            k < dim || dim == 0,
            idle <= dim,
            moves <= evals * (dim + 1) + idle,
            budget <= 100_000_000,
            dim <= 60,
            (CompassModel {
                x: x@,
                fx: fx as int,
                steps: steps@,
                k: k as int,
                up,
                idle: idle as int,
                evals: evals as int,
            }) == compass_after(c0, obj@, lower, upper, moves as int),
        ensures
            !cancelled ==> !(evals < budget && idle < dim),
        decreases budget - evals, dim - idle,
    {
        if cancel.is_cancelled() {
            cancelled = true;
            break;
        }
        proof {
            assert(evals * (dim + 1) + idle + 1 <= 100_000_000 * 61 + 61) by (nonlinear_arith)
                requires evals < budget, budget <= 100_000_000, dim <= 60, idle < dim;
            assert((evals + 1) * (dim + 1) == evals * (dim + 1) + dim + 1) by (nonlinear_arith);
        }
        if steps[k] == 0 {
            idle = idle + 1;
            k = if k + 1 < dim { k + 1 } else { 0 };
            up = true;
        } else {
            idle = 0;
            proof {
                lemma_within_ok(bounds.lower@, bounds.upper@, x@, n);
                assert(-VALUE_LIMIT <= x@[k as int] <= VALUE_LIMIT);
            }
            let cur = x[k];
            let moved: i64 = if up { cur + steps[k] } else { cur - steps[k] };
            let lo = bounds.lower[k];
            let hi = bounds.upper[k];
            let v: i64 = if moved < lo { lo } else if moved > hi { hi } else { moved };
            let mut cand = copy_vec(&x);
            cand.set(k, v);
            proof {
                assert(bounds.lower@[k as int] <= bounds.upper@[k as int]);
                assert forall|j: int| 0 <= j < cand@.len() implies bounds.lower@[j] <= #[trigger] cand@[j] <= bounds.upper@[j] by {
                    if j != k {
                        assert(cand@[j] == x@[j]);
                    }
                }
            }
            let fc = evaluate(obj, &bounds.lower, &bounds.upper, &cand);
            evals = evals + 1;
            if fc < fx {
                x = cand;
                fx = fc;
            } else if up {
                up = false;
            } else {
                let half = steps[k] / 2;
                steps.set(k, half);
                up = true;
                k = if k + 1 < dim { k + 1 } else { 0 };
            }
        }
        moves = moves + 1;
    }
    Refined { params: x, fitness: fx, evaluations: evals, moves, cancelled }
}

} // verus!
