use vstd::prelude::*;

verus! {

/// How an orbit ended: it never crossed the escape test within the iteration
/// bound, or it crossed it at `iter_count` with the value `final_val`.
pub enum EscapeResult<T> {
    Bounded,
    Escaped { iter_count: u32, final_val: T },
}

/// `orbit` is a sequence of values each of which `step` may produce from the one before.
pub open spec fn is_orbit<T, F: Fn(T) -> T>(step: F, orbit: Seq<T>) -> bool {
    forall|k: int| 1 <= k < orbit.len() ==> step.ensures((orbit[k - 1],), #[trigger] orbit[k])
}

/// No value of `orbit` at positions `1 .. n` passes the escape test.
pub open spec fn stays_inside<T, G: Fn(T) -> bool>(escapes: G, orbit: Seq<T>, n: int) -> bool {
    forall|k: int| 1 <= k < n ==> #[trigger] escapes.ensures((orbit[k],), false)
}

/// The number of values, the start included, that a bounded orbit runs through
/// under the iteration bound `bound` (steps `1 .. bound`).
pub open spec fn bounded_len(bound: u32) -> int {
    if bound == 0 {
        1
    } else {
        bound as int
    }
}

/// `r` is the outcome of the escape loop on `orbit`: the orbit starts at
/// `start`, follows `step`, and stops at its first value that passes the escape
/// test, or after the steps `1 .. bound` if none does.
pub open spec fn outcome_of<T, F: Fn(T) -> T, G: Fn(T) -> bool>(
    step: F,
    escapes: G,
    start: T,
    bound: u32,
    orbit: Seq<T>,
    r: EscapeResult<T>,
) -> bool {
    &&& orbit.len() >= 1
    &&& orbit[0] == start
    &&& is_orbit(step, orbit)
    &&& match r {
        EscapeResult::Bounded => {
            &&& orbit.len() == bounded_len(bound)
            &&& stays_inside(escapes, orbit, orbit.len() as int)
        },
        EscapeResult::Escaped { iter_count, final_val } => {
            &&& 1 <= iter_count < bound
            &&& orbit.len() == iter_count + 1
            &&& final_val == orbit[iter_count as int]
            &&& stays_inside(escapes, orbit, iter_count as int)
            &&& escapes.ensures((final_val,), true)
        },
    }
}

/// Runs the escape-time loop: starting from `start`, applies `step` at the
/// iterations `1 .. iteration_bound` and stops at the first value for which
/// `escapes` holds. The iteration bound itself is never reached by an escape.
pub fn calc_escape<T: Copy, F: Fn(T) -> T, G: Fn(T) -> bool>(
    iteration_bound: u32,
    start: T,
    step: F,
    escapes: G,
) -> (r: EscapeResult<T>)
    requires
        forall|z: T| step.requires((z,)),
        forall|z: T| escapes.requires((z,)),
    ensures
        exists|orbit: Seq<T>| outcome_of(step, escapes, start, iteration_bound, orbit, r),
        r matches EscapeResult::Escaped { iter_count, .. } ==> 1 <= iter_count < iteration_bound,
{
    let mut val = start;
    let ghost mut orbit: Seq<T> = seq![start];
    let mut iteration: u32 = 1;
    while iteration < iteration_bound
        invariant
            forall|z: T| step.requires((z,)),
            forall|z: T| escapes.requires((z,)),
            1 <= iteration,
            iteration <= bounded_len(iteration_bound),
            orbit.len() == iteration,
            orbit[0] == start,
            orbit[iteration - 1] == val,
            is_orbit(step, orbit),
            stays_inside(escapes, orbit, iteration as int),
        decreases iteration_bound - iteration,
    {
        val = step(val);
        proof {
            orbit = orbit.push(val);
        }
        if escapes(val) {
            let r = EscapeResult::Escaped { iter_count: iteration, final_val: val };
            assert(outcome_of(step, escapes, start, iteration_bound, orbit, r));
            return r;
        }
        iteration += 1;
    }
    let r = EscapeResult::Bounded;
    assert(outcome_of(step, escapes, start, iteration_bound, orbit, r));
    r
}

} // verus!
