use vstd::prelude::*;

verus! {

/// What one iteration of a root-finder produced: the next iterate, the
/// measure of change used for the convergence test, and whether that test
/// passed.
#[derive(Clone, Copy, Debug)]
pub struct Iterate<T> {
    pub next: T,
    pub epsilon: T,
    pub converged: bool,
}

/// How an iterative solve ended.
#[derive(Clone, Copy, Debug)]
pub enum Outcome<T> {
    /// The convergence test passed on iteration `iterations` (counted from 1).
    Converged { value: T, iterations: u32, epsilon: T },
    /// After `iterations` completed iterations the step from `last` was
    /// undefined (a zero denominator).
    Stalled { last: T, iterations: u32 },
    /// Every iteration of the budget ran without passing the test.
    /// `epsilon` is that of the last iteration, `None` for an empty budget.
    BudgetExhausted { best_estimate: T, iterations: u32, epsilon: Option<T> },
}

impl<T: Copy> Outcome<T> {
    /// The number of iterations that the solve completed.
    pub fn iterations(&self) -> (r: u32)
        ensures
            r == match *self {
                Outcome::Converged { iterations, .. } => iterations,
                Outcome::Stalled { iterations, .. } => iterations,
                Outcome::BudgetExhausted { iterations, .. } => iterations,
            },
    {
        match *self {
            Outcome::Converged { iterations, .. } => iterations,
            Outcome::Stalled { iterations, .. } => iterations,
            Outcome::BudgetExhausted { iterations, .. } => iterations,
        }
    }

    /// The best value that the solve reached: the root where it converged,
    /// otherwise the last iterate.
    pub fn estimate(&self) -> (r: T)
        ensures
            r == match *self {
                Outcome::Converged { value, .. } => value,
                Outcome::Stalled { last, .. } => last,
                Outcome::BudgetExhausted { best_estimate, .. } => best_estimate,
            },
    {
        match *self {
            Outcome::Converged { value, .. } => value,
            Outcome::Stalled { last, .. } => last,
            Outcome::BudgetExhausted { best_estimate, .. } => best_estimate,
        }
    }

    /// Whether the convergence test passed.
    pub fn is_converged(&self) -> (r: bool)
        ensures
            r == self is Converged,
    {
        match *self {
            Outcome::Converged { .. } => true,
            _ => false,
        }
    }
}

/// The point from which iteration `k` of `trail` started.
pub open spec fn start_of<T>(x0: T, trail: Seq<Iterate<T>>, k: int) -> T {
    if k == 0 {
        x0
    } else {
        trail[k - 1].next
    }
}

/// The last point reached along `trail`.
pub open spec fn end_of<T>(x0: T, trail: Seq<Iterate<T>>) -> T {
    start_of(x0, trail, trail.len() as int)
}

/// `trail` is a run of `step` from `x0` in which no iteration passed the
/// convergence test.
pub open spec fn is_trail<T, F: Fn(T) -> Option<Iterate<T>>>(
    step: F,
    x0: T,
    trail: Seq<Iterate<T>>,
) -> bool {
    forall|k: int|
        0 <= k < trail.len() ==> !(#[trigger] trail[k]).converged && step.ensures(
            (start_of(x0, trail, k),),
            Some(trail[k]),
        )
}

/// Iterates `step` from `x0` at most `max_steps` times. A step returns
/// `None` where it is undefined. The result records how the run ended and
/// every outcome is backed by a run of `step` that leads to it.
pub fn solve<T: Copy, F: Fn(T) -> Option<Iterate<T>>>(x0: T, max_steps: u32, step: F) -> (r:
    Outcome<T>)
    requires
        forall|x: T| step.requires((x,)),
    ensures
        match r {
            Outcome::Converged { value, iterations, epsilon } => {
                &&& 1 <= iterations <= max_steps
                &&& exists|trail: Seq<Iterate<T>>|
                    #[trigger] is_trail(step, x0, trail) && trail.len() + 1 == iterations
                        && step.ensures(
                        (end_of(x0, trail),),
                        Some(Iterate { next: value, epsilon, converged: true }),
                    )
            },
            Outcome::Stalled { last, iterations } => {
                &&& iterations < max_steps
                &&& exists|trail: Seq<Iterate<T>>|
                    #[trigger] is_trail(step, x0, trail) && trail.len() == iterations && last
                        == end_of(x0, trail)
                &&& step.ensures((last,), None)
            },
            Outcome::BudgetExhausted { best_estimate, iterations, epsilon } => {
                &&& iterations == max_steps
                &&& exists|trail: Seq<Iterate<T>>|
                    #[trigger] is_trail(step, x0, trail) && trail.len() == max_steps
                        && best_estimate == end_of(x0, trail) && epsilon == if max_steps == 0 {
                        None
                    } else {
                        Some(trail.last().epsilon)
                    }
            },
        },
{
    let mut x: T = x0;
    let mut last_epsilon: Option<T> = None;
    let mut count: u32 = 0;
    let ghost mut trail: Seq<Iterate<T>> = Seq::empty();
    while count < max_steps
        invariant
            count <= max_steps,
            forall|x: T| step.requires((x,)),
            trail.len() == count,
            is_trail(step, x0, trail),
            x == end_of(x0, trail),
            last_epsilon == if count == 0 {
                None
            } else {
                Some(trail.last().epsilon)
            },
        decreases max_steps - count,
    {
        match step(x) {
            None => {
                return Outcome::Stalled { last: x, iterations: count };
            },
            Some(it) => {
                if it.converged {
                    return Outcome::Converged {
                        value: it.next,
                        iterations: count + 1,
                        epsilon: it.epsilon,
                    };
                }
                proof {
                    let old_trail = trail;
                    trail = trail.push(it);
                    assert forall|k: int| 0 <= k < trail.len() implies !(#[trigger] trail[k]).converged
                        && step.ensures((start_of(x0, trail, k),), Some(trail[k])) by {
                        if k < old_trail.len() {
                            assert(trail[k] == old_trail[k]);
                            assert(start_of(x0, trail, k) == start_of(x0, old_trail, k));
                        }
                    }
                }
                x = it.next;
                last_epsilon = Some(it.epsilon);
                count = count + 1;
            },
        }
    }
    Outcome::BudgetExhausted { best_estimate: x, iterations: count, epsilon: last_epsilon }
}

} // verus!
