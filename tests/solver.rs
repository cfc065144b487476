use ephemeris::solver::{solve, Iterate, Outcome};

/// One Halley step on Kepler's equation `x - e sin x - m = 0`, with a change
/// measure that is relative away from zero and absolute near it.
fn kepler_step(e: f64, m: f64, tol: f64) -> impl Fn(f64) -> Option<Iterate<f64>> {
    move |x: f64| {
        let f = x - e * x.sin() - m;
        let fp = 1.0 - e * x.cos();
        let fs = e * x.sin();
        let denom = 2.0 * fp * fp - f * fs;
        if denom == 0.0 {
            return None;
        }
        let next = x - 2.0 * f * fp / denom;
        let epsilon = (next - x).abs() / x.abs().max(1.0);
        Some(Iterate { next, epsilon, converged: epsilon < tol })
    }
}

#[test]
fn kepler_equation_is_satisfied() {
    let two_pi = 2.0 * std::f64::consts::PI;
    for ei in 0..10 {
        let e = ei as f64 * 0.1;
        for mi in 0..24 {
            let m = two_pi * mi as f64 / 24.0;
            match solve(m, 100, kepler_step(e, m, 1e-12)) {
                Outcome::Converged { value, iterations, .. } => {
                    assert!(iterations >= 1 && iterations <= 100);
                    assert!((value - e * value.sin() - m).abs() < 1e-9, "e={} m={}", e, m);
                }
                other => panic!("no convergence for e={} m={}: {:?}", e, m, other),
            }
        }
    }
}

#[test]
fn circular_orbit_converges_on_the_mean_anomaly() {
    for m in [0.0, 0.5, 1.0, 3.0, 6.0] {
        match solve(m, 100, kepler_step(0.0, m, 1e-4)) {
            Outcome::Converged { value, iterations, epsilon } => {
                assert_eq!(value, m);
                assert_eq!(iterations, 1);
                assert_eq!(epsilon, 0.0);
            }
            other => panic!("unexpected {:?}", other),
        }
    }
}

#[test]
fn earth_like_orbit_at_periapsis() {
    let r = solve(0.0, 100, kepler_step(0.0167, 0.0, 1e-4));
    assert!(r.is_converged());
    assert_eq!(r.iterations(), 1);
    assert!(r.estimate().abs() < 1e-12);
}

#[test]
fn undefined_step_stalls() {
    let r = solve(3.0, 10, |x: f64| {
        if x < 1.0 {
            None
        } else {
            Some(Iterate { next: x - 1.0, epsilon: 1.0, converged: false })
        }
    });
    match r {
        Outcome::Stalled { last, iterations } => {
            assert_eq!(last, 0.0);
            assert_eq!(iterations, 3);
        }
        other => panic!("unexpected {:?}", other),
    }
    assert_eq!(r.iterations(), 3);
    assert_eq!(r.estimate(), 0.0);
    assert!(!r.is_converged());
}

#[test]
fn budget_runs_out() {
    let r = solve(0u32, 5, |x: u32| Some(Iterate { next: x + 1, epsilon: 7, converged: false }));
    match r {
        Outcome::BudgetExhausted { best_estimate, iterations, epsilon } => {
            assert_eq!(best_estimate, 5);
            assert_eq!(iterations, 5);
            assert_eq!(epsilon, Some(7));
        }
        other => panic!("unexpected {:?}", other),
    }
}

#[test]
fn empty_budget_returns_the_start() {
    let r = solve(2.5f64, 0, |x: f64| Some(Iterate { next: x, epsilon: 0.0, converged: true }));
    match r {
        Outcome::BudgetExhausted { best_estimate, iterations, epsilon } => {
            assert_eq!(best_estimate, 2.5);
            assert_eq!(iterations, 0);
            assert_eq!(epsilon, None);
        }
        other => panic!("unexpected {:?}", other),
    }
}

#[test]
fn convergence_counts_iterations() {
    let r = solve(64u32, 100, |x: u32| {
        let next = x / 2;
        Some(Iterate { next, epsilon: x - next, converged: next == 1 })
    });
    match r {
        Outcome::Converged { value, iterations, epsilon } => {
            assert_eq!(value, 1);
            assert_eq!(iterations, 6);
            assert_eq!(epsilon, 1);
        }
        other => panic!("unexpected {:?}", other),
    }
}
