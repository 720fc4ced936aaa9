//! Driving the pattern-search fit engine with a floating-point residual, as
//! the search loop does.

use symfit::fit::{fit_verdict, FitEngine, FitError, FitStatus};
use symfit::params::Param;

fn linear(a: f64, b: f64, x: f64) -> f64 {
    a * x + b
}

fn residual_linear(params: &[Param], data: &[(f64, f64)]) -> f64 {
    let a = params.iter().find(|p| p.name == b'a').unwrap().value_raw as f64 / 1e6;
    let b = params.iter().find(|p| p.name == b'b').unwrap().value_raw as f64 / 1e6;
    data.iter()
        .map(|(x, y)| {
            let d = linear(a, b, *x) - y;
            d * d
        })
        .sum()
}

fn drive<F: Fn(&[Param]) -> f64>(mut engine: FitEngine, residual: F) -> (FitEngine, f64) {
    let mut current = residual(engine.params.as_slice());
    let mut guard = 0u64;
    while let Some(probe) = engine.probe() {
        let r = residual(probe.as_slice());
        let improved = r.is_finite() && (!current.is_finite() || r < current);
        if improved {
            current = r;
        }
        engine.report(improved);
        guard += 1;
        assert!(guard < 1_000_000, "the fit engine must terminate");
    }
    (engine, current)
}

#[test]
fn fit_recovers_exact_linear_coefficients() {
    // Fitting a*x + b against points generated exactly by a = 2, b = 0.
    let data = [(0.0, 0.0), (1.0, 2.0), (2.0, 4.0), (3.0, 6.0)];
    let params = vec![
        Param { name: b'a', value_raw: 0 },
        Param { name: b'b', value_raw: 0 },
    ];
    let engine = FitEngine::new(params, -5_000_000, 5_000_000, 1_000_000, 1, 1_000).unwrap();
    let (engine, residue) = drive(engine, |ps| residual_linear(ps, &data));
    assert_eq!(engine.status, FitStatus::Converged);
    assert!(residue < 1e-6, "residue {residue}");
    let a = engine.params.iter().find(|p| p.name == b'a').unwrap().value_raw as f64 / 1e6;
    let b = engine.params.iter().find(|p| p.name == b'b').unwrap().value_raw as f64 / 1e6;
    assert!((a - 2.0).abs() < 1e-3);
    assert!(b.abs() < 1e-3);
}

#[test]
fn fitted_values_stay_within_bounds() {
    // The optimum lies outside the domain; every value still ends inside.
    let data = [(0.0, 100.0), (1.0, 100.0)];
    let params = vec![Param { name: b'b', value_raw: 0 }];
    let engine = FitEngine::new(params, -5_000_000, 5_000_000, 1_000_000, 1_000, 1_000).unwrap();
    let residual = |ps: &[Param]| {
        let b = ps[0].value_raw as f64 / 1e6;
        data.iter().map(|(_, y)| (b - y) * (b - y)).sum::<f64>()
    };
    let (engine, _) = drive(engine, residual);
    for p in engine.params.iter() {
        assert!(-5_000_000 <= p.value_raw && p.value_raw <= 5_000_000);
    }
    // It pushes to the boundary nearest the unreachable optimum.
    assert_eq!(engine.params[0].value_raw, 5_000_000);
}

#[test]
fn empty_parameter_set_is_rejected() {
    let r = FitEngine::new(Vec::new(), -5_000_000, 5_000_000, 1_000_000, 1_000, 1_000);
    match r {
        Ok(_) => panic!("an empty parameter set must be rejected"),
        Err(e) => assert_eq!(e, FitError::NoParameters),
    }
}

#[test]
fn iteration_cap_reports_not_converged() {
    // One iteration can never bring a step of 1.0 below 0.001.
    let params = vec![Param { name: b'a', value_raw: 0 }];
    let engine = FitEngine::new(params, -5_000_000, 5_000_000, 1_000_000, 1_000, 1).unwrap();
    let (engine, _) = drive(engine, |_| f64::INFINITY);
    assert_eq!(engine.status, FitStatus::IterCap);
    let verdict = fit_verdict(engine.status, false, engine.iterations());
    assert_eq!(verdict, Err(FitError::NotConverged));
}

#[test]
fn verdict_maps_outcomes_to_results() {
    assert_eq!(fit_verdict(FitStatus::Converged, true, 17), Ok(17));
    assert_eq!(
        fit_verdict(FitStatus::Converged, false, 17),
        Err(FitError::Diverged)
    );
    assert_eq!(
        fit_verdict(FitStatus::IterCap, true, 17),
        Err(FitError::NotConverged)
    );
}

#[test]
fn non_finite_residuals_are_never_accepted() {
    // A residual that is NaN everywhere: nothing improves, the steps halve
    // to nothing and the parameters never move.
    let params = vec![Param { name: b'c', value_raw: 1_000_000 }];
    let engine = FitEngine::new(params, -5_000_000, 5_000_000, 1_000_000, 1_000, 1_000).unwrap();
    let (engine, _) = drive(engine, |_| f64::NAN);
    assert_eq!(engine.params[0].value_raw, 1_000_000);
    assert_eq!(engine.status, FitStatus::Converged);
}
