use symfit::driver::{cap_ok, default_config, prepare, should_stop, Config};
use symfit::expr::{node_count, param_count, Expr};
use symfit::generate::generate;
use symfit::random::Rand;

#[test]
fn zero_budget_forces_a_leaf() {
    let mut rng = Rand::from_seed(1);
    for _ in 0..20 {
        let e = generate(&mut rng, 0);
        assert_eq!(node_count(&e), 1);
    }
}

#[test]
fn generation_terminates_and_respects_budget_bounds() {
    let mut rng = Rand::from_seed(2);
    for budget in 0..=30u32 {
        let e = generate(&mut rng, budget);
        assert!(node_count(&e) <= 2 * budget as u64 + 1);
        assert!(param_count(&e) <= budget as usize + 1);
    }
}

#[test]
fn generated_parameter_names_are_single_letters() {
    let mut rng = Rand::from_seed(3);
    fn check(e: &Expr) {
        match e {
            Expr::Par { name } => {
                assert!(name.is_ascii_lowercase() && *name != b'x');
            }
            Expr::Unary { arg, .. } => check(arg),
            Expr::Binary { lhs, rhs, .. } => {
                check(lhs);
                check(rhs);
            }
            _ => {}
        }
    }
    for _ in 0..20 {
        let e = generate(&mut rng, 25);
        check(&e);
    }
}

#[test]
fn prepare_enforces_the_parameter_cap() {
    let mut rng = Rand::from_seed(4);
    let cfg = default_config();
    for _ in 0..100 {
        let budget = 10 + (rngu(&mut rng) % 21);
        let e = generate(&mut rng, budget);
        match prepare(e, &cfg, &mut rng) {
            Some(cand) => {
                assert!(cand.params.len() <= cfg.max_params);
                assert!(cap_ok(&cfg, cand.params.len()));
                for p in cand.params.iter() {
                    assert!(cfg.param_raw_min <= p.value_raw && p.value_raw <= cfg.param_raw_max);
                }
                // The parameter names are exactly those of the tree.
                let mut names = Vec::new();
                collect(&cand.expr, &mut names);
                let mut from_params: Vec<u8> = cand.params.iter().map(|p| p.name).collect();
                names.sort();
                from_params.sort();
                assert_eq!(names, from_params);
            }
            None => {
                // `None` stands only for a candidate over the cap.
            }
        }
    }
}

fn rngu(rng: &mut Rand) -> u32 {
    rng.next_u32(0, 1_000_000)
}

fn collect(e: &Expr, out: &mut Vec<u8>) {
    match e {
        Expr::Par { name } => {
            if !out.contains(name) {
                out.push(*name);
            }
        }
        Expr::Unary { arg, .. } => collect(arg, out),
        Expr::Binary { lhs, rhs, .. } => {
            collect(lhs, out);
            collect(rhs, out);
        }
        _ => {}
    }
}

#[test]
fn prepare_rejects_only_over_the_cap() {
    // A tree with more than `max_params` surviving parameters is rejected.
    let mut rng = Rand::from_seed(5);
    let mut cfg = default_config();
    cfg.max_params = 0;
    let e = Expr::Par { name: b'a' };
    assert!(prepare(e, &cfg, &mut rng).is_none());
    let e = Expr::X;
    assert!(prepare(e, &cfg, &mut rng).is_some());
}

#[test]
fn stop_conditions_are_explicit_configuration() {
    let mut cfg: Config = default_config();
    assert!(!should_stop(&cfg, u64::MAX, u64::MAX, u64::MAX));
    cfg.max_generated = Some(100);
    assert!(!should_stop(&cfg, 99, 0, 0));
    assert!(should_stop(&cfg, 100, 0, 0));
    cfg.max_generated = None;
    cfg.max_fitted = Some(10);
    assert!(!should_stop(&cfg, 1000, 9, 0));
    assert!(should_stop(&cfg, 0, 10, 0));
    cfg.max_fitted = None;
    cfg.max_duration_secs = Some(300);
    assert!(!should_stop(&cfg, 0, 0, 299));
    assert!(should_stop(&cfg, 0, 0, 300));
}

#[test]
fn default_configuration_matches_the_documented_run() {
    let cfg = default_config();
    assert_eq!(cfg.max_params, 7);
    assert_eq!(cfg.param_raw_min, -5_000_000);
    assert_eq!(cfg.param_raw_max, 5_000_000);
    assert_eq!(cfg.min_step_raw, 1_000);
    assert_eq!(cfg.fit_max_iters, 1_000);
    assert_eq!(cfg.complexity_min, 10);
    assert_eq!(cfg.complexity_max, 30);
}
