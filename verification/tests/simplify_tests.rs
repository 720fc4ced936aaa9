use symfit::driver::{default_config, prepare};
use symfit::expr::{deep_copy, node_count, param_count, BinOp, Expr, UnOp};
use symfit::random::Rand;
use symfit::rename::canonicalize;
use symfit::fx::FX_ONE;
use symfit::parser::parse;
use symfit::simplify::simplify;

fn text(s: &str) -> Vec<u8> {
    s.as_bytes().to_vec()
}

fn simp_text(s: &str) -> Expr {
    simplify(parse(&text(s)).unwrap())
}

#[test]
fn folds_constant_addition() {
    assert_eq!(simp_text("2+3"), Expr::Const { raw: 5_000_000 });
}

#[test]
fn folds_constant_subtraction_and_multiplication() {
    assert_eq!(simp_text("5-2"), Expr::Const { raw: 3_000_000 });
    assert_eq!(simp_text("2.5*2"), Expr::Const { raw: 5_000_000 });
}

#[test]
fn eliminates_add_zero() {
    assert_eq!(simp_text("x+0"), Expr::X);
    assert_eq!(simp_text("0+x"), Expr::X);
    assert_eq!(simp_text("x-0"), Expr::X);
}

#[test]
fn eliminates_mul_one_and_div_one() {
    assert_eq!(simp_text("x*1"), Expr::X);
    assert_eq!(simp_text("1*x"), Expr::X);
    assert_eq!(simp_text("x/1"), Expr::X);
}

#[test]
fn annihilates_mul_zero() {
    assert_eq!(simp_text("a*0"), Expr::Const { raw: 0 });
    assert_eq!(simp_text("0*sin(x)"), Expr::Const { raw: 0 });
}

#[test]
fn rewrites_powers_of_one_and_zero() {
    assert_eq!(simp_text("x^1"), Expr::X);
    assert_eq!(simp_text("x^0"), Expr::Const { raw: FX_ONE });
}

#[test]
fn cancels_double_negation() {
    assert_eq!(simp_text("--x"), Expr::X);
}

#[test]
fn merges_constant_tails_of_chains() {
    // (x + 2) + 3 collapses its constant tail.
    assert_eq!(
        simp_text("x+2+3"),
        Expr::Binary {
            op: BinOp::Add,
            lhs: Box::new(Expr::X),
            rhs: Box::new(Expr::Const { raw: 5_000_000 }),
        }
    );
}

#[test]
fn simplifies_recursively() {
    // sin(x * 0) has its argument folded away.
    assert_eq!(
        simp_text("sin(x*0)"),
        Expr::Unary { op: UnOp::Sin, arg: Box::new(Expr::Const { raw: 0 }) }
    );
}

#[test]
fn does_not_fold_division_or_power_of_constants() {
    // 1/3 is not representable exactly; the quotient is left for the
    // evaluator.
    assert_eq!(
        simp_text("1/3"),
        Expr::Binary {
            op: BinOp::Div,
            lhs: Box::new(Expr::Const { raw: FX_ONE }),
            rhs: Box::new(Expr::Const { raw: 3_000_000 }),
        }
    );
}

#[test]
fn simplify_is_idempotent_on_samples() {
    let samples = [
        "x+0",
        "2+3*1",
        "--a + 0*x",
        "(a*x+b)^1",
        "sin(x*1)+cos(0*b)",
        "x+2+3+c",
        "a/1 - 0",
    ];
    for s in samples {
        let once = simplify(parse(&text(s)).unwrap());
        let twice = simplify(deep_copy(&once));
        assert_eq!(twice, once);
    }
}

#[test]
fn simplify_never_grows_node_or_param_count() {
    let samples = [
        "x",
        "a+b*c",
        "x+0",
        "0*a + b",
        "sin(exp(x^0))",
        "2+3+4+5",
        "a*1*1*1",
    ];
    for s in samples {
        let e = parse(&text(s)).unwrap();
        let before_nodes = node_count(&e);
        let before_params = param_count(&e);
        let simplified = simplify(e);
        assert!(node_count(&simplified) <= before_nodes);
        assert!(param_count(&simplified) <= before_params);
    }
}

#[test]
fn dropped_subtrees_drop_their_parameters() {
    // a survives only through an annihilated product: it must disappear.
    let e = parse(&text("x + a*0")).unwrap();
    assert_eq!(param_count(&e), 1);
    let simplified = simplify(e);
    assert_eq!(param_count(&simplified), 0);
    assert_eq!(simplified, Expr::X);
}

#[test]
fn canonicalize_renames_to_consecutive_letters() {
    let e = parse(&text("q*x+w")).unwrap();
    let renamed = canonicalize(&e);
    let expected = parse(&text("a*x+b")).unwrap();
    assert_eq!(renamed, expected);
}

#[test]
fn canonicalize_keeps_shape_and_repeated_names() {
    let e = parse(&text("k + sin(k) * m")).unwrap();
    let renamed = canonicalize(&e);
    let expected = parse(&text("a + sin(a) * b")).unwrap();
    assert_eq!(renamed, expected);
    assert_eq!(node_count(&renamed), node_count(&expected));
}

#[test]
fn pipeline_candidates_carry_canonical_names() {
    let mut rng = Rand::from_seed(11);
    let cfg = default_config();
    let e = parse(&text("q*x + w*x + z")).unwrap();
    let cand = prepare(e, &cfg, &mut rng).unwrap();
    let names: Vec<u8> = cand.params.iter().map(|p| p.name).collect();
    assert_eq!(names, vec![b'a', b'b', b'c']);
}
