//! Printing and parsing round-trip on generator output, structurally and
//! under floating-point evaluation.

use symfit::expr::{deep_copy, Expr, UnOp, BinOp};
use symfit::generate::generate;
use symfit::parser::parse;
use symfit::printer::to_bytes;
use symfit::random::Rand;

fn eval(e: &Expr, x: f64, ps: &[(u8, f64)]) -> f64 {
    match e {
        Expr::Const { raw } => *raw as f64 / 1e6,
        Expr::X => x,
        Expr::Par { name } => ps
            .iter()
            .find(|p| p.0 == *name)
            .map(|p| p.1)
            .unwrap_or(f64::NAN),
        Expr::Unary { op, arg } => {
            let v = eval(arg, x, ps);
            match op {
                UnOp::Neg => -v,
                UnOp::Sin => v.sin(),
                UnOp::Cos => v.cos(),
                UnOp::Exp => v.exp(),
            }
        }
        Expr::Binary { op, lhs, rhs } => {
            let l = eval(lhs, x, ps);
            let r = eval(rhs, x, ps);
            match op {
                BinOp::Add => l + r,
                BinOp::Sub => l - r,
                BinOp::Mul => l * r,
                BinOp::Div => l / r,
                BinOp::Pow => l.powf(r),
            }
        }
    }
}

#[test]
fn generated_expressions_roundtrip_structurally() {
    let mut rng = Rand::from_seed(7);
    for budget in 0..40u32 {
        let e = generate(&mut rng, budget % 31);
        let printed = to_bytes(&e);
        let reparsed = parse(&printed).unwrap();
        assert_eq!(reparsed, e);
    }
}

#[test]
fn generated_expressions_roundtrip_under_evaluation() {
    let mut rng = Rand::from_seed(99);
    let ps: Vec<(u8, f64)> = (b'a'..=b'z')
        .filter(|c| *c != b'x')
        .enumerate()
        .map(|(i, c)| (c, 0.25 + 0.1 * i as f64))
        .collect();
    for budget in 0..30u32 {
        let e = generate(&mut rng, 5 + budget % 20);
        let printed = to_bytes(&e);
        let reparsed = parse(&printed).unwrap();
        for k in 0..8 {
            let x = -2.0 + k as f64 * 0.5;
            let a = eval(&e, x, &ps);
            let b = eval(&reparsed, x, &ps);
            if a.is_nan() {
                assert!(b.is_nan());
            } else if a.is_infinite() {
                assert_eq!(a, b);
            } else {
                assert!((a - b).abs() <= 1e-9 * (1.0 + a.abs()));
            }
        }
    }
}

#[test]
fn handwritten_tree_roundtrips() {
    let e = Expr::Binary {
        op: BinOp::Pow,
        lhs: Box::new(Expr::Unary {
            op: UnOp::Sin,
            arg: Box::new(Expr::Binary {
                op: BinOp::Mul,
                lhs: Box::new(Expr::Par { name: b'a' }),
                rhs: Box::new(Expr::X),
            }),
        }),
        rhs: Box::new(Expr::Const { raw: 2_000_000 }),
    };
    let copy = deep_copy(&e);
    let printed = to_bytes(&e);
    assert_eq!(parse(&printed).unwrap(), copy);
}
