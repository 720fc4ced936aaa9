use symfit::expr::{BinOp, Expr, UnOp};
use symfit::params::Param;
use symfit::printer::{to_bytes, to_bytes_for_plot};

#[test]
fn prints_leaves() {
    assert_eq!(to_bytes(&Expr::X), b"x".to_vec());
    assert_eq!(to_bytes(&Expr::Par { name: b'q' }), b"q".to_vec());
    assert_eq!(to_bytes(&Expr::Const { raw: 2_000_000 }), b"2".to_vec());
    assert_eq!(to_bytes(&Expr::Const { raw: 2_500_000 }), b"2.500000".to_vec());
    assert_eq!(to_bytes(&Expr::Const { raw: 0 }), b"0".to_vec());
}

#[test]
fn prints_negative_constant_as_parenthesized_negation() {
    assert_eq!(to_bytes(&Expr::Const { raw: -3_000_000 }), b"(-3)".to_vec());
}

#[test]
fn prints_fully_parenthesized_operators() {
    let e = Expr::Binary {
        op: BinOp::Add,
        lhs: Box::new(Expr::X),
        rhs: Box::new(Expr::Binary {
            op: BinOp::Mul,
            lhs: Box::new(Expr::Par { name: b'a' }),
            rhs: Box::new(Expr::X),
        }),
    };
    assert_eq!(to_bytes(&e), b"(x+(a*x))".to_vec());
}

#[test]
fn prints_functions_and_negation() {
    let e = Expr::Unary {
        op: UnOp::Sin,
        arg: Box::new(Expr::Unary { op: UnOp::Neg, arg: Box::new(Expr::X) }),
    };
    assert_eq!(to_bytes(&e), b"sin((-x))".to_vec());
    let e = Expr::Unary { op: UnOp::Cos, arg: Box::new(Expr::X) };
    assert_eq!(to_bytes(&e), b"cos(x)".to_vec());
    let e = Expr::Unary { op: UnOp::Exp, arg: Box::new(Expr::X) };
    assert_eq!(to_bytes(&e), b"exp(x)".to_vec());
}

#[test]
fn plot_form_substitutes_parameter_values() {
    // a*x + b with a = 2, b = -0.5 prints with the values in place.
    let e = Expr::Binary {
        op: BinOp::Add,
        lhs: Box::new(Expr::Binary {
            op: BinOp::Mul,
            lhs: Box::new(Expr::Par { name: b'a' }),
            rhs: Box::new(Expr::X),
        }),
        rhs: Box::new(Expr::Par { name: b'b' }),
    };
    let ps = vec![
        Param { name: b'a', value_raw: 2_000_000 },
        Param { name: b'b', value_raw: -500_000 },
    ];
    assert_eq!(to_bytes_for_plot(&e, &ps), b"((2*x)+(-0.500000))".to_vec());
}

#[test]
fn plot_form_keeps_unknown_parameters() {
    let e = Expr::Par { name: b'k' };
    let ps: Vec<Param> = Vec::new();
    assert_eq!(to_bytes_for_plot(&e, &ps), b"k".to_vec());
}
