use symfit::expr::{param_names, BinOp, Expr, UnOp};
use symfit::fx::FX_ONE;
use symfit::parser::{parse, ParseErrorKind};

fn text(s: &str) -> Vec<u8> {
    s.as_bytes().to_vec()
}

#[test]
fn parses_variable() {
    assert_eq!(parse(&text("x")), Ok(Expr::X));
}

#[test]
fn parses_parameter() {
    assert_eq!(parse(&text("a")), Ok(Expr::Par { name: b'a' }));
}

#[test]
fn parses_integer_constant() {
    assert_eq!(parse(&text("2")), Ok(Expr::Const { raw: 2_000_000 }));
}

#[test]
fn parses_fractional_constant() {
    assert_eq!(parse(&text("2.5")), Ok(Expr::Const { raw: 2_500_000 }));
    assert_eq!(parse(&text("0.000001")), Ok(Expr::Const { raw: 1 }));
}

#[test]
fn parses_sum_left_associative() {
    let e = parse(&text("a+b+x")).unwrap();
    assert_eq!(
        e,
        Expr::Binary {
            op: BinOp::Add,
            lhs: Box::new(Expr::Binary {
                op: BinOp::Add,
                lhs: Box::new(Expr::Par { name: b'a' }),
                rhs: Box::new(Expr::Par { name: b'b' }),
            }),
            rhs: Box::new(Expr::X),
        }
    );
}

#[test]
fn multiplication_binds_tighter_than_addition() {
    let e = parse(&text("1+2*3")).unwrap();
    assert_eq!(
        e,
        Expr::Binary {
            op: BinOp::Add,
            lhs: Box::new(Expr::Const { raw: FX_ONE }),
            rhs: Box::new(Expr::Binary {
                op: BinOp::Mul,
                lhs: Box::new(Expr::Const { raw: 2_000_000 }),
                rhs: Box::new(Expr::Const { raw: 3_000_000 }),
            }),
        }
    );
}

#[test]
fn power_is_right_associative() {
    let e = parse(&text("x^a^b")).unwrap();
    assert_eq!(
        e,
        Expr::Binary {
            op: BinOp::Pow,
            lhs: Box::new(Expr::X),
            rhs: Box::new(Expr::Binary {
                op: BinOp::Pow,
                lhs: Box::new(Expr::Par { name: b'a' }),
                rhs: Box::new(Expr::Par { name: b'b' }),
            }),
        }
    );
}

#[test]
fn parses_unary_negation() {
    let e = parse(&text("-x")).unwrap();
    assert_eq!(e, Expr::Unary { op: UnOp::Neg, arg: Box::new(Expr::X) });
}

#[test]
fn parses_named_functions() {
    let e = parse(&text("sin(x)")).unwrap();
    assert_eq!(e, Expr::Unary { op: UnOp::Sin, arg: Box::new(Expr::X) });
    let e = parse(&text("cos(x)")).unwrap();
    assert_eq!(e, Expr::Unary { op: UnOp::Cos, arg: Box::new(Expr::X) });
    let e = parse(&text("exp(x)")).unwrap();
    assert_eq!(e, Expr::Unary { op: UnOp::Exp, arg: Box::new(Expr::X) });
}

#[test]
fn parses_with_whitespace() {
    let spaced = parse(&text("h + a * exp( k * ( x - m ) )")).unwrap();
    let dense = parse(&text("h+a*exp(k*(x-m))")).unwrap();
    assert_eq!(spaced, dense);
}

#[test]
fn rejects_unexpected_char() {
    let err = parse(&text("1+?")).unwrap_err();
    assert_eq!(err.kind, ParseErrorKind::UnexpectedChar);
    assert_eq!(err.pos, 2);
}

#[test]
fn rejects_unexpected_end() {
    let err = parse(&text("(x")).unwrap_err();
    assert_eq!(err.kind, ParseErrorKind::UnexpectedEnd);
    assert_eq!(err.pos, 2);
}

#[test]
fn rejects_trailing_input() {
    let err = parse(&text("x )")).unwrap_err();
    assert_eq!(err.kind, ParseErrorKind::TrailingInput);
    assert_eq!(err.pos, 2);
}

#[test]
fn rejects_constant_too_large() {
    let err = parse(&text("10000000000")).unwrap_err();
    assert_eq!(err.kind, ParseErrorKind::ConstantTooLarge);
    let err = parse(&text("1.0000001")).unwrap_err();
    assert_eq!(err.kind, ParseErrorKind::ConstantTooLarge);
}

#[test]
fn parameter_named_s_is_not_sin() {
    let e = parse(&text("s+x")).unwrap();
    assert_eq!(
        e,
        Expr::Binary {
            op: BinOp::Add,
            lhs: Box::new(Expr::Par { name: b's' }),
            rhs: Box::new(Expr::X),
        }
    );
}

#[test]
fn template_parses_with_its_exact_parameters() {
    let e = parse(&text("h + a*exp(k*(x-m))")).unwrap();
    assert_eq!(param_names(&e), vec![b'h', b'a', b'k', b'm']);
}

#[test]
fn benchmark_template_parses_with_its_exact_parameters() {
    let e = parse(&text("((exp(x) / x)^(w))^(q) * (x * f)")).unwrap();
    assert_eq!(param_names(&e), vec![b'w', b'q', b'f']);
}
