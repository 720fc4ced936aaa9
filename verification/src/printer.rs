//! The printer: a fully parenthesized textual rendering of a tree, proved
//! equal to the specification-level rendering `print_spec`. The plot variant
//! substitutes the current parameter values into the tree first and prints
//! constants at full fixed-point precision.

use vstd::prelude::*;
use crate::expr::{Expr, UnOp, BinOp};
use crate::params::Param;

verus! {

/// Decimal digits of a natural number, most significant first.
pub open spec fn dec_digits(n: nat) -> Seq<u8>
    decreases n,
{
    if n < 10 {
        seq![(48 + n) as u8]
    } else {
        dec_digits(n / 10) + seq![(48 + n % 10) as u8]
    }
}

/// The six digits after the decimal point of a raw fractional part
/// (`0 <= f < 1_000_000`), leading zeros kept.
pub open spec fn frac_digits(f: nat) -> Seq<u8> {
    seq![
        (48 + f / 100000 % 10) as u8,
        (48 + f / 10000 % 10) as u8,
        (48 + f / 1000 % 10) as u8,
        (48 + f / 100 % 10) as u8,
        (48 + f / 10 % 10) as u8,
        (48 + f % 10) as u8,
    ]
}

/// A nonnegative fixed-point magnitude: the integer part, and the six
/// fractional digits when the fractional part is not zero.
pub open spec fn mag_bytes(m: nat) -> Seq<u8> {
    let ip = m / 1000000;
    let fp = m % 1000000;
    if fp == 0 {
        dec_digits(ip)
    } else {
        dec_digits(ip) + seq![46u8] + frac_digits(fp)
    }
}

/// A constant: its magnitude, wrapped as a parenthesized negation when the
/// value is negative.
pub open spec fn const_bytes(raw: i64) -> Seq<u8> {
    if raw < 0 {
        seq![40u8, 45u8] + mag_bytes((-(raw as int)) as nat) + seq![41u8]
    } else {
        mag_bytes(raw as nat)
    }
}

/// The operator symbol.
pub open spec fn op_byte(op: BinOp) -> u8 {
    match op {
        BinOp::Add => 43,
        BinOp::Sub => 45,
        BinOp::Mul => 42,
        BinOp::Div => 47,
        BinOp::Pow => 94,
    }
}

/// The fully parenthesized rendering of a tree.
pub open spec fn print_spec(e: Expr) -> Seq<u8>
    decreases e,
{
    match e {
        Expr::Const { raw } => const_bytes(raw),
        Expr::X => seq![120u8],
        Expr::Par { name } => seq![name],
        Expr::Unary { op, arg } => match op {
            UnOp::Neg => seq![40u8, 45u8] + print_spec(*arg) + seq![41u8],
            UnOp::Sin => seq![115u8, 105u8, 110u8, 40u8] + print_spec(*arg) + seq![41u8],
            UnOp::Cos => seq![99u8, 111u8, 115u8, 40u8] + print_spec(*arg) + seq![41u8],
            UnOp::Exp => seq![101u8, 120u8, 112u8, 40u8] + print_spec(*arg) + seq![41u8],
        },
        Expr::Binary { op, lhs, rhs } => seq![40u8] + print_spec(*lhs) + seq![op_byte(op)]
            + print_spec(*rhs) + seq![41u8],
    }
}

/// Append the decimal digits of `n`.
fn push_dec(n: u64, out: &mut Vec<u8>)
    ensures
        final(out)@ == old(out)@ + dec_digits(n as nat),
    decreases n,
{
    if n < 10 {
        out.push(48 + (n as u8));
    } else {
        push_dec(n / 10, out);
        out.push(48 + ((n % 10) as u8));
        proof {
            assert(final(out)@ == old(out)@ + dec_digits((n / 10) as nat) + seq![
                (48 + (n as nat) % 10) as u8,
            ]);
            assert(old(out)@ + dec_digits((n / 10) as nat) + seq![(48 + (n as nat) % 10) as u8]
                =~= old(out)@ + dec_digits(n as nat));
        }
    }
}

/// Append a nonnegative fixed-point magnitude.
fn push_mag(m: u64, out: &mut Vec<u8>)
    ensures
        final(out)@ == old(out)@ + mag_bytes(m as nat),
{
    let ip = m / 1000000;
    let fp = m % 1000000;
    push_dec(ip, out);
    if fp > 0 {
        out.push(46);
        out.push(48 + ((fp / 100000 % 10) as u8));
        out.push(48 + ((fp / 10000 % 10) as u8));
        out.push(48 + ((fp / 1000 % 10) as u8));
        out.push(48 + ((fp / 100 % 10) as u8));
        out.push(48 + ((fp / 10 % 10) as u8));
        out.push(48 + ((fp % 10) as u8));
        proof {
            assert(final(out)@ =~= old(out)@ + mag_bytes(m as nat));
        }
    } else {
        proof {
            assert(final(out)@ =~= old(out)@ + mag_bytes(m as nat));
        }
    }
}

/// Append one rendered tree.
fn push_expr(e: &Expr, out: &mut Vec<u8>)
    ensures
        final(out)@ == old(out)@ + print_spec(*e),
    decreases *e,
{
    match e {
        Expr::Const { raw } => {
            let r = *raw;
            if r < 0 {
                out.push(40);
                out.push(45);
                let m: u64 = (-(r as i128)) as u64;
                proof {
                    assert(m as nat == (-(r as int)) as nat);
                }
                push_mag(m, out);
                out.push(41);
                proof {
                    assert(final(out)@ =~= old(out)@ + print_spec(*e));
                }
            } else {
                push_mag(r as u64, out);
            }
        }
        Expr::X => {
            out.push(120);
        }
        Expr::Par { name } => {
            out.push(*name);
        }
        Expr::Unary { op, arg } => {
            match op {
                UnOp::Neg => {
                    out.push(40);
                    out.push(45);
                }
                UnOp::Sin => {
                    out.push(115);
                    out.push(105);
                    out.push(110);
                    out.push(40);
                }
                UnOp::Cos => {
                    out.push(99);
                    out.push(111);
                    out.push(115);
                    out.push(40);
                }
                UnOp::Exp => {
                    out.push(101);
                    out.push(120);
                    out.push(112);
                    out.push(40);
                }
            }
            push_expr(&**arg, out);
            out.push(41);
            proof {
                assert(final(out)@ =~= old(out)@ + print_spec(*e));
            }
        }
        Expr::Binary { op, lhs, rhs } => {
            out.push(40);
            push_expr(&**lhs, out);
            let ob = match op {
                BinOp::Add => 43,
                BinOp::Sub => 45,
                BinOp::Mul => 42,
                BinOp::Div => 47,
                BinOp::Pow => 94,
            };
            out.push(ob);
            push_expr(&**rhs, out);
            out.push(41);
            proof {
                assert(final(out)@ =~= old(out)@ + print_spec(*e));
            }
        }
    }
}

/// Render a tree as text (bytes), fully parenthesized: exactly `print_spec`.
pub fn to_bytes(e: &Expr) -> (out: Vec<u8>)
    ensures
        out@ == print_spec(*e),
{
    let mut out: Vec<u8> = Vec::new();
    push_expr(e, &mut out);
    proof {
        assert(out@ =~= print_spec(*e));
    }
    out
}

/// Replace every parameter leaf whose name the sequence holds by a constant
/// with its current value; parameters not in the sequence stay.
pub open spec fn subst_spec(e: Expr, ps: Seq<Param>) -> Expr
    decreases e,
{
    match e {
        Expr::Par { name } => match lookup_spec(ps, name) {
            Some(v) => Expr::Const { raw: v },
            None => e,
        },
        Expr::Unary { op, arg } => Expr::Unary { op, arg: Box::new(subst_spec(*arg, ps)) },
        Expr::Binary { op, lhs, rhs } => Expr::Binary {
            op,
            lhs: Box::new(subst_spec(*lhs, ps)),
            rhs: Box::new(subst_spec(*rhs, ps)),
        },
        _ => e,
    }
}

/// The value of the first parameter of the given name, if any.
pub open spec fn lookup_spec(ps: Seq<Param>, name: u8) -> Option<i64>
    decreases ps.len(),
{
    if ps.len() == 0 {
        None
    } else if ps[0].name == name {
        Some(ps[0].value_raw)
    } else {
        lookup_spec(ps.drop_first(), name)
    }
}

/// Find a parameter's current value by name.
fn lookup(ps: &Vec<Param>, name: u8) -> (r: Option<i64>)
    ensures
        r == lookup_spec(ps@, name),
{
    let mut i: usize = 0;
    proof {
        assert(ps@.skip(0) =~= ps@);
    }
    while i < ps.len()
        invariant
            i <= ps@.len(),
            lookup_spec(ps@, name) == lookup_spec(ps@.skip(i as int), name),
        decreases ps@.len() - i,
    {
        if ps[i].name == name {
            proof {
                assert(ps@.skip(i as int)[0] == ps@[i as int]);
            }
            return Some(ps[i].value_raw);
        }
        proof {
            assert(ps@.skip(i as int)[0] == ps@[i as int]);
            assert(ps@.skip(i as int).drop_first() =~= ps@.skip(i as int + 1));
        }
        i += 1;
    }
    proof {
        assert(ps@.skip(i as int).len() == 0);
    }
    None
}

/// Substitute the current parameter values into the tree.
pub fn substitute(e: &Expr, ps: &Vec<Param>) -> (r: Expr)
    ensures
        r == subst_spec(*e, ps@),
    decreases *e,
{
    match e {
        Expr::Par { name } => {
            match lookup(ps, *name) {
                Some(v) => Expr::Const { raw: v },
                None => Expr::Par { name: *name },
            }
        }
        Expr::Unary { op, arg } => Expr::Unary {
            op: *op,
            arg: Box::new(substitute(&**arg, ps)),
        },
        Expr::Binary { op, lhs, rhs } => Expr::Binary {
            op: *op,
            lhs: Box::new(substitute(&**lhs, ps)),
            rhs: Box::new(substitute(&**rhs, ps)),
        },
        Expr::Const { raw } => Expr::Const { raw: *raw },
        Expr::X => Expr::X,
    }
}

/// Render the tree with the current parameter values substituted, at full
/// fixed-point precision: the plot form.
pub fn to_bytes_for_plot(e: &Expr, ps: &Vec<Param>) -> (out: Vec<u8>)
    ensures
        out@ == print_spec(subst_spec(*e, ps@)),
{
    let substituted = substitute(e, ps);
    to_bytes(&substituted)
}

} // verus!
