//! The parser: recursive descent with precedence climbing over a byte text.
//!
//! Grammar: `+ -` then `* /` bind left-associatively, `^` binds
//! right-associatively and tighter; unary negation, parenthesized groups,
//! the reserved variable `x`, single-letter parameter names, the unary
//! functions `sin`, `cos`, `exp`, and decimal constants with up to six
//! fractional digits (the fixed-point precision). Blanks between tokens are
//! skipped. Malformed input is rejected with a `ParseError` carrying the
//! offending position; a parsed tree is always well-formed.
//!
//! The whole parse is specified functionally: `spec_parse` is a
//! specification-level parser over the byte sequence, and the executable
//! `parse` returns `Ok(e)` exactly when `spec_parse` returns `Some(e)`, so
//! the parsed tree is pinned down by the text alone. The specification
//! levels guard every sub-result with the position bounds the executable
//! levels guarantee, which also carries their termination.

use vstd::prelude::*;
use crate::expr::{Expr, UnOp, BinOp, wf_expr};
use crate::fx::CONST_RAW_LIMIT;

verus! {

/// What was wrong with the text.
#[derive(Clone, Copy, Debug, PartialEq, Eq, Structural)]
pub enum ParseErrorKind {
    /// A character no rule allows at this position.
    UnexpectedChar,
    /// The text ended where a token was still required.
    UnexpectedEnd,
    /// A constant beyond the representable fixed-point range or precision.
    ConstantTooLarge,
    /// Text left over after a complete expression.
    TrailingInput,
}

/// A parse failure, with the position of the offending byte (equal to the
/// text length when the text ended early).
#[derive(Clone, Copy, Debug, PartialEq, Eq, Structural)]
pub struct ParseError {
    pub pos: usize,
    pub kind: ParseErrorKind,
}

/// An ASCII decimal digit.
pub open spec fn is_digit(b: u8) -> bool {
    48 <= b <= 57
}

/// The position of the first non-blank byte at or after `pos`.
pub open spec fn skip_ws_spec(t: Seq<u8>, pos: int) -> int
    decreases t.len() - pos,
{
    if 0 <= pos && pos < t.len() && t[pos] == 32 {
        skip_ws_spec(t, pos + 1)
    } else {
        pos
    }
}

/// Scan the integer digits from `pos`, extending `acc`; `None` once the
/// accumulated value leaves the representable range.
pub open spec fn scan_int_spec(t: Seq<u8>, pos: int, acc: int) -> Option<(int, int)>
    decreases t.len() - pos,
{
    if 0 <= pos && pos < t.len() && is_digit(t[pos]) {
        if acc > 99_999_999 {
            None
        } else {
            scan_int_spec(t, pos + 1, acc * 10 + (t[pos] - 48))
        }
    } else {
        Some((acc, pos))
    }
}

/// Scan up to six fractional digits from `pos`: the accumulated digits, how
/// many, and the position after them; `None` on a seventh digit.
pub open spec fn scan_frac_spec(t: Seq<u8>, pos: int, k: int, acc: int) -> Option<(int, int, int)>
    decreases t.len() - pos,
{
    if 0 <= pos && pos < t.len() && is_digit(t[pos]) {
        if k == 6 {
            None
        } else {
            scan_frac_spec(t, pos + 1, k + 1, acc * 10 + (t[pos] - 48))
        }
    } else {
        Some((acc, k, pos))
    }
}

/// Ten to the `k`, for `k` up to six.
pub open spec fn pow10_upto6(k: int) -> int {
    if k <= 0 {
        1
    } else if k == 1 {
        10
    } else if k == 2 {
        100
    } else if k == 3 {
        1000
    } else if k == 4 {
        10000
    } else if k == 5 {
        100000
    } else {
        1000000
    }
}

/// A decimal constant at `pos`: its raw fixed-point value (millionths) and
/// the position after it. `None` where the text holds no digit at `pos`, a
/// point without digits, more than six fractional digits, or a value beyond
/// the representable range.
pub open spec fn number_spec(t: Seq<u8>, pos: int) -> Option<(int, int)> {
    match scan_int_spec(t, pos, 0) {
        Some((ip, p1)) => {
            if p1 == pos {
                None
            } else if 0 <= p1 && p1 < t.len() && t[p1] == 46 {
                match scan_frac_spec(t, p1 + 1, 0, 0) {
                    Some((fa, k, p2)) => {
                        if k == 0 {
                            None
                        } else {
                            let raw = ip * 1_000_000 + fa * pow10_upto6(6 - k);
                            if raw > CONST_RAW_LIMIT {
                                None
                            } else {
                                Some((raw, p2))
                            }
                        }
                    }
                    None => None,
                }
            } else {
                let raw = ip * 1_000_000;
                if raw > CONST_RAW_LIMIT {
                    None
                } else {
                    Some((raw, p1))
                }
            }
        }
        None => None,
    }
}

/// Does `name(` stand at `pos`, for a three-letter function name?
pub open spec fn match_func_spec(t: Seq<u8>, pos: int, a: u8, b: u8, c: u8) -> bool {
    &&& t.len() >= 4
    &&& 0 <= pos <= t.len() - 4
    &&& t[pos] == a
    &&& t[pos + 1] == b
    &&& t[pos + 2] == c
    &&& t[pos + 3] == 40
}

/// A sum: terms joined by `+` and `-`, left-associative.
pub open spec fn sum_spec(t: Seq<u8>, pos: int) -> Option<(Expr, int)>
    decreases t.len() - pos, 4int,
{
    match term_spec(t, pos) {
        Some((e, p)) => if pos < p <= t.len() {
            sum_tail_spec(t, e, p)
        } else {
            None
        },
        None => None,
    }
}

/// The `+`/`-` continuations of a sum whose left part ends at `p`.
pub open spec fn sum_tail_spec(t: Seq<u8>, acc: Expr, p: int) -> Option<(Expr, int)>
    decreases t.len() - p, 0int,
{
    let q = skip_ws_spec(t, p);
    if p <= q && q < t.len() && (t[q] == 43 || t[q] == 45) {
        let op = if t[q] == 43 {
            BinOp::Add
        } else {
            BinOp::Sub
        };
        match term_spec(t, q + 1) {
            Some((rhs, p2)) => if q + 1 < p2 <= t.len() {
                sum_tail_spec(
                    t,
                    Expr::Binary { op, lhs: Box::new(acc), rhs: Box::new(rhs) },
                    p2,
                )
            } else {
                None
            },
            None => None,
        }
    } else {
        Some((acc, p))
    }
}

/// A term: unary factors joined by `*` and `/`, left-associative.
pub open spec fn term_spec(t: Seq<u8>, pos: int) -> Option<(Expr, int)>
    decreases t.len() - pos, 3int,
{
    match unary_spec(t, pos) {
        Some((e, p)) => if pos < p <= t.len() {
            term_tail_spec(t, e, p)
        } else {
            None
        },
        None => None,
    }
}

/// The `*`/`/` continuations of a term whose left part ends at `p`.
pub open spec fn term_tail_spec(t: Seq<u8>, acc: Expr, p: int) -> Option<(Expr, int)>
    decreases t.len() - p, 0int,
{
    let q = skip_ws_spec(t, p);
    if p <= q && q < t.len() && (t[q] == 42 || t[q] == 47) {
        let op = if t[q] == 42 {
            BinOp::Mul
        } else {
            BinOp::Div
        };
        match unary_spec(t, q + 1) {
            Some((rhs, p2)) => if q + 1 < p2 <= t.len() {
                term_tail_spec(
                    t,
                    Expr::Binary { op, lhs: Box::new(acc), rhs: Box::new(rhs) },
                    p2,
                )
            } else {
                None
            },
            None => None,
        }
    } else {
        Some((acc, p))
    }
}

/// A unary factor: a negation, or an atom with an optional right-associative
/// power whose exponent is again a unary factor.
pub open spec fn unary_spec(t: Seq<u8>, pos: int) -> Option<(Expr, int)>
    decreases t.len() - pos, 2int,
{
    let q = skip_ws_spec(t, pos);
    if !(pos <= q && q <= t.len()) {
        None
    } else if q < t.len() && t[q] == 45 {
        match unary_spec(t, q + 1) {
            Some((inner, p2)) => Some(
                (Expr::Unary { op: UnOp::Neg, arg: Box::new(inner) }, p2),
            ),
            None => None,
        }
    } else {
        match atom_spec(t, q) {
            Some((base, p)) => if q < p && p <= t.len() {
                let q2 = skip_ws_spec(t, p);
                if p <= q2 && q2 < t.len() && t[q2] == 94 {
                    match unary_spec(t, q2 + 1) {
                        Some((expo, p3)) => Some(
                            (
                                Expr::Binary {
                                    op: BinOp::Pow,
                                    lhs: Box::new(base),
                                    rhs: Box::new(expo),
                                },
                                p3,
                            ),
                        ),
                        None => None,
                    }
                } else {
                    Some((base, p))
                }
            } else {
                None
            },
            None => None,
        }
    }
}

/// An atom: a constant, the variable, a parameter, a named function applied
/// to a parenthesized argument, or a parenthesized group.
pub open spec fn atom_spec(t: Seq<u8>, pos: int) -> Option<(Expr, int)>
    decreases t.len() - pos, 1int,
{
    if !(0 <= pos && pos < t.len()) {
        None
    } else {
        let b = t[pos];
        if is_digit(b) {
            match number_spec(t, pos) {
                Some((raw, p)) => Some((Expr::Const { raw: raw as i64 }, p)),
                None => None,
            }
        } else if b == 40 {
            match sum_spec(t, pos + 1) {
                Some((e, p)) => {
                    let q = skip_ws_spec(t, p);
                    if q < t.len() && t[q] == 41 {
                        Some((e, q + 1))
                    } else {
                        None
                    }
                }
                None => None,
            }
        } else if match_func_spec(t, pos, 115, 105, 110) {
            func_arg_spec(t, pos, UnOp::Sin)
        } else if match_func_spec(t, pos, 99, 111, 115) {
            func_arg_spec(t, pos, UnOp::Cos)
        } else if match_func_spec(t, pos, 101, 120, 112) {
            func_arg_spec(t, pos, UnOp::Exp)
        } else if b == 120 {
            Some((Expr::X, pos + 1))
        } else if 97 <= b && b <= 122 {
            Some((Expr::Par { name: b }, pos + 1))
        } else {
            None
        }
    }
}

/// The parenthesized argument of a named unary function standing at `pos`.
pub open spec fn func_arg_spec(t: Seq<u8>, pos: int, op: UnOp) -> Option<(Expr, int)>
    decreases t.len() - pos, 0int,
{
    if !(0 <= pos && pos + 4 <= t.len()) {
        None
    } else {
        match sum_spec(t, pos + 4) {
            Some((arg, p)) => {
                let q = skip_ws_spec(t, p);
                if q < t.len() && t[q] == 41 {
                    Some((Expr::Unary { op, arg: Box::new(arg) }, q + 1))
                } else {
                    None
                }
            }
            None => None,
        }
    }
}

/// The whole text as an expression: a sum followed only by blanks.
pub open spec fn spec_parse(t: Seq<u8>) -> Option<Expr> {
    match sum_spec(t, 0) {
        Some((e, p)) => {
            let q = skip_ws_spec(t, p);
            if q == t.len() {
                Some(e)
            } else {
                None
            }
        }
        None => None,
    }
}

/// Skip blanks.
fn skip_ws(t: &Vec<u8>, pos: usize) -> (r: usize)
    requires
        pos <= t@.len(),
    ensures
        pos <= r <= t@.len(),
        r as int == skip_ws_spec(t@, pos as int),
{
    let mut i = pos;
    while i < t.len()
        invariant
            pos <= i <= t@.len(),
            skip_ws_spec(t@, pos as int) == skip_ws_spec(t@, i as int),
        decreases t@.len() - i,
    {
        if t[i] != 32 {
            return i;
        }
        i += 1;
    }
    i
}

/// Parse a decimal constant starting at a digit: integer digits, then an
/// optional point with one to six fractional digits. Returns the raw
/// fixed-point value (millionths) and the position after the constant:
/// exactly `number_spec`.
fn parse_number(t: &Vec<u8>, pos: usize) -> (r: Result<(i64, usize), ParseError>)
    requires
        pos < t@.len(),
    ensures
        r matches Ok(p) ==> {
            &&& number_spec(t@, pos as int) == Some((p.0 as int, p.1 as int))
            &&& pos < p.1 <= t@.len()
            &&& 0 <= p.0 <= CONST_RAW_LIMIT
        },
        r matches Err(e) ==> number_spec(t@, pos as int) is None && e.pos <= t@.len(),
{
    let mut i = pos;
    let mut ip: i64 = 0;
    while i < t.len()
        invariant
            pos <= i <= t@.len(),
            0 <= ip <= 999_999_999,
            scan_int_spec(t@, pos as int, 0) == scan_int_spec(t@, i as int, ip as int),
        ensures
            pos <= i <= t@.len(),
            0 <= ip <= 999_999_999,
            scan_int_spec(t@, pos as int, 0) == Some((ip as int, i as int)),
        decreases t@.len() - i,
    {
        let b = t[i];
        if 48 <= b && b <= 57 {
            if ip > 99_999_999 {
                proof {
                    assert(scan_int_spec(t@, i as int, ip as int) is None);
                    assert(number_spec(t@, pos as int) is None);
                }
                return Err(ParseError { pos: i, kind: ParseErrorKind::ConstantTooLarge });
            }
            ip = ip * 10 + ((b - 48) as i64);
            i += 1;
        } else {
            proof {
                assert(scan_int_spec(t@, i as int, ip as int) == Some((ip as int, i as int)));
            }
            break;
        }
    }
    if i == pos {
        proof {
            assert(number_spec(t@, pos as int) is None);
        }
        return Err(ParseError { pos: i, kind: ParseErrorKind::UnexpectedChar });
    }
    let raw: i64;
    let ghost p1 = i as int;
    if i < t.len() && t[i] == 46 {
        i += 1;
        let ghost fstart = i as int;
        let mut frac: i64 = 0;
        let mut k: u32 = 0;
        while i < t.len()
            invariant
                pos < i <= t@.len(),
                k <= 6,
                0 <= frac < pow10_upto6(k as int),
                scan_int_spec(t@, pos as int, 0) == Some((ip as int, p1)),
                pos < p1 < t@.len(),
                t@[p1] == 46,
                fstart == p1 + 1,
                scan_frac_spec(t@, fstart, 0, 0) == scan_frac_spec(
                    t@,
                    i as int,
                    k as int,
                    frac as int,
                ),
            ensures
                pos < i <= t@.len(),
                k <= 6,
                0 <= frac < pow10_upto6(k as int),
                scan_frac_spec(t@, fstart, 0, 0) == Some((frac as int, k as int, i as int)),
            decreases t@.len() - i,
    
        {
            let b = t[i];
            if 48 <= b && b <= 57 {
                if k == 6 {
                    proof {
                        assert(scan_frac_spec(t@, i as int, k as int, frac as int) is None);
                        assert(number_spec(t@, pos as int) is None);
                    }
                    return Err(ParseError { pos: i, kind: ParseErrorKind::ConstantTooLarge });
                }
                proof {
                    assert(pow10_upto6(k as int + 1) == 10 * pow10_upto6(k as int));
                    assert(pow10_upto6(k as int) <= 100000);
                }
                frac = frac * 10 + ((b - 48) as i64);
                k += 1;
                i += 1;
            } else {
                proof {
                    assert(scan_frac_spec(t@, i as int, k as int, frac as int) == Some(
                        (frac as int, k as int, i as int),
                    ));
                }
                break;
            }
        }
        if k == 0 {
            proof {
                assert(number_spec(t@, pos as int) is None);
            }
            return Err(ParseError { pos: i, kind: ParseErrorKind::UnexpectedChar });
        }
        let place: i64 = if k == 1 {
            100_000
        } else if k == 2 {
            10_000
        } else if k == 3 {
            1_000
        } else if k == 4 {
            100
        } else if k == 5 {
            10
        } else {
            1
        };
        proof {
            assert(place == pow10_upto6(6 - k as int));
            assert(frac * place <= 999_999) by (nonlinear_arith)
                requires
                    0 <= frac < pow10_upto6(k as int),
                    1 <= k <= 6,
                    place == pow10_upto6(6 - k as int),
            ;
            assert(frac * place >= 0) by (nonlinear_arith)
                requires
                    frac >= 0,
                    place >= 1,
            ;
        }
        raw = ip * 1_000_000 + frac * place;
    } else {
        raw = ip * 1_000_000;
    }
    if raw > CONST_RAW_LIMIT {
        proof {
            assert(number_spec(t@, pos as int) is None);
        }
        return Err(ParseError { pos: i, kind: ParseErrorKind::ConstantTooLarge });
    }
    proof {
        assert(number_spec(t@, pos as int) == Some((raw as int, i as int)));
    }
    Ok((raw, i))
}

/// Does `name(` stand at `pos`, for a three-letter function name?
fn match_func(t: &Vec<u8>, pos: usize, a: u8, b: u8, c: u8) -> (r: bool)
    requires
        pos <= t@.len(),
    ensures
        r == match_func_spec(t@, pos as int, a, b, c),
        r ==> pos + 4 <= t@.len(),
{
    t.len() >= 4 && pos <= t.len() - 4 && t[pos] == a && t[pos + 1] == b && t[pos + 2] == c
        && t[pos + 3] == 40
}

/// A sum: terms joined by `+` and `-`, left-associative; exactly `sum_spec`.
fn parse_sum(t: &Vec<u8>, pos: usize) -> (r: Result<(Expr, usize), ParseError>)
    requires
        pos <= t@.len(),
    ensures
        r matches Ok(p) ==> {
            &&& sum_spec(t@, pos as int) == Some((p.0, p.1 as int))
            &&& wf_expr(p.0)
            &&& pos < p.1 <= t@.len()
        },
        r matches Err(e) ==> sum_spec(t@, pos as int) is None && e.pos <= t@.len(),
    decreases t@.len() - pos, 4int,
{
    let first = parse_term(t, pos);
    let (mut acc, mut p) = match first {
        Ok(x) => x,
        Err(e) => {
            return Err(e);
        }
    };
    loop
        invariant
            wf_expr(acc),
            pos < p <= t@.len(),
            sum_spec(t@, pos as int) == sum_tail_spec(t@, acc, p as int),
        decreases t@.len() - p,
    {
        let q = skip_ws(t, p);
        if q < t.len() && (t[q] == 43 || t[q] == 45) {
            let op = if t[q] == 43 {
                BinOp::Add
            } else {
                BinOp::Sub
            };
            match parse_term(t, q + 1) {
                Ok((rhs, p2)) => {
                    acc = Expr::Binary { op, lhs: Box::new(acc), rhs: Box::new(rhs) };
                    p = p2;
                }
                Err(e) => {
                    return Err(e);
                }
            }
        } else {
            return Ok((acc, p));
        }
    }
}

/// A term: unary factors joined by `*` and `/`, left-associative; exactly
/// `term_spec`.
fn parse_term(t: &Vec<u8>, pos: usize) -> (r: Result<(Expr, usize), ParseError>)
    requires
        pos <= t@.len(),
    ensures
        r matches Ok(p) ==> {
            &&& term_spec(t@, pos as int) == Some((p.0, p.1 as int))
            &&& wf_expr(p.0)
            &&& pos < p.1 <= t@.len()
        },
        r matches Err(e) ==> term_spec(t@, pos as int) is None && e.pos <= t@.len(),
    decreases t@.len() - pos, 3int,
{
    let first = parse_unary(t, pos);
    let (mut acc, mut p) = match first {
        Ok(x) => x,
        Err(e) => {
            return Err(e);
        }
    };
    loop
        invariant
            wf_expr(acc),
            pos < p <= t@.len(),
            term_spec(t@, pos as int) == term_tail_spec(t@, acc, p as int),
        decreases t@.len() - p,
    {
        let q = skip_ws(t, p);
        if q < t.len() && (t[q] == 42 || t[q] == 47) {
            let op = if t[q] == 42 {
                BinOp::Mul
            } else {
                BinOp::Div
            };
            match parse_unary(t, q + 1) {
                Ok((rhs, p2)) => {
                    acc = Expr::Binary { op, lhs: Box::new(acc), rhs: Box::new(rhs) };
                    p = p2;
                }
                Err(e) => {
                    return Err(e);
                }
            }
        } else {
            return Ok((acc, p));
        }
    }
}

/// A unary factor: a negation, or an atom with an optional right-associative
/// power; exactly `unary_spec`.
fn parse_unary(t: &Vec<u8>, pos: usize) -> (r: Result<(Expr, usize), ParseError>)
    requires
        pos <= t@.len(),
    ensures
        r matches Ok(p) ==> {
            &&& unary_spec(t@, pos as int) == Some((p.0, p.1 as int))
            &&& wf_expr(p.0)
            &&& pos < p.1 <= t@.len()
        },
        r matches Err(e) ==> unary_spec(t@, pos as int) is None && e.pos <= t@.len(),
    decreases t@.len() - pos, 2int,
{
    let q = skip_ws(t, pos);
    if q < t.len() && t[q] == 45 {
        match parse_unary(t, q + 1) {
            Ok((inner, p2)) => Ok((Expr::Unary { op: UnOp::Neg, arg: Box::new(inner) }, p2)),
            Err(e) => Err(e),
        }
    } else {
        let first = parse_atom(t, q);
        let (base, p) = match first {
            Ok(x) => x,
            Err(e) => {
                return Err(e);
            }
        };
        let q2 = skip_ws(t, p);
        if q2 < t.len() && t[q2] == 94 {
            match parse_unary(t, q2 + 1) {
                Ok((expo, p2)) => Ok((
                    Expr::Binary { op: BinOp::Pow, lhs: Box::new(base), rhs: Box::new(expo) },
                    p2,
                )),
                Err(e) => Err(e),
            }
        } else {
            Ok((base, p))
        }
    }
}

/// An atom: a constant, the variable, a parameter, a named function applied
/// to a parenthesized argument, or a parenthesized group; exactly
/// `atom_spec`.
fn parse_atom(t: &Vec<u8>, pos: usize) -> (r: Result<(Expr, usize), ParseError>)
    requires
        pos <= t@.len(),
    ensures
        r matches Ok(p) ==> {
            &&& atom_spec(t@, pos as int) == Some((p.0, p.1 as int))
            &&& wf_expr(p.0)
            &&& pos < p.1 <= t@.len()
        },
        r matches Err(e) ==> atom_spec(t@, pos as int) is None && e.pos <= t@.len(),
    decreases t@.len() - pos, 1int,
{
    if pos >= t.len() {
        return Err(ParseError { pos, kind: ParseErrorKind::UnexpectedEnd });
    }
    let b = t[pos];
    if 48 <= b && b <= 57 {
        match parse_number(t, pos) {
            Ok((raw, p)) => Ok((Expr::Const { raw }, p)),
            Err(e) => Err(e),
        }
    } else if b == 40 {
        let inner = parse_sum(t, pos + 1);
        match inner {
            Ok((e, p)) => {
                let q = skip_ws(t, p);
                if q < t.len() && t[q] == 41 {
                    Ok((e, q + 1))
                } else if q < t.len() {
                    Err(ParseError { pos: q, kind: ParseErrorKind::UnexpectedChar })
                } else {
                    Err(ParseError { pos: q, kind: ParseErrorKind::UnexpectedEnd })
                }
            }
            Err(e) => Err(e),
        }
    } else if match_func(t, pos, 115, 105, 110) {
        parse_func_arg(t, pos, UnOp::Sin)
    } else if match_func(t, pos, 99, 111, 115) {
        parse_func_arg(t, pos, UnOp::Cos)
    } else if match_func(t, pos, 101, 120, 112) {
        parse_func_arg(t, pos, UnOp::Exp)
    } else if b == 120 {
        Ok((Expr::X, pos + 1))
    } else if 97 <= b && b <= 122 {
        Ok((Expr::Par { name: b }, pos + 1))
    } else {
        Err(ParseError { pos, kind: ParseErrorKind::UnexpectedChar })
    }
}

/// The parenthesized argument of a named unary function standing at `pos`;
/// exactly `func_arg_spec`.
fn parse_func_arg(t: &Vec<u8>, pos: usize, op: UnOp) -> (r: Result<(Expr, usize), ParseError>)
    requires
        pos + 4 <= t@.len(),
    ensures
        r matches Ok(p) ==> {
            &&& func_arg_spec(t@, pos as int, op) == Some((p.0, p.1 as int))
            &&& wf_expr(p.0)
            &&& pos < p.1 <= t@.len()
        },
        r matches Err(e) ==> func_arg_spec(t@, pos as int, op) is None && e.pos <= t@.len(),
    decreases t@.len() - pos, 0int,
{
    let n = t.len();
    proof {
        assert(pos + 4 <= n);
    }
    match parse_sum(t, pos + 4) {
        Ok((arg, p)) => {
            let q = skip_ws(t, p);
            if q < t.len() && t[q] == 41 {
                Ok((Expr::Unary { op, arg: Box::new(arg) }, q + 1))
            } else if q < t.len() {
                Err(ParseError { pos: q, kind: ParseErrorKind::UnexpectedChar })
            } else {
                Err(ParseError { pos: q, kind: ParseErrorKind::UnexpectedEnd })
            }
        }
        Err(e) => Err(e),
    }
}

/// Parse a whole text into a well-formed expression tree, or fail with the
/// position of the offending byte: inside the text for an unexpected or
/// left-over character or an unrepresentable constant, at its length where
/// the text ended too early. The result is pinned to the text: it is `Ok(e)`
/// exactly when the specification-level parser gives `Some(e)`.
pub fn parse(t: &Vec<u8>) -> (r: Result<Expr, ParseError>)
    ensures
        r matches Ok(e) ==> spec_parse(t@) == Some(e) && wf_expr(e),
        r matches Err(err) ==> spec_parse(t@) is None && err.pos <= t@.len(),
{
    match parse_sum(t, 0) {
        Ok((e, p)) => {
            let q = skip_ws(t, p);
            if q < t.len() {
                Err(ParseError { pos: q, kind: ParseErrorKind::TrailingInput })
            } else {
                Ok(e)
            }
        }
        Err(e) => Err(e),
    }
}

} // verus!
