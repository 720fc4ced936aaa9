//! The rewrite-to-fixpoint simplifier.
//!
//! A fixed set of local rules is applied bottom-up to a fixpoint: constant
//! folding of `+ - *` (when the result is exactly representable), identity
//! elimination (`e+0`, `e-0`, `e*1`, `e/1`, `e^1` become `e`; `e*0` becomes
//! `0`; `e^0` becomes `1`), double-negation cancellation, and merging of the
//! constant tails of nested same-kind associative chains. Every rule strictly
//! shrinks the tree, which bounds the fixpoint loop; parameters whose leaves
//! are rewritten away disappear from the tree, so the parameter set can only
//! shrink. The result is deterministic, idempotent
//! (`lemma_simplify_idempotent`) and never larger than the input
//! (`lemma_simplify_non_increase`).

use vstd::prelude::*;
use vstd::set_lib::lemma_len_subset;
use crate::expr::{Expr, UnOp, BinOp, size, pnames, wf_expr, lemma_pnames_finite, deep_copy};
use crate::fx::{FX_ONE, FX_SCALE, CONST_RAW_LIMIT, const_in_range};

verus! {

broadcast use vstd::set::group_set_axioms;

/// True of an exact (unscaled) integer value that fits the constant range.
pub open spec fn in_range_int(v: int) -> bool {
    -CONST_RAW_LIMIT <= v <= CONST_RAW_LIMIT
}

/// Magnitude of an `i64` as a mathematical integer.
pub open spec fn iabs(v: i64) -> int {
    if v < 0 {
        -(v as int)
    } else {
        v as int
    }
}

/// Exact product of two fixed-point values, if representable: the raw
/// magnitudes are multiplied and rescaled; the fold applies only when the
/// rescaling is exact and the result is in range.
pub open spec fn fold_mul(a: i64, b: i64) -> Option<i64> {
    let mag = iabs(a) * iabs(b);
    if mag % (FX_SCALE as int) == 0 {
        let q = mag / (FX_SCALE as int);
        if q <= CONST_RAW_LIMIT as int {
            if (a < 0) != (b < 0) {
                Some((-q) as i64)
            } else {
                Some(q as i64)
            }
        } else {
            None
        }
    } else {
        None
    }
}

/// Constant folding of one binary operator, when exact and in range.
/// Division and power are never folded: their results are generally not
/// representable exactly, and their value on invalid operands follows the
/// evaluator's floating-point semantics, which the tree must not prejudge.
pub open spec fn fold_bin(op: BinOp, a: i64, b: i64) -> Option<i64> {
    match op {
        BinOp::Add => if in_range_int(a + b) {
            Some((a + b) as i64)
        } else {
            None
        },
        BinOp::Sub => if in_range_int(a - b) {
            Some((a - b) as i64)
        } else {
            None
        },
        BinOp::Mul => fold_mul(a, b),
        BinOp::Div => None,
        BinOp::Pow => None,
    }
}

/// Merging of the constant tail of a nested same-kind associative chain:
/// `(a op c1) op c2` becomes `a op (c1 op c2)` when the constants fold.
pub open spec fn merge_rule(op: BinOp, l: Expr, r: Expr) -> Option<Expr> {
    match (l, r) {
        (Expr::Binary { op: op2, lhs: a, rhs: c1box }, Expr::Const { raw: c2 }) => {
            if op2 == op {
                match *c1box {
                    Expr::Const { raw: c1 } => match fold_bin(op, c1, c2) {
                        Some(c3) => Some(
                            Expr::Binary { op, lhs: a, rhs: Box::new(Expr::Const { raw: c3 }) },
                        ),
                        None => None,
                    },
                    _ => None,
                }
            } else {
                None
            }
        }
        _ => None,
    }
}

/// Identity, annihilation and merge rules at a binary root.
pub open spec fn step_binary_rules(op: BinOp, l: Expr, r: Expr) -> Option<Expr> {
    match op {
        BinOp::Add => {
            if l == (Expr::Const { raw: 0i64 }) {
                Some(r)
            } else if r == (Expr::Const { raw: 0i64 }) {
                Some(l)
            } else {
                merge_rule(BinOp::Add, l, r)
            }
        }
        BinOp::Sub => {
            if r == (Expr::Const { raw: 0i64 }) {
                Some(l)
            } else {
                None
            }
        }
        BinOp::Mul => {
            if l == (Expr::Const { raw: 0i64 }) || r == (Expr::Const { raw: 0i64 }) {
                Some(Expr::Const { raw: 0i64 })
            } else if l == (Expr::Const { raw: FX_ONE }) {
                Some(r)
            } else if r == (Expr::Const { raw: FX_ONE }) {
                Some(l)
            } else {
                merge_rule(BinOp::Mul, l, r)
            }
        }
        BinOp::Div => {
            if r == (Expr::Const { raw: FX_ONE }) {
                Some(l)
            } else {
                None
            }
        }
        BinOp::Pow => {
            if r == (Expr::Const { raw: FX_ONE }) {
                Some(l)
            } else if r == (Expr::Const { raw: 0i64 }) {
                Some(Expr::Const { raw: FX_ONE })
            } else {
                None
            }
        }
    }
}

/// One rewrite at the root of a binary node, if any rule applies: constant
/// folding first, the remaining rules after it.
pub open spec fn step_binary(op: BinOp, l: Expr, r: Expr) -> Option<Expr> {
    match (l, r) {
        (Expr::Const { raw: a }, Expr::Const { raw: b }) => match fold_bin(op, a, b) {
            Some(c) => Some(Expr::Const { raw: c }),
            None => step_binary_rules(op, l, r),
        },
        _ => step_binary_rules(op, l, r),
    }
}

/// One rewrite at the root of the tree, if any rule applies.
pub open spec fn step(e: Expr) -> Option<Expr> {
    match e {
        Expr::Unary { op: UnOp::Neg, arg } => match *arg {
            Expr::Unary { op: UnOp::Neg, arg: inner } => Some(*inner),
            _ => None,
        },
        Expr::Binary { op, lhs, rhs } => step_binary(op, *lhs, *rhs),
        _ => None,
    }
}

/// The children of the root are fully simplified.
pub open spec fn children_normal(e: Expr) -> bool {
    match e {
        Expr::Unary { arg, .. } => normal(*arg),
        Expr::Binary { lhs, rhs, .. } => normal(*lhs) && normal(*rhs),
        _ => true,
    }
}

/// No rule applies anywhere in the tree.
pub open spec fn normal(e: Expr) -> bool
    decreases e,
{
    step(e) is None && match e {
        Expr::Unary { arg, .. } => normal(*arg),
        Expr::Binary { lhs, rhs, .. } => normal(*lhs) && normal(*rhs),
        _ => true,
    }
}

proof fn lemma_fold_in_range(op: BinOp, a: i64, b: i64)
    ensures
        fold_bin(op, a, b) matches Some(c) ==> const_in_range(c),
{
    match op {
        BinOp::Mul => {
            assert(iabs(a) * iabs(b) >= 0) by (nonlinear_arith)
                requires
                    iabs(a) >= 0,
                    iabs(b) >= 0,
            ;
        }
        _ => {}
    }
}

proof fn lemma_merge_props(op: BinOp, l: Expr, r: Expr)
    ensures
        merge_rule(op, l, r) matches Some(e2) ==> {
            &&& size(e2) < 1 + size(l) + size(r)
            &&& pnames(e2).subset_of(pnames(l).union(pnames(r)))
            &&& (wf_expr(l) && wf_expr(r) ==> wf_expr(e2))
            &&& (normal(l) && normal(r) ==> children_normal(e2))
        },
{
    match (l, r) {
        (Expr::Binary { op: op2, lhs: a, rhs: c1box }, Expr::Const { raw: c2 }) => {
            if op2 == op {
                match *c1box {
                    Expr::Const { raw: c1 } => {
                        match fold_bin(op, c1, c2) {
                            Some(c3) => {
                                let cc = Expr::Const { raw: c3 };
                                let bx = Box::new(cc);
                                assert(*bx == cc);
                                let e2 = Expr::Binary { op, lhs: a, rhs: bx };
                                assert(merge_rule(op, l, r) == Some(e2));
                                assert(size(cc) == 1);
                                assert(size(e2) == 1 + size(*a) + size(*bx));
                                assert(size(e2) == 2 + size(*a));
                                assert(size(*c1box) == 1);
                                assert(size(l) == 2 + size(*a));
                                assert(size(r) == 1);
                                assert(pnames(cc) =~= Set::<u8>::empty());
                                assert(pnames(e2) == pnames(*a).union(pnames(*bx)));
                                assert(pnames(e2) =~= pnames(*a));
                                assert(pnames(*c1box) =~= Set::<u8>::empty());
                                assert(pnames(l) == pnames(*a).union(pnames(*c1box)));
                                assert(pnames(l) =~= pnames(*a));
                                assert(pnames(e2).subset_of(pnames(l).union(pnames(r))));
                                lemma_fold_in_range(op, c1, c2);
                                if wf_expr(l) && wf_expr(r) {
                                    assert(wf_expr(*a));
                                    assert(wf_expr(cc));
                                    assert(wf_expr(e2));
                                }
                                if normal(l) && normal(r) {
                                    assert(normal(*a));
                                    assert(normal(cc));
                                    assert(children_normal(e2));
                                }
                            }
                            None => {
                                assert(merge_rule(op, l, r) is None);
                            }
                        }
                    }
                    _ => {
                        assert(merge_rule(op, l, r) is None);
                    }
                }
            } else {
                assert(merge_rule(op, l, r) is None);
            }
        }
        _ => {
            assert(merge_rule(op, l, r) is None);
        }
    }
}

proof fn lemma_rules_props(op: BinOp, l: Expr, r: Expr)
    ensures
        step_binary_rules(op, l, r) matches Some(e2) ==> {
            &&& size(e2) < 1 + size(l) + size(r)
            &&& pnames(e2).subset_of(pnames(l).union(pnames(r)))
            &&& (wf_expr(l) && wf_expr(r) ==> wf_expr(e2))
            &&& (normal(l) && normal(r) ==> children_normal(e2))
        },
{
    lemma_merge_props(op, l, r);
    match step_binary_rules(op, l, r) {
        Some(e2) => {
            assert(size(l) >= 1);
            assert(size(r) >= 1);
            if e2 == l {
                assert(pnames(l).subset_of(pnames(l).union(pnames(r))));
                if normal(l) && normal(r) {
                    assert(children_normal(l));
                }
            }
            if e2 == r {
                assert(pnames(r).subset_of(pnames(l).union(pnames(r))));
                if normal(l) && normal(r) {
                    assert(children_normal(r));
                }
            }
            if e2 == (Expr::Const { raw: 0i64 }) || e2 == (Expr::Const { raw: FX_ONE }) {
                assert(size(e2) == 1);
                assert(pnames(e2) =~= Set::<u8>::empty());
                assert(pnames(e2).subset_of(pnames(l).union(pnames(r))));
                assert(children_normal(e2));
                assert(wf_expr(e2));
            }
        }
        None => {}
    }
}

/// Each root rewrite strictly shrinks the tree, keeps the parameter set
/// within the old one, preserves well-formedness, and keeps the root's
/// children fully simplified.
proof fn lemma_step_props(e: Expr)
    ensures
        step(e) matches Some(e2) ==> {
            &&& size(e2) < size(e)
            &&& pnames(e2).subset_of(pnames(e))
            &&& (wf_expr(e) ==> wf_expr(e2))
            &&& (children_normal(e) ==> children_normal(e2))
        },
{
    match step(e) {
        Some(e2) => {
            match e {
                Expr::Unary { op, arg } => {
                    match op {
                        UnOp::Neg => {
                            match *arg {
                                Expr::Unary { op: op2, arg: inner } => {
                                    match op2 {
                                        UnOp::Neg => {
                                            assert(e2 == *inner);
                                            assert(size(e) == 1 + size(*arg));
                                            assert(size(*arg) == 1 + size(*inner));
                                            assert(size(e2) < size(e));
                                            if wf_expr(e) {
                                                assert(wf_expr(*arg));
                                                assert(wf_expr(*inner));
                                            }
                                            assert(pnames(e) == pnames(*arg));
                                            assert(pnames(*arg) == pnames(*inner));
                                            assert(pnames(e2).subset_of(pnames(e)));
                                            if children_normal(e) {
                                                assert(normal(*arg));
                                                assert(normal(*inner));
                                                assert(children_normal(*inner));
                                            }
                                        }
                                        _ => {
                                            assert(false);
                                        }
                                    }
                                }
                                _ => {
                                    assert(false);
                                }
                            }
                        }
                        _ => {
                            assert(false);
                        }
                    }
                }
                Expr::Binary { op, lhs, rhs } => {
                    let l = *lhs;
                    let r = *rhs;
                    assert(step(e) == step_binary(op, l, r));
                    assert(size(e) == 1 + size(l) + size(r));
                    assert(size(l) >= 1);
                    assert(size(r) >= 1);
                    assert(pnames(e) == pnames(l).union(pnames(r)));
                    let folded = match (l, r) {
                        (Expr::Const { raw: a }, Expr::Const { raw: b }) => fold_bin(op, a, b),
                        _ => None,
                    };
                    match folded {
                        Some(c) => {
                            match (l, r) {
                                (Expr::Const { raw: a }, Expr::Const { raw: b }) => {
                                    lemma_fold_in_range(op, a, b);
                                    let cc = Expr::Const { raw: c };
                                    assert(step_binary(op, l, r) == Some(cc));
                                    assert(e2 == cc);
                                    assert(size(e2) == 1);
                                    assert(pnames(e2) =~= Set::<u8>::empty());
                                    assert(pnames(e2).subset_of(pnames(e)));
                                    assert(children_normal(e2));
                                    assert(wf_expr(e2));
                                }
                                _ => {
                                    assert(false);
                                }
                            }
                        }
                        None => {
                            assert(step_binary(op, l, r) == step_binary_rules(op, l, r));
                            lemma_rules_props(op, l, r);
                            assert(size(e2) < size(e));
                            assert(pnames(e2).subset_of(pnames(l).union(pnames(r))));
                            assert(pnames(e2).subset_of(pnames(e)));
                            if wf_expr(e) {
                                assert(wf_expr(l) && wf_expr(r));
                                assert(wf_expr(e2));
                            }
                            if children_normal(e) {
                                assert(normal(l) && normal(r));
                                assert(children_normal(e2));
                            }
                        }
                    }
                }
                _ => {
                    assert(false);
                }
            }
        }
        None => {}
    }
}

/// Repeated root rewriting to a root fixpoint.
pub open spec fn norm_at(e: Expr) -> Expr
    decreases size(e),
    via norm_at_decreases
{
    match step(e) {
        Some(e2) => norm_at(e2),
        None => e,
    }
}

#[via_fn]
proof fn norm_at_decreases(e: Expr) {
    lemma_step_props(e);
}

proof fn lemma_norm_at_props(e: Expr)
    requires
        children_normal(e),
    ensures
        normal(norm_at(e)),
        size(norm_at(e)) <= size(e),
        pnames(norm_at(e)).subset_of(pnames(e)),
        wf_expr(e) ==> wf_expr(norm_at(e)),
    decreases size(e),
{
    lemma_step_props(e);
    match step(e) {
        Some(e2) => {
            lemma_norm_at_props(e2);
        }
        None => {
            assert(pnames(e).subset_of(pnames(e)));
        }
    }
}

/// The simplifier: children first, then the root to its fixpoint.
pub open spec fn simp(e: Expr) -> Expr
    decreases e,
{
    match e {
        Expr::Unary { op, arg } => norm_at(Expr::Unary { op, arg: Box::new(simp(*arg)) }),
        Expr::Binary { op, lhs, rhs } => norm_at(
            Expr::Binary { op, lhs: Box::new(simp(*lhs)), rhs: Box::new(simp(*rhs)) },
        ),
        _ => e,
    }
}

proof fn lemma_simp_props(e: Expr)
    ensures
        normal(simp(e)),
        size(simp(e)) <= size(e),
        pnames(simp(e)).subset_of(pnames(e)),
        wf_expr(e) ==> wf_expr(simp(e)),
    decreases e,
{
    match e {
        Expr::Unary { op, arg } => {
            lemma_simp_props(*arg);
            let rebuilt = Expr::Unary { op, arg: Box::new(simp(*arg)) };
            assert(children_normal(rebuilt));
            assert(pnames(rebuilt) == pnames(simp(*arg)));
            assert(size(rebuilt) == 1 + size(simp(*arg)));
            lemma_norm_at_props(rebuilt);
        }
        Expr::Binary { op, lhs, rhs } => {
            lemma_simp_props(*lhs);
            lemma_simp_props(*rhs);
            let rebuilt = Expr::Binary {
                op,
                lhs: Box::new(simp(*lhs)),
                rhs: Box::new(simp(*rhs)),
            };
            assert(children_normal(rebuilt));
            assert(size(rebuilt) == 1 + size(simp(*lhs)) + size(simp(*rhs)));
            assert(pnames(rebuilt) == pnames(simp(*lhs)).union(pnames(simp(*rhs))));
            lemma_norm_at_props(rebuilt);
            assert(pnames(rebuilt).subset_of(pnames(e)));
        }
        _ => {}
    }
}

proof fn lemma_simp_of_normal(e: Expr)
    requires
        normal(e),
    ensures
        simp(e) == e,
    decreases e,
{
    match e {
        Expr::Unary { op, arg } => {
            assert(normal(*arg));
            lemma_simp_of_normal(*arg);
            assert((Expr::Unary { op, arg: Box::new(simp(*arg)) }) == e);
        }
        Expr::Binary { op, lhs, rhs } => {
            assert(normal(*lhs) && normal(*rhs));
            lemma_simp_of_normal(*lhs);
            lemma_simp_of_normal(*rhs);
            assert((Expr::Binary { op, lhs: Box::new(simp(*lhs)), rhs: Box::new(simp(*rhs)) })
                == e);
        }
        _ => {}
    }
}

/// Law: simplifying twice is the same as simplifying once, structurally.
pub proof fn lemma_simplify_idempotent(e: Expr)
    ensures
        simp(simp(e)) == simp(e),
{
    lemma_simp_props(e);
    lemma_simp_of_normal(simp(e));
}

/// Law: simplification never increases the node count or the number of
/// distinct parameters of the tree, and introduces no new parameter.
pub proof fn lemma_simplify_non_increase(e: Expr)
    ensures
        size(simp(e)) <= size(e),
        pnames(simp(e)).len() <= pnames(e).len(),
        pnames(simp(e)).subset_of(pnames(e)),
{
    lemma_simp_props(e);
    lemma_pnames_finite(e);
    lemma_len_subset(pnames(simp(e)), pnames(e));
}

/// Executable constant folding, mirroring `fold_bin`.
fn fold_bin_exec(op: BinOp, a: i64, b: i64) -> (r: Option<i64>)
    requires
        const_in_range(a),
        const_in_range(b),
    ensures
        r == fold_bin(op, a, b),
{
    match op {
        BinOp::Add => {
            let s = a + b;
            if -CONST_RAW_LIMIT <= s && s <= CONST_RAW_LIMIT {
                Some(s)
            } else {
                None
            }
        }
        BinOp::Sub => {
            let s = a - b;
            if -CONST_RAW_LIMIT <= s && s <= CONST_RAW_LIMIT {
                Some(s)
            } else {
                None
            }
        }
        BinOp::Mul => {
            let aa: u128 = if a < 0 {
                (-(a as i128)) as u128
            } else {
                a as u128
            };
            let bb: u128 = if b < 0 {
                (-(b as i128)) as u128
            } else {
                b as u128
            };
            proof {
                assert(aa == iabs(a));
                assert(bb == iabs(b));
                assert(aa * bb <= 1000000000000000000000000000000) by (nonlinear_arith)
                    requires
                        aa <= 1000000000000000,
                        bb <= 1000000000000000,
                ;
            }
            let mag: u128 = aa * bb;
            if mag % (FX_SCALE as u128) == 0 {
                let q: u128 = mag / (FX_SCALE as u128);
                if q <= CONST_RAW_LIMIT as u128 {
                    let qi: i64 = q as i64;
                    if (a < 0) != (b < 0) {
                        Some(-qi)
                    } else {
                        Some(qi)
                    }
                } else {
                    None
                }
            } else {
                None
            }
        }
        BinOp::Div => None,
        BinOp::Pow => None,
    }
}

/// Does the tree equal the given constant leaf?
fn is_const(e: &Expr, v: i64) -> (b: bool)
    ensures
        b <==> *e == (Expr::Const { raw: v }),
{
    match e {
        Expr::Const { raw } => *raw == v,
        _ => false,
    }
}

/// The merge rule, executable form.
fn try_merge(op: BinOp, l: &Expr, r: &Expr) -> (res: Option<Expr>)
    requires
        wf_expr(*l),
        wf_expr(*r),
    ensures
        res == merge_rule(op, *l, *r),
{
    match l {
        Expr::Binary { op: op2, lhs: a, rhs: c1box } => {
            if *op2 == op {
                match &**c1box {
                    Expr::Const { raw: c1 } => {
                        match r {
                            Expr::Const { raw: c2 } => {
                                proof {
                                    assert(wf_expr(**c1box));
                                    assert(const_in_range(*c1));
                                    assert(const_in_range(*c2));
                                }
                                match fold_bin_exec(op, *c1, *c2) {
                                    Some(c3) => Some(Expr::Binary {
                                        op,
                                        lhs: Box::new(deep_copy(&**a)),
                                        rhs: Box::new(Expr::Const { raw: c3 }),
                                    }),
                                    None => None,
                                }
                            }
                            _ => None,
                        }
                    }
                    _ => None,
                }
            } else {
                None
            }
        }
        _ => None,
    }
}

/// Identity, annihilation and merge rules at a binary root, executable form.
fn try_rules(op: BinOp, l: &Expr, r: &Expr) -> (res: Option<Expr>)
    requires
        wf_expr(*l),
        wf_expr(*r),
    ensures
        res == step_binary_rules(op, *l, *r),
{
    match op {
        BinOp::Add => {
            if is_const(l, 0) {
                Some(deep_copy(r))
            } else if is_const(r, 0) {
                Some(deep_copy(l))
            } else {
                try_merge(BinOp::Add, l, r)
            }
        }
        BinOp::Sub => {
            if is_const(r, 0) {
                Some(deep_copy(l))
            } else {
                None
            }
        }
        BinOp::Mul => {
            if is_const(l, 0) || is_const(r, 0) {
                Some(Expr::Const { raw: 0 })
            } else if is_const(l, FX_ONE) {
                Some(deep_copy(r))
            } else if is_const(r, FX_ONE) {
                Some(deep_copy(l))
            } else {
                try_merge(BinOp::Mul, l, r)
            }
        }
        BinOp::Div => {
            if is_const(r, FX_ONE) {
                Some(deep_copy(l))
            } else {
                None
            }
        }
        BinOp::Pow => {
            if is_const(r, FX_ONE) {
                Some(deep_copy(l))
            } else if is_const(r, 0) {
                Some(Expr::Const { raw: FX_ONE })
            } else {
                None
            }
        }
    }
}

/// One root rewrite, executable form.
fn try_step(e: &Expr) -> (r: Option<Expr>)
    requires
        wf_expr(*e),
    ensures
        r == step(*e),
{
    match e {
        Expr::Unary { op: UnOp::Neg, arg } => {
            match &**arg {
                Expr::Unary { op: UnOp::Neg, arg: inner } => Some(deep_copy(&**inner)),
                _ => None,
            }
        }
        Expr::Binary { op, lhs, rhs } => {
            proof {
                assert(wf_expr(**lhs));
                assert(wf_expr(**rhs));
            }
            match &**lhs {
                Expr::Const { raw: a } => {
                    match &**rhs {
                        Expr::Const { raw: b } => {
                            match fold_bin_exec(*op, *a, *b) {
                                Some(c) => Some(Expr::Const { raw: c }),
                                None => try_rules(*op, &**lhs, &**rhs),
                            }
                        }
                        _ => try_rules(*op, &**lhs, &**rhs),
                    }
                }
                _ => try_rules(*op, &**lhs, &**rhs),
            }
        }
        _ => None,
    }
}

/// Rewrite the root until no rule applies there.
fn normalize_root(e: Expr) -> (r: Expr)
    requires
        wf_expr(e),
    ensures
        r == norm_at(e),
        wf_expr(r),
{
    let mut cur = e;
    loop
        invariant
            wf_expr(cur),
            norm_at(cur) == norm_at(e),
        decreases size(cur),
    {
        proof {
            lemma_step_props(cur);
        }
        match try_step(&cur) {
            Some(e2) => {
                cur = e2;
            }
            None => {
                return cur;
            }
        }
    }
}

/// Simplify the whole tree: children first, then the root to its fixpoint.
/// The result is the normal form `simp(e)`: deterministic, idempotent, and
/// never larger than the input.
///
/// The rule set is the one `step` defines. Of the associative rearrangements
/// only the constant-tail merge is applied: a general re-association neither
/// shrinks the tree (so it cannot drive a fixpoint) nor preserves the
/// evaluator's floating-point semantics, whose operations do not associate
/// exactly. Constant folding covers `+ - *` where the fixed-point result is
/// exact and in range; `/` and `^` of constants are left to the evaluator.
pub fn simplify(e: Expr) -> (r: Expr)
    requires
        wf_expr(e),
    ensures
        r == simp(e),
        wf_expr(r),
        normal(r),
        size(r) <= size(e),
        pnames(r).subset_of(pnames(e)),
    decreases e,
{
    proof {
        lemma_simp_props(e);
    }
    match e {
        Expr::Unary { op, arg } => {
            let a = simplify(*arg);
            normalize_root(Expr::Unary { op, arg: Box::new(a) })
        }
        Expr::Binary { op, lhs, rhs } => {
            let l = simplify(*lhs);
            let r2 = simplify(*rhs);
            normalize_root(Expr::Binary { op, lhs: Box::new(l), rhs: Box::new(r2) })
        }
        other => other,
    }
}

} // verus!
