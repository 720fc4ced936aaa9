//! The algebraic expression tree: one independent variable `x`, named
//! single-letter parameters, fixed-point constants, unary functions and the
//! five binary operators.

use vstd::prelude::*;
use vstd::set_lib::lemma_len_union;
use crate::fx::const_in_range;

verus! {

broadcast use vstd::seq_lib::lemma_seq_contains_after_push;

#[derive(Clone, Copy, Debug, PartialEq, Eq, Structural)]
pub enum UnOp {
    Neg,
    Sin,
    Cos,
    Exp,
}

#[derive(Clone, Copy, Debug, PartialEq, Eq, Structural)]
pub enum BinOp {
    Add,
    Sub,
    Mul,
    Div,
    Pow,
}

/// A finite expression tree. `Const` holds a raw fixed-point value
/// (millionths); `Par` holds a single-letter parameter name (its ASCII byte).
#[derive(Debug, PartialEq, Eq)]
pub enum Expr {
    Const { raw: i64 },
    X,
    Par { name: u8 },
    Unary { op: UnOp, arg: Box<Expr> },
    Binary { op: BinOp, lhs: Box<Expr>, rhs: Box<Expr> },
}

/// A parameter name is a lowercase ASCII letter other than `x`, which is
/// reserved for the independent variable.
pub open spec fn valid_name(name: u8) -> bool {
    97 <= name <= 122 && name != 120
}

/// Number of nodes in the tree.
pub open spec fn size(e: Expr) -> nat
    decreases e,
{
    match e {
        Expr::Unary { arg, .. } => 1 + size(*arg),
        Expr::Binary { lhs, rhs, .. } => 1 + size(*lhs) + size(*rhs),
        _ => 1,
    }
}

/// The set of parameter names occurring in the tree.
pub open spec fn pnames(e: Expr) -> Set<u8>
    decreases e,
{
    match e {
        Expr::Par { name } => Set::empty().insert(name),
        Expr::Unary { arg, .. } => pnames(*arg),
        Expr::Binary { lhs, rhs, .. } => pnames(*lhs).union(pnames(*rhs)),
        _ => Set::<u8>::empty(),
    }
}

/// Well-formedness: constants stay within the representable range and
/// parameter names are valid letters.
pub open spec fn wf_expr(e: Expr) -> bool
    decreases e,
{
    match e {
        Expr::Const { raw } => const_in_range(raw),
        Expr::X => true,
        Expr::Par { name } => valid_name(name),
        Expr::Unary { arg, .. } => wf_expr(*arg),
        Expr::Binary { lhs, rhs, .. } => wf_expr(*lhs) && wf_expr(*rhs),
    }
}

pub proof fn lemma_pnames_finite(e: Expr)
    ensures
        pnames(e).finite(),
        pnames(e).len() <= size(e),
    decreases e,
{
    match e {
        Expr::Unary { arg, .. } => {
            lemma_pnames_finite(*arg);
        }
        Expr::Binary { lhs, rhs, .. } => {
            lemma_pnames_finite(*lhs);
            lemma_pnames_finite(*rhs);
            lemma_len_union(pnames(*lhs), pnames(*rhs));
        }
        _ => {}
    }
}

/// A structure-preserving copy: the result is equal to the input.
pub fn deep_copy(e: &Expr) -> (r: Expr)
    ensures
        r == *e,
    decreases *e,
{
    match e {
        Expr::Const { raw } => Expr::Const { raw: *raw },
        Expr::X => Expr::X,
        Expr::Par { name } => Expr::Par { name: *name },
        Expr::Unary { op, arg } => Expr::Unary { op: *op, arg: Box::new(deep_copy(&**arg)) },
        Expr::Binary { op, lhs, rhs } => Expr::Binary {
            op: *op,
            lhs: Box::new(deep_copy(&**lhs)),
            rhs: Box::new(deep_copy(&**rhs)),
        },
    }
}

/// Number of nodes, executable form.
pub fn node_count(e: &Expr) -> (n: u64)
    requires
        size(*e) <= u64::MAX,
    ensures
        n == size(*e),
    decreases *e,
{
    match e {
        Expr::Unary { arg, .. } => 1 + node_count(&**arg),
        Expr::Binary { lhs, rhs, .. } => {
            let a = node_count(&**lhs);
            let b = node_count(&**rhs);
            1 + a + b
        }
        _ => 1,
    }
}

/// The accumulator extended with the tree's parameter names in order of
/// first occurrence (depth-first, left to right), skipping names already
/// collected.
pub open spec fn names_in_order(e: Expr, acc: Seq<u8>) -> Seq<u8>
    decreases e,
{
    match e {
        Expr::Par { name } => if acc.contains(name) {
            acc
        } else {
            acc.push(name)
        },
        Expr::Unary { arg, .. } => names_in_order(*arg, acc),
        Expr::Binary { lhs, rhs, .. } => names_in_order(*rhs, names_in_order(*lhs, acc)),
        _ => acc,
    }
}

/// The tree's distinct parameter names in order of first occurrence.
pub open spec fn first_names(e: Expr) -> Seq<u8> {
    names_in_order(e, Seq::empty())
}

fn vec_contains(v: &Vec<u8>, x: u8) -> (r: bool)
    ensures
        r <==> v@.contains(x),
{
    let mut i: usize = 0;
    while i < v.len()
        invariant
            i <= v@.len(),
            forall|j: int| 0 <= j < i ==> v@[j] != x,
        decreases v@.len() - i,
    {
        if v[i] == x {
            return true;
        }
        i += 1;
    }
    false
}

fn push_params(e: &Expr, acc: &mut Vec<u8>)
    requires
        old(acc)@.no_duplicates(),
    ensures
        final(acc)@ == names_in_order(*e, old(acc)@),
        final(acc)@.no_duplicates(),
        final(acc)@.to_set() == old(acc)@.to_set().union(pnames(*e)),
        final(acc)@.len() >= old(acc)@.len(),
    decreases *e,
{
    match e {
        Expr::Par { name } => {
            if !vec_contains(acc, *name) {
                acc.push(*name);
            }
            proof {
                assert(acc@.to_set() =~= old(acc)@.to_set().union(pnames(*e)));
            }
        }
        Expr::Unary { arg, .. } => {
            push_params(&**arg, acc);
        }
        Expr::Binary { lhs, rhs, .. } => {
            push_params(&**lhs, acc);
            push_params(&**rhs, acc);
            proof {
                assert(acc@.to_set() =~= old(acc)@.to_set().union(pnames(*e)));
            }
        }
        _ => {
            proof {
                assert(acc@.to_set() =~= old(acc)@.to_set().union(pnames(*e)));
            }
        }
    }
}

/// The distinct parameter names of the tree, in order of first occurrence:
/// exactly `first_names`.
pub fn param_names(e: &Expr) -> (names: Vec<u8>)
    ensures
        names@ == first_names(*e),
        names@.no_duplicates(),
        names@.to_set() == pnames(*e),
        names@.len() == pnames(*e).len(),
{
    let mut names: Vec<u8> = Vec::new();
    proof {
        assert(names@.to_set() =~= Set::<u8>::empty());
    }
    push_params(e, &mut names);
    proof {
        assert(names@.to_set() =~= pnames(*e));
        names@.unique_seq_to_set();
    }
    names
}

/// How many distinct parameter names the tree holds.
pub fn param_count(e: &Expr) -> (n: usize)
    ensures
        n == pnames(*e).len(),
{
    let names = param_names(e);
    names.len()
}

} // verus!
