//! The randomized expression generator.
//!
//! `generate` builds a tree recursively under a complexity budget: with the
//! budget spent, a leaf is forced; otherwise a leaf or an operator is chosen
//! at random, and an operator splits the decremented budget among its
//! children. Each new parameter receives a fresh single-letter name; the
//! strictly decreasing budget bounds the recursion (termination is checked),
//! the tree size by `2 * budget + 1`, and the number of distinct parameters
//! by `budget + 1`.

use vstd::prelude::*;
use vstd::set_lib::lemma_len_union;
use crate::expr::{Expr, UnOp, BinOp, size, pnames, wf_expr, valid_name, lemma_pnames_finite};
use crate::fx::PARAM_RAW_MAX;
use crate::random::Rand;

verus! {

/// How many distinct fresh parameter names exist: the lowercase letters
/// other than the reserved `x`.
pub const MAX_PARAM_NAMES: u8 = 25;

/// The fresh-name sequence: `a` to `w`, then `y`, `z` (skipping `x`).
pub open spec fn letter_of(i: int) -> u8 {
    if i <= 22 {
        (97 + i) as u8
    } else {
        (98 + i) as u8
    }
}

/// Executable form of `letter_of`.
fn letter_of_exec(i: u8) -> (r: u8)
    requires
        i < MAX_PARAM_NAMES,
    ensures
        r == letter_of(i as int),
        valid_name(r),
{
    if i <= 22 {
        97 + i
    } else {
        98 + i
    }
}

/// What the generator guarantees of a subtree built with `budget` while the
/// fresh-name counter ran from `n0` to `n1`.
pub open spec fn gen_post(e: Expr, budget: u32, n0: u8, n1: u8) -> bool {
    &&& wf_expr(e)
    &&& n0 <= n1 <= MAX_PARAM_NAMES
    &&& n1 - n0 <= budget + 1
    &&& size(e) <= 2 * (budget as int) + 1
    &&& pnames(e).finite()
    &&& pnames(e).len() <= n1 - n0
    &&& (forall|n: u8| pnames(e).contains(n) <==> exists|j: int|
        n0 <= j < n1 && n == #[trigger] letter_of(j))
}

/// A random leaf: the variable, a constant drawn from `[0, 5]` (raw
/// millionths), or a freshly named parameter while fresh names remain.
fn gen_leaf(rng: &mut Rand, next_name: u8) -> (res: (Expr, u8))
    requires
        next_name <= MAX_PARAM_NAMES,
    ensures
        gen_post(res.0, 0, next_name, res.1),
        size(res.0) == 1,
{
    let choice = rng.next_u32(0, 9);
    if choice <= 3 {
        (Expr::X, next_name)
    } else if choice <= 6 && next_name < MAX_PARAM_NAMES {
        let name = letter_of_exec(next_name);
        let e = Expr::Par { name };
        proof {
            assert(pnames(e) =~= Set::<u8>::empty().insert(name));
            assert(pnames(e).len() == 1);
        }
        (e, next_name + 1)
    } else {
        let raw = rng.next_i64(0, PARAM_RAW_MAX);
        (Expr::Const { raw }, next_name)
    }
}

/// Build a random subtree under the given budget, drawing fresh parameter
/// names from `next_name` on. Returns the tree and the new name counter.
fn gen_expr(rng: &mut Rand, budget: u32, next_name: u8) -> (res: (Expr, u8))
    requires
        next_name <= MAX_PARAM_NAMES,
    ensures
        gen_post(res.0, budget, next_name, res.1),
    decreases budget,
{
    if budget == 0 {
        gen_leaf(rng, next_name)
    } else {
        let choice = rng.next_u32(0, 9);
        if choice <= 1 {
            let (e, n1) = gen_leaf(rng, next_name);
            (e, n1)
        } else if choice <= 4 {
            let opsel = rng.next_u32(0, 3);
            let op = if opsel == 0 {
                UnOp::Neg
            } else if opsel == 1 {
                UnOp::Sin
            } else if opsel == 2 {
                UnOp::Cos
            } else {
                UnOp::Exp
            };
            let (child, n1) = gen_expr(rng, budget - 1, next_name);
            let e = Expr::Unary { op, arg: Box::new(child) };
            proof {
                assert(size(e) == 1 + size(child));
                assert(pnames(e) == pnames(child));
            }
            (e, n1)
        } else {
            let opsel = rng.next_u32(0, 4);
            let op = if opsel == 0 {
                BinOp::Add
            } else if opsel == 1 {
                BinOp::Sub
            } else if opsel == 2 {
                BinOp::Mul
            } else if opsel == 3 {
                BinOp::Div
            } else {
                BinOp::Pow
            };
            let cut = rng.next_u32(0, budget - 1);
            let (l, n1) = gen_expr(rng, cut, next_name);
            let (r, n2) = gen_expr(rng, budget - 1 - cut, n1);
            let e = Expr::Binary { op, lhs: Box::new(l), rhs: Box::new(r) };
            proof {
                assert(size(e) == 1 + size(l) + size(r));
                assert(pnames(e) == pnames(l).union(pnames(r)));
                lemma_len_union(pnames(l), pnames(r));
            }
            (e, n2)
        }
    }
}

/// Generate one random expression tree under the given complexity budget.
/// The call always returns (the recursion is bounded by the budget); the
/// result is well-formed, holds at most `2 * budget + 1` nodes, and at most
/// `budget + 1` distinct parameters.
/// The first `k` names of the fresh-letter sequence.
pub open spec fn letters_upto(k: int) -> Set<u8> {
    Set::new(|n: u8| exists|j: int| 0 <= j < k && n == #[trigger] letter_of(j))
}

/// The names drawn are exactly the first fresh letters: a prefix of the
/// fresh-name sequence whose length the budget bounds.
pub fn generate(rng: &mut Rand, budget: u32) -> (e: Expr)
    ensures
        wf_expr(e),
        size(e) <= 2 * (budget as int) + 1,
        pnames(e).finite(),
        pnames(e).len() <= budget + 1,
        exists|used: int| 0 <= used <= budget + 1 && pnames(e) == #[trigger] letters_upto(used),
{
    let (e, names_used) = gen_expr(rng, budget, 0);
    proof {
        assert(pnames(e) =~= letters_upto(names_used as int));
        assert(0 <= names_used as int <= budget + 1 && pnames(e) == letters_upto(
            names_used as int,
        ));
    }
    e
}

} // verus!
