//! Parameter sets and candidates.
//!
//! A parameter is a named scalar with a current fixed-point value; a
//! parameter set is an ordered sequence of them with unique names and values
//! inside the configured domain. A candidate pairs an expression with the
//! parameter set of exactly the names occurring in it.

use vstd::prelude::*;
use crate::expr::{Expr, pnames, wf_expr, param_names};
use crate::random::Rand;

verus! {

/// A named scalar variable with its current value (raw millionths).
#[derive(Clone, Copy, Debug, PartialEq, Eq, Structural)]
pub struct Param {
    pub name: u8,
    pub value_raw: i64,
}

/// Names unique, every value within `[lo, hi]`.
pub open spec fn params_wf(s: Seq<Param>, lo: i64, hi: i64) -> bool {
    &&& (forall|i: int, j: int| 0 <= i < j < s.len() ==> s[i].name != s[j].name)
    &&& (forall|i: int| 0 <= i < s.len() ==> lo <= #[trigger] s[i].value_raw <= hi)
}

/// The names of a parameter sequence, as a set.
pub open spec fn param_name_set(s: Seq<Param>) -> Set<u8> {
    s.map_values(|p: Param| p.name).to_set()
}

/// An expression together with the parameters the fit engine must optimize.
pub struct Candidate {
    pub expr: Expr,
    pub params: Vec<Param>,
}

/// The candidate invariant: a well-formed tree, a well-formed parameter
/// sequence, and the parameter names exactly those occurring in the tree —
/// no orphan and no missing name.
pub open spec fn candidate_wf(c: Candidate, lo: i64, hi: i64) -> bool {
    &&& wf_expr(c.expr)
    &&& params_wf(c.params@, lo, hi)
    &&& param_name_set(c.params@) == pnames(c.expr)
}

/// Pair the expression with its parameter set, every parameter receiving an
/// initial value drawn uniformly from `[lo, hi]`.
pub fn make_candidate(e: Expr, rng: &mut Rand, lo: i64, hi: i64) -> (c: Candidate)
    requires
        wf_expr(e),
        lo <= hi,
    ensures
        candidate_wf(c, lo, hi),
        c.expr == e,
        c.params@.len() == pnames(e).len(),
{
    let names = param_names(&e);
    let mut params: Vec<Param> = Vec::new();
    let mut i: usize = 0;
    while i < names.len()
        invariant
            i <= names@.len(),
            params@.len() == i,
            lo <= hi,
            forall|k: int| 0 <= k < i ==> params@[k].name == names@[k],
            forall|k: int| 0 <= k < i ==> lo <= #[trigger] params@[k].value_raw <= hi,
        decreases names@.len() - i,
    {
        let value_raw = rng.next_i64(lo, hi);
        params.push(Param { name: names[i], value_raw });
        i += 1;
    }
    proof {
        assert(params@.map_values(|p: Param| p.name) =~= names@);
        assert(param_name_set(params@) == names@.to_set());
        assert(names@.no_duplicates());
        assert forall|i: int, j: int| 0 <= i < j < params@.len() implies params@[i].name
            != params@[j].name by {
            assert(names@[i] != names@[j]);
        };
        assert(params_wf(params@, lo, hi));
    }
    Candidate { expr: e, params }
}

} // verus!
