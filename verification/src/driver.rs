//! The search driver's decision logic.
//!
//! One immutable configuration value is built at startup and passed by
//! reference into the generator, the fit engine and the driver; the outer
//! loop itself (residual evaluation and reporting are floating point and
//! I/O) runs outside and consults these verified decisions: `prepare` turns
//! a generated tree into a fit-ready candidate or rejects it over the
//! parameter cap, and `should_stop` evaluates the optional stop conditions.

use vstd::prelude::*;
use crate::expr::{Expr, pnames, size, wf_expr, param_count, first_names};
use crate::fx::{PARAM_RAW_MIN, PARAM_RAW_MAX, RAW_DOMAIN_LIMIT, STEP_LIMIT};
use crate::generate::MAX_PARAM_NAMES;
use crate::params::{Candidate, candidate_wf, make_candidate};
use crate::random::Rand;
use crate::rename::{canonicalize, rename_spec};
use crate::simplify::{simp, simplify};

verus! {

/// Which aggregate residual the search minimizes.
#[derive(Clone, Copy, Debug, PartialEq, Eq, Structural)]
pub enum ResidualKind {
    LeastSquares,
    AbsoluteError,
}

/// Which local optimizer fits the parameters.
#[derive(Clone, Copy, Debug, PartialEq, Eq, Structural)]
pub enum FitAlgorithmKind {
    PatternSearch,
}

/// The one configuration value of a run.
pub struct Config {
    /// Largest parameter count a candidate may carry into the fit engine.
    pub max_params: usize,
    /// Parameter domain (raw millionths).
    pub param_raw_min: i64,
    pub param_raw_max: i64,
    /// Initial per-parameter step of the fit engine (raw).
    pub step_init_raw: i64,
    /// The fit engine converges when every step falls below this (raw).
    pub min_step_raw: i64,
    /// The fit engine gives up after this many iterations.
    pub fit_max_iters: u32,
    /// Complexity budget range the generator draws from.
    pub complexity_min: u32,
    pub complexity_max: u32,
    /// Residual and optimizer selection.
    pub residual: ResidualKind,
    pub algorithm: FitAlgorithmKind,
    /// Optional stop conditions; `None` leaves the search unbounded.
    pub max_generated: Option<u64>,
    pub max_fitted: Option<u64>,
    pub max_duration_secs: Option<u64>,
}

impl Config {
    /// The configuration invariant: a non-empty parameter domain within the
    /// engine's arithmetic limits, a positive minimum step, at least one fit
    /// iteration, and an ordered complexity range.
    pub open spec fn wf(self) -> bool {
        &&& -RAW_DOMAIN_LIMIT <= self.param_raw_min <= self.param_raw_max <= RAW_DOMAIN_LIMIT
        &&& 1 <= self.min_step_raw <= STEP_LIMIT
        &&& 0 <= self.step_init_raw <= STEP_LIMIT
        &&& self.fit_max_iters >= 1
        &&& self.complexity_min <= self.complexity_max
        &&& self.max_params <= MAX_PARAM_NAMES
    }
}

/// The default configuration: parameters in `[-5, 5]` with at most 7 of
/// them, steps from 1 down to a millionth of the domain width times ten
/// (raw 1000, standing for 0.001), at most 1000 fit iterations, complexity
/// drawn from 10 to 30, least-squares residual, pattern search, no stop
/// condition.
pub fn default_config() -> (c: Config)
    ensures
        c.wf(),
        c.max_params == 7,
        c.param_raw_min == PARAM_RAW_MIN,
        c.param_raw_max == PARAM_RAW_MAX,
        c.step_init_raw == 1_000_000,
        c.min_step_raw == 1_000,
        c.fit_max_iters == 1_000,
        c.complexity_min == 10,
        c.complexity_max == 30,
        c.residual == ResidualKind::LeastSquares,
        c.algorithm == FitAlgorithmKind::PatternSearch,
        c.max_generated is None,
        c.max_fitted is None,
        c.max_duration_secs is None,
{
    Config {
        max_params: 7,
        param_raw_min: PARAM_RAW_MIN,
        param_raw_max: PARAM_RAW_MAX,
        step_init_raw: 1_000_000,
        min_step_raw: 1_000,
        fit_max_iters: 1_000,
        complexity_min: 10,
        complexity_max: 30,
        residual: ResidualKind::LeastSquares,
        algorithm: FitAlgorithmKind::PatternSearch,
        max_generated: None,
        max_fitted: None,
        max_duration_secs: None,
    }
}

/// Should the search loop stop? Exactly when a configured cap on generated
/// candidates, fitted candidates or elapsed seconds is reached.
pub fn should_stop(c: &Config, generated: u64, fitted: u64, elapsed_secs: u64) -> (r: bool)
    ensures
        r <==> ((c.max_generated matches Some(g) && generated >= g) || (c.max_fitted
            matches Some(f) && fitted >= f) || (c.max_duration_secs matches Some(d)
            && elapsed_secs >= d)),
{
    let gen_hit = match c.max_generated {
        Some(g) => generated >= g,
        None => false,
    };
    let fit_hit = match c.max_fitted {
        Some(f) => fitted >= f,
        None => false,
    };
    let time_hit = match c.max_duration_secs {
        Some(d) => elapsed_secs >= d,
        None => false,
    };
    gen_hit || fit_hit || time_hit
}

/// The parameter-cap gate: may a candidate with this many parameters be
/// passed to the fit engine?
pub fn cap_ok(c: &Config, n_params: usize) -> (r: bool)
    ensures
        r <==> n_params <= c.max_params,
{
    n_params <= c.max_params
}

/// Turn a generated tree into a fit-ready candidate: simplify it, reject it
/// when more parameters survive than the configured cap allows, rename the
/// survivors to the canonical fresh sequence, and draw an initial value
/// inside the domain for each of them. `None` is returned exactly over the
/// cap, so no candidate beyond the cap ever reaches the fit engine.
pub fn prepare(e: Expr, c: &Config, rng: &mut Rand) -> (r: Option<Candidate>)
    requires
        wf_expr(e),
        c.wf(),
    ensures
        r is None <==> pnames(simp(e)).len() > c.max_params,
        r matches Some(cand) ==> {
            &&& cand.expr == rename_spec(simp(e), first_names(simp(e)))
            &&& pnames(cand.expr).len() <= c.max_params
            &&& size(cand.expr) <= size(e)
            &&& candidate_wf(cand, c.param_raw_min, c.param_raw_max)
        },
{
    let s = simplify(e);
    let n = param_count(&s);
    if n > c.max_params {
        return None;
    }
    let canonical = canonicalize(&s);
    Some(make_candidate(canonical, rng, c.param_raw_min, c.param_raw_max))
}

} // verus!
