//! The pattern-search fit engine.
//!
//! The engine is a state machine over the parameter set alone; the residual
//! itself is computed outside (it is floating point) and only the outcome of
//! each comparison — did the probed parameter vector strictly decrease the
//! residual? — is reported back. Per iteration every parameter is probed at
//! `value + step` and `value - step` (clamped to the domain), the first
//! improving perturbation is accepted; a full sweep without improvement
//! halves every step; the search converges when every step falls below the
//! minimum, and gives up when the iteration count reaches the cap.
//!
//! Driving the machine: while `probe` returns a parameter vector, evaluate
//! the residual there and call `report`; the machine reaches `Converged` or
//! `IterCap` after at most `2 * n * max_iters` reports.

use vstd::prelude::*;
use crate::fx::{RAW_DOMAIN_LIMIT, STEP_LIMIT, clamp_int};
use crate::params::{Param, params_wf};

verus! {

/// Why a fit failed: the step sizes never fell below the minimum within the
/// iteration cap, the residual was non-finite at the end, or there was
/// nothing to optimize.
#[derive(Clone, Copy, Debug, PartialEq, Eq, Structural)]
pub enum FitError {
    NotConverged,
    Diverged,
    NoParameters,
}

/// Where the search stands.
#[derive(Clone, Copy, Debug, PartialEq, Eq, Structural)]
pub enum FitStatus {
    Running,
    Converged,
    IterCap,
}

/// The pattern-search state: current parameter values, per-parameter step
/// sizes, the position of the sweep, and the iteration count.
pub struct FitEngine {
    pub params: Vec<Param>,
    pub steps: Vec<i64>,
    pub idx: usize,
    pub trying_neg: bool,
    pub improved_any: bool,
    pub iters: u32,
    pub status: FitStatus,
    pub lo: i64,
    pub hi: i64,
    pub min_step: i64,
    pub max_iters: u32,
}

impl FitEngine {
    /// The engine invariant. In particular: every parameter value lies within
    /// `[lo, hi]` at all times, `Converged` means every step size has fallen
    /// below the minimum, and `IterCap` means the iteration cap was reached.
    pub open spec fn wf(self) -> bool {
        &&& self.params@.len() >= 1
        &&& self.steps@.len() == self.params@.len()
        &&& -RAW_DOMAIN_LIMIT <= self.lo <= self.hi <= RAW_DOMAIN_LIMIT
        &&& 1 <= self.min_step <= STEP_LIMIT
        &&& self.max_iters >= 1
        &&& params_wf(self.params@, self.lo, self.hi)
        &&& (forall|i: int| 0 <= i < self.steps@.len() ==> 0 <= #[trigger] self.steps@[i]
            <= STEP_LIMIT)
        &&& self.idx < self.params@.len()
        &&& self.iters <= self.max_iters
        &&& (self.status is Running ==> self.iters < self.max_iters)
        &&& (self.status is Converged ==> forall|i: int|
            0 <= i < self.steps@.len() ==> #[trigger] self.steps@[i] < self.min_step)
        &&& (self.status is IterCap ==> self.iters >= self.max_iters)
    }

    /// Does a report with this outcome move the sweep position on? An
    /// improvement always does; a failed probe does only once both
    /// directions have been tried.
    pub open spec fn advances(self, improved: bool) -> bool {
        improved || self.trying_neg
    }

    /// Does a report with this outcome end the sweep?
    pub open spec fn sweep_wraps(self, improved: bool) -> bool {
        self.advances(improved) && self.idx + 1 == self.params@.len()
    }

    /// Has any probe of the current sweep improved, this one included?
    pub open spec fn sweep_improved(self, improved: bool) -> bool {
        improved || self.improved_any
    }

    /// The parameter value the current probe proposes: the current value
    /// moved one step up or down, clamped to the domain.
    pub open spec fn probe_target(self) -> int {
        let v = self.params@[self.idx as int].value_raw as int;
        let s = self.steps@[self.idx as int] as int;
        if self.trying_neg {
            clamp_int(v - s, self.lo as int, self.hi as int)
        } else {
            clamp_int(v + s, self.lo as int, self.hi as int)
        }
    }

    /// Start a fit over the given parameters. An empty parameter set cannot
    /// be optimized and is rejected with `NoParameters`; otherwise the engine
    /// starts running with every step at `step_init` and zero iterations.
    pub fn new(
        params: Vec<Param>,
        lo: i64,
        hi: i64,
        step_init: i64,
        min_step: i64,
        max_iters: u32,
    ) -> (r: Result<FitEngine, FitError>)
        requires
            -RAW_DOMAIN_LIMIT <= lo <= hi <= RAW_DOMAIN_LIMIT,
            1 <= min_step <= STEP_LIMIT,
            0 <= step_init <= STEP_LIMIT,
            max_iters >= 1,
            params_wf(params@, lo, hi),
        ensures
            params@.len() == 0 ==> r == Err::<FitEngine, FitError>(FitError::NoParameters),
            params@.len() > 0 ==> (r matches Ok(f) && {
                &&& f.wf()
                &&& f.params@ == params@
                &&& f.iters == 0
                &&& f.status is Running
                &&& forall|i: int| 0 <= i < f.steps@.len() ==> #[trigger] f.steps@[i] == step_init
            }),
    {
        if params.len() == 0 {
            return Err(FitError::NoParameters);
        }
        let n = params.len();
        let mut steps: Vec<i64> = Vec::new();
        let mut i: usize = 0;
        while i < n
            invariant
                i <= n,
                steps@.len() == i,
                forall|k: int| 0 <= k < i ==> #[trigger] steps@[k] == step_init,
            decreases n - i,
        {
            steps.push(step_init);
            i += 1;
        }
        Ok(FitEngine {
            params,
            steps,
            idx: 0,
            trying_neg: false,
            improved_any: false,
            iters: 0,
            status: FitStatus::Running,
            lo,
            hi,
            min_step,
            max_iters,
        })
    }

    /// The parameter vector to evaluate next, or `None` once the search has
    /// ended. The probe differs from the current values only at the sweep
    /// position, and stays within the domain.
    pub fn probe(&self) -> (r: Option<Vec<Param>>)
        requires
            self.wf(),
        ensures
            r is Some <==> self.status is Running,
            r matches Some(p) ==> {
                &&& p@.len() == self.params@.len()
                &&& (forall|i: int| 0 <= i < p@.len() ==> #[trigger] p@[i].name
                    == self.params@[i].name)
                &&& (forall|i: int| 0 <= i < p@.len() && i != self.idx ==> #[trigger] p@[i]
                    == self.params@[i])
                &&& p@[self.idx as int].value_raw == self.probe_target()
                &&& params_wf(p@, self.lo, self.hi)
            },
    {
        match self.status {
            FitStatus::Running => {
                let n = self.params.len();
                let mut p: Vec<Param> = Vec::new();
                let mut i: usize = 0;
                while i < n
                    invariant
                        i <= n,
                        n == self.params@.len(),
                        p@.len() == i,
                        forall|k: int| 0 <= k < i ==> #[trigger] p@[k] == self.params@[k],
                    decreases n - i,
                {
                    p.push(self.params[i]);
                    i += 1;
                }
                let v = self.params[self.idx].value_raw;
                let s = self.steps[self.idx];
                let moved = if self.trying_neg {
                    v - s
                } else {
                    v + s
                };
                let clamped = if moved < self.lo {
                    self.lo
                } else if moved > self.hi {
                    self.hi
                } else {
                    moved
                };
                let name = self.params[self.idx].name;
                p[self.idx] = Param { name, value_raw: clamped };
                Some(p)
            }
            _ => None,
        }
    }

    /// Halve every step size.
    fn halve_steps(&mut self)
        requires
            forall|i: int| 0 <= i < old(self).steps@.len() ==> 0 <= #[trigger] old(
                self,
            ).steps@[i] <= STEP_LIMIT,
        ensures
            *final(self) == (FitEngine { steps: final(self).steps, ..*old(self) }),
            final(self).steps@.len() == old(self).steps@.len(),
            forall|i: int| 0 <= i < final(self).steps@.len() ==> #[trigger] final(self).steps@[i]
                == old(self).steps@[i] / 2,
    {
        let n = self.steps.len();
        let mut i: usize = 0;
        while i < n
            invariant
                forall|k: int| 0 <= k < old(self).steps@.len() ==> 0 <= #[trigger] old(
                    self,
                ).steps@[k] <= STEP_LIMIT,
                i <= n,
                n == self.steps@.len(),
                self.steps@.len() == old(self).steps@.len(),
                *self == (FitEngine { steps: self.steps, ..*old(self) }),
                forall|k: int| 0 <= k < i ==> #[trigger] self.steps@[k] == old(self).steps@[k]
                    / 2,
                forall|k: int| i <= k < n ==> #[trigger] self.steps@[k] == old(self).steps@[k],
            decreases n - i,
        {
            proof {
                assert(0 <= old(self).steps@[i as int] <= STEP_LIMIT);
            }
            let halved = self.steps[i] / 2;
            self.steps[i] = halved;
            i += 1;
        }
    }

    /// Is every step size below the minimum?
    fn all_steps_below_min(&self) -> (r: bool)
        requires
            self.steps@.len() >= 1,
        ensures
            r <==> (forall|i: int| 0 <= i < self.steps@.len() ==> #[trigger] self.steps@[i]
                < self.min_step),
    {
        let n = self.steps.len();
        let mut i: usize = 0;
        while i < n
            invariant
                i <= n,
                n == self.steps@.len(),
                forall|k: int| 0 <= k < i ==> #[trigger] self.steps@[k] < self.min_step,
            decreases n - i,
        {
            if self.steps[i] >= self.min_step {
                return false;
            }
            i += 1;
        }
        true
    }

    /// Report whether the residual at the current probe strictly improved on
    /// the residual at the current values. An improvement moves the probed
    /// parameter to its probed value; either way the sweep advances, and at
    /// the end of a sweep without improvement every step is halved. The
    /// parameter names never change and every value stays within the domain.
    pub fn report(&mut self, improved: bool)
        requires
            old(self).wf(),
            old(self).status is Running,
        ensures
            final(self).wf(),
            final(self).lo == old(self).lo,
            final(self).hi == old(self).hi,
            final(self).min_step == old(self).min_step,
            final(self).max_iters == old(self).max_iters,
            final(self).params@.len() == old(self).params@.len(),
            forall|i: int| 0 <= i < final(self).params@.len()
                ==> #[trigger] final(self).params@[i].name == old(self).params@[i].name,
            improved ==> final(self).params@ == old(self).params@.update(
                old(self).idx as int,
                Param {
                    name: old(self).params@[old(self).idx as int].name,
                    value_raw: old(self).probe_target() as i64,
                },
            ),
            !improved ==> final(self).params@ == old(self).params@,
            final(self).iters >= old(self).iters,
            // A failed positive probe only turns to the negative direction.
            !old(self).advances(improved) ==> *final(self) == (FitEngine {
                trying_neg: true,
                ..*old(self)
            }),
            // Otherwise the sweep moves to the next parameter, positive first.
            old(self).advances(improved) ==> final(self).trying_neg == false,
            old(self).advances(improved) && !old(self).sweep_wraps(improved) ==> {
                &&& final(self).idx == old(self).idx + 1
                &&& final(self).improved_any == old(self).sweep_improved(improved)
                &&& final(self).iters == old(self).iters
                &&& final(self).steps@ == old(self).steps@
                &&& final(self).status == old(self).status
            },
            // At the end of a sweep the iteration count goes up by one, the
            // sweep restarts, every step halves exactly when no probe of the
            // sweep improved, and the search converges exactly when every
            // step has fallen below the minimum, else hits the cap exactly
            // when the iteration count reaches it.
            old(self).sweep_wraps(improved) ==> {
                &&& final(self).idx == 0
                &&& final(self).improved_any == false
                &&& final(self).iters == old(self).iters + 1
                &&& (old(self).sweep_improved(improved) ==> final(self).steps@ == old(
                    self,
                ).steps@)
                &&& (!old(self).sweep_improved(improved) ==> final(self).steps@.len() == old(
                    self,
                ).steps@.len() && (forall|i: int|
                    0 <= i < final(self).steps@.len() ==> #[trigger] final(self).steps@[i] == old(
                        self,
                    ).steps@[i] / 2))
                &&& (final(self).status is Converged <==> (forall|i: int|
                    0 <= i < final(self).steps@.len() ==> #[trigger] final(self).steps@[i] < old(
                        self,
                    ).min_step))
                &&& (final(self).status is IterCap <==> (!(forall|i: int|
                    0 <= i < final(self).steps@.len() ==> #[trigger] final(self).steps@[i] < old(
                        self,
                    ).min_step) && old(self).iters + 1 >= old(self).max_iters))
            },
    {
        let ghost pre = *self;
        let n = self.params.len();
        if improved {
            let idx = self.idx;
            proof {
                assert(idx < n);
            }
            let v = self.params[idx].value_raw;
            let s = self.steps[idx];
            let moved = if self.trying_neg {
                v - s
            } else {
                v + s
            };
            let clamped = if moved < self.lo {
                self.lo
            } else if moved > self.hi {
                self.hi
            } else {
                moved
            };
            let name = self.params[idx].name;
            self.params[idx] = Param { name, value_raw: clamped };
            self.improved_any = true;
            self.trying_neg = false;
            self.idx = idx + 1;
            proof {
                assert(self.params@ == pre.params@.update(
                    pre.idx as int,
                    Param { name: pre.params@[pre.idx as int].name, value_raw: pre.probe_target() as i64 },
                ));
                assert(params_wf(self.params@, self.lo, self.hi));
            }
        } else {
            if !self.trying_neg {
                self.trying_neg = true;
                return;
            }
            proof {
                assert(self.idx < n);
            }
            self.trying_neg = false;
            self.idx = self.idx + 1;
        }
        if self.idx == self.params.len() {
            self.idx = 0;
            self.iters = self.iters + 1;
            if !self.improved_any {
                self.halve_steps();
            }
            self.improved_any = false;
            if self.all_steps_below_min() {
                self.status = FitStatus::Converged;
            } else if self.iters >= self.max_iters {
                self.status = FitStatus::IterCap;
            }
        }
    }

    /// The iterations used so far.
    pub fn iterations(&self) -> (r: u32)
        ensures
            r == self.iters,
    {
        self.iters
    }
}

/// Law: in any well-formed fit engine state — so after any run, however it
/// was driven — every parameter value lies within the configured domain.
pub proof fn lemma_fit_bounds(f: FitEngine)
    requires
        f.wf(),
    ensures
        forall|i: int| 0 <= i < f.params@.len() ==> f.lo <= #[trigger] f.params@[i].value_raw
            <= f.hi,
{
}

/// Turn a finished search and the finiteness of the final residual into the
/// fit result: iterations used on convergence with a finite residual;
/// `Diverged` on convergence with a non-finite residual; `NotConverged` when
/// the iteration cap ended the search.
pub fn fit_verdict(status: FitStatus, residual_is_finite: bool, iters: u32) -> (r: Result<
    u32,
    FitError,
>)
    requires
        !(status is Running),
    ensures
        status is Converged && residual_is_finite ==> r == Ok::<u32, FitError>(iters),
        status is Converged && !residual_is_finite ==> r == Err::<u32, FitError>(
            FitError::Diverged,
        ),
        status is IterCap ==> r == Err::<u32, FitError>(FitError::NotConverged),
{
    match status {
        FitStatus::Converged => {
            if residual_is_finite {
                Ok(iters)
            } else {
                Err(FitError::Diverged)
            }
        }
        _ => Err(FitError::NotConverged),
    }
}

} // verus!
