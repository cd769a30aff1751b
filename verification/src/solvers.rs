//! Solvers: registration and what a solver says of itself.
use vstd::prelude::*;
use crate::contract::{
    lemma_keys_are_distinct, lemma_solvers_changed_keeps_well_formed, ContractView,
    OracleIntentContract,
};
use crate::error::OracleError;
use crate::store::{has_key, lemma_changed_in_place, lemma_replace_at, replace, Keyed};
use crate::types::{
    lemma_views_push, lemma_views_update, views, MetricsView, OracleSolver, SolverStake,
    SolverView, StakeView,
};

verus! {

impl ContractView {
    /// Why a registration as solver is refused, if it is: the stake is below
    /// the minimum.
    pub open spec fn register_solver_error(self, stake: u128) -> Option<OracleError> {
        if stake < self.min_stake {
            Some(OracleError::InsufficientStake)
        } else {
            None
        }
    }

    /// The engine after an admitted registration as solver: the account has
    /// a fresh record, in the place of its former record if it had one, and
    /// its bond is the stake, in the place of its former bond if it had one.
    pub open spec fn register_solver_effect(self, caller: Seq<char>, stake: u128, now: u64)
        -> ContractView {
        ContractView {
            solvers: if has_key(self.solvers, caller) {
                replace(self.solvers, caller, SolverView::fresh(caller, stake, now))
            } else {
                self.solvers.push(SolverView::fresh(caller, stake, now))
            },
            solver_stakes: if has_key(self.solver_stakes, caller) {
                replace(self.solver_stakes, caller, StakeView { account: caller, amount: stake })
            } else {
                self.solver_stakes.push(StakeView { account: caller, amount: stake })
            },
            ..self
        }
    }

    /// The engine after a solver named its areas of specialization. An
    /// account that is no solver changes nothing.
    pub open spec fn update_specialization_effect(
        self,
        caller: Seq<char>,
        areas: Seq<Seq<char>>,
    ) -> ContractView {
        match self.solver(caller) {
            Some(solver) => ContractView {
                solvers: replace(
                    self.solvers,
                    caller,
                    SolverView {
                        performance_metrics: MetricsView {
                            specialization_areas: areas,
                            ..solver.performance_metrics
                        },
                        ..solver
                    },
                ),
                ..self
            },
            None => self,
        }
    }
}

impl OracleIntentContract {
    /// Registers the caller as a solver with a stake of at least the minimum.
    /// The stake becomes the caller's bond, which is kept apart from the
    /// stakes of its evaluations. The solver starts without a resolved
    /// outcome, which counts as the best reputation. An account that
    /// registers again starts afresh, with the new stake as its bond.
    pub fn register_solver(&mut self, caller: String, stake: u128, now: u64) -> (result: Result<
        (),
        OracleError,
    >)
        requires
            old(self).well_formed(),
        ensures
            final(self).well_formed(),
            match result {
                Ok(_) => {
                    &&& old(self)@.register_solver_error(stake) is None
                    &&& final(self)@ == old(self)@.register_solver_effect(caller@, stake, now)
                },
                Err(e) => {
                    &&& old(self)@.register_solver_error(stake) == Some(e)
                    &&& final(self)@ == old(self)@
                },
            },
    {
        if stake < self.min_stake {
            return Err(OracleError::InsufficientStake);
        }
        let ghost pre = self@;
        let found = self.find_solver(&caller);
        let bonded = self.find_solver_stake(&caller);
        let bond = SolverStake { account: caller.clone(), amount: stake };
        let solver = OracleSolver::fresh(caller, stake, now);
        proof {
            lemma_keys_are_distinct(pre);
        }
        match bonded {
            Some(i) => {
                proof {
                    lemma_views_update(self.solver_stakes@, i as int, bond);
                    lemma_replace_at(pre.solver_stakes, i as int, bond@);
                }
                self.solver_stakes.set(i, bond);
            },
            None => {
                proof {
                    lemma_views_push(self.solver_stakes@, bond);
                }
                self.solver_stakes.push(bond);
            },
        }
        match found {
            Some(i) => {
                proof {
                    lemma_views_update(self.solvers@, i as int, solver);
                    lemma_replace_at(pre.solvers, i as int, solver@);
                }
                self.solvers.set(i, solver);
            },
            None => {
                proof {
                    lemma_views_push(self.solvers@, solver);
                }
                self.solvers.push(solver);
            },
        }
        proof {
            reveal(ContractView::records_well_formed);
            lemma_solvers_changed_keeps_well_formed(pre, self@);
        }
        Ok(())
    }

    /// Names the caller's areas of specialization. A caller that is no solver
    /// changes nothing.
    pub fn update_solver_specialization(
        &mut self,
        caller: String,
        specialization_areas: Vec<String>,
    )
        requires
            old(self).well_formed(),
        ensures
            final(self).well_formed(),
            final(self)@ == old(self)@.update_specialization_effect(
                caller@,
                views(specialization_areas@),
            ),
    {
        let ghost pre = self@;
        proof {
            lemma_keys_are_distinct(pre);
        }
        if let Some(i) = self.find_solver(&caller) {
            let ghost before = self.solvers@;
            self.solvers[i].performance_metrics.specialization_areas = specialization_areas;
            proof {
                lemma_changed_in_place(before, self.solvers@, i as int);
                reveal(ContractView::records_well_formed);
                lemma_solvers_changed_keeps_well_formed(pre, self@);
            }
        }
    }
}

} // verus!
