//! Reading the engine: single records by key, and lists of records by what
//! they have in common. Every answer is a copy.
use vstd::prelude::*;
use crate::contract::{lemma_keys_are_distinct, ContractView, OracleIntentContract};
use crate::store::has_key;
use crate::types::{
    clone_text, clone_texts, text_of, views, IntentStatus, IntentView, OracleEvaluation,
    OracleIntent, OracleSolver, RefutationChallenge, SolverPerformanceMetrics, UserProfile,
};

verus! {

/// The view of an optional record.
pub open spec fn view_of<T: View>(record: Option<T>) -> Option<T::V> {
    match record {
        Some(r) => Some(r@),
        None => None,
    }
}

/// The intents in a given status.
pub open spec fn in_status(status: IntentStatus) -> spec_fn(IntentView) -> bool {
    |intent: IntentView| intent.status == status
}

/// The intents of a given initiator.
pub open spec fn initiated_by(initiator: Seq<char>) -> spec_fn(IntentView) -> bool {
    |intent: IntentView| intent.initiator == initiator
}

impl ContractView {
    /// Whether the solver submitted an evaluation of this intent.
    pub open spec fn evaluated_by(self, solver: Seq<char>, intent_id: Seq<char>) -> bool {
        exists|i: int|
            0 <= i < self.evaluations.len() && (#[trigger] self.evaluations[i]).solver == solver
                && self.evaluations[i].intent_id == intent_id
    }

    /// The intents in progress that the solver has evaluated.
    pub open spec fn active_for(self, solver: Seq<char>) -> spec_fn(IntentView) -> bool {
        |intent: IntentView|
            intent.status == IntentStatus::InProgress && self.evaluated_by(
                solver,
                intent.intent_id,
            )
    }

    /// Where an intent stands at `now`: its status, the evaluation that it
    /// names, and the time left until its deadline.
    pub open spec fn progress(self, intent_id: Seq<char>, now: u64) -> Option<
        (IntentStatus, Option<Seq<char>>, u64),
    > {
        match self.intent(intent_id) {
            Some(intent) => Some(
                (
                    intent.status,
                    intent.evaluation_hash,
                    if intent.deadline > now {
                        (intent.deadline - now) as u64
                    } else {
                        0
                    },
                ),
            ),
            None => None,
        }
    }
}

/// The view of an intent's progress.
pub open spec fn progress_view(progress: Option<(IntentStatus, Option<String>, u64)>) -> Option<
    (IntentStatus, Option<Seq<char>>, u64),
> {
    match progress {
        Some((status, evaluation, left)) => Some((status, text_of(evaluation), left)),
        None => None,
    }
}

impl OracleIntentContract {
    /// The intent with this identifier.
    pub fn get_intent(&self, intent_id: String) -> (found: Option<OracleIntent>)
        requires
            self.well_formed(),
        ensures
            view_of(found) == self@.intent(intent_id@),
    {
        match self.find_intent(&intent_id) {
            Some(i) => {
                proof {
                    lemma_keys_are_distinct(self@);
                }
                Some(self.intents[i].duplicate())
            },
            None => None,
        }
    }

    /// The evaluation with this identifier.
    pub fn get_evaluation(&self, evaluation_id: String) -> (found: Option<OracleEvaluation>)
        requires
            self.well_formed(),
        ensures
            view_of(found) == self@.evaluation(evaluation_id@),
    {
        match self.find_evaluation(&evaluation_id) {
            Some(i) => {
                proof {
                    lemma_keys_are_distinct(self@);
                }
                Some(self.evaluations[i].duplicate())
            },
            None => None,
        }
    }

    /// The challenge with this identifier.
    pub fn get_challenge(&self, challenge_id: String) -> (found: Option<RefutationChallenge>)
        requires
            self.well_formed(),
        ensures
            view_of(found) == self@.challenge(challenge_id@),
    {
        match self.find_challenge(&challenge_id) {
            Some(i) => {
                proof {
                    lemma_keys_are_distinct(self@);
                }
                Some(self.challenges[i].duplicate())
            },
            None => None,
        }
    }

    /// The solver registered under this account.
    pub fn get_solver(&self, solver_id: String) -> (found: Option<OracleSolver>)
        requires
            self.well_formed(),
        ensures
            view_of(found) == self@.solver(solver_id@),
    {
        match self.find_solver(&solver_id) {
            Some(i) => {
                proof {
                    lemma_keys_are_distinct(self@);
                }
                Some(self.solvers[i].duplicate())
            },
            None => None,
        }
    }

    /// The bond that this account staked when it registered as a solver.
    pub fn get_solver_stake(&self, solver_id: String) -> (bond: Option<u128>)
        requires
            self.well_formed(),
        ensures
            bond == match self@.solver_stake(solver_id@) {
                Some(stake) => Some(stake.amount),
                None => None,
            },
    {
        match self.find_solver_stake(&solver_id) {
            Some(i) => {
                proof {
                    lemma_keys_are_distinct(self@);
                }
                Some(self.solver_stakes[i].amount)
            },
            None => None,
        }
    }

    /// The profile of this account.
    pub fn get_user_profile(&self, user_id: String) -> (found: Option<UserProfile>)
        requires
            self.well_formed(),
        ensures
            view_of(found) == self@.user(user_id@),
    {
        match self.find_user(&user_id) {
            Some(i) => {
                proof {
                    lemma_keys_are_distinct(self@);
                }
                Some(self.users[i].duplicate())
            },
            None => None,
        }
    }

    /// Whether the account has a profile.
    pub fn is_user_registered(&self, user_id: String) -> (registered: bool)
        ensures
            registered == has_key(self@.users, user_id@),
    {
        self.find_user(&user_id).is_some()
    }

    /// The administrators, in the order in which they were named.
    pub fn get_all_admins(&self) -> (admins: Vec<String>)
        ensures
            views(admins@) == self@.admins,
    {
        clone_texts(&self.admins)
    }

    /// The verifiers, in the order in which they were named.
    pub fn get_all_verifiers(&self) -> (verifiers: Vec<String>)
        ensures
            views(verifiers@) == self@.verifiers,
    {
        clone_texts(&self.verifiers)
    }

    /// The intents in the given status, in the order in which they were
    /// created.
    pub fn get_intents_by_status(&self, status: IntentStatus) -> (found: Vec<OracleIntent>)
        ensures
            views(found@) == self@.intents.filter(in_status(status)),
    {
        let ghost all = self@.intents;
        let ghost wanted = in_status(status);
        let mut found: Vec<OracleIntent> = Vec::new();
        let mut i: usize = 0;
        proof {
            reveal(Seq::filter);
        }
        while i < self.intents.len()
            invariant
                i <= self.intents.len(),
                all == self@.intents,
                wanted == in_status(status),
                views(found@) == all.subrange(0, i as int).filter(wanted),
            decreases self.intents.len() - i,
        {
            proof {
                reveal(Seq::filter);
                assert(all.subrange(0, i + 1).drop_last() =~= all.subrange(0, i as int));
            }
            if self.intents[i].status == status {
                found.push(self.intents[i].duplicate());
            }
            i += 1;
        }
        assert(all.subrange(0, i as int) =~= all);
        found
    }

    /// The pending intents, in the order in which they were created.
    pub fn get_pending_intents(&self) -> (found: Vec<OracleIntent>)
        ensures
            views(found@) == self@.intents.filter(in_status(IntentStatus::Pending)),
    {
        self.get_intents_by_status(IntentStatus::Pending)
    }

    /// The intents of the given initiator, in the order in which they were
    /// created.
    pub fn get_intents_by_initiator(&self, initiator: String) -> (found: Vec<OracleIntent>)
        ensures
            views(found@) == self@.intents.filter(initiated_by(initiator@)),
    {
        let ghost all = self@.intents;
        let ghost wanted = initiated_by(initiator@);
        let mut found: Vec<OracleIntent> = Vec::new();
        let mut i: usize = 0;
        proof {
            reveal(Seq::filter);
        }
        while i < self.intents.len()
            invariant
                i <= self.intents.len(),
                all == self@.intents,
                wanted == initiated_by(initiator@),
                views(found@) == all.subrange(0, i as int).filter(wanted),
            decreases self.intents.len() - i,
        {
            proof {
                reveal(Seq::filter);
                assert(all.subrange(0, i + 1).drop_last() =~= all.subrange(0, i as int));
            }
            if self.intents[i].initiator == initiator {
                found.push(self.intents[i].duplicate());
            }
            i += 1;
        }
        assert(all.subrange(0, i as int) =~= all);
        found
    }

    /// Whether the solver submitted an evaluation of this intent.
    pub fn solver_evaluated(&self, solver: &String, intent_id: &String) -> (evaluated: bool)
        ensures
            evaluated == self@.evaluated_by(solver@, intent_id@),
    {
        let mut i: usize = 0;
        while i < self.evaluations.len()
            invariant
                i <= self.evaluations.len(),
                forall|j: int|
                    0 <= j < i ==> !((#[trigger] self@.evaluations[j]).solver == solver@
                        && self@.evaluations[j].intent_id == intent_id@),
            decreases self.evaluations.len() - i,
        {
            if self.evaluations[i].solver == *solver && self.evaluations[i].intent_id
                == *intent_id {
                assert(self@.evaluations[i as int].solver == solver@);
                return true;
            }
            i += 1;
        }
        false
    }

    /// The intents in progress that the solver has evaluated, in the order in
    /// which they were created.
    pub fn get_solver_active_intents(&self, solver: String) -> (found: Vec<OracleIntent>)
        ensures
            views(found@) == self@.intents.filter(self@.active_for(solver@)),
    {
        let ghost all = self@.intents;
        let ghost wanted = self@.active_for(solver@);
        let mut found: Vec<OracleIntent> = Vec::new();
        let mut i: usize = 0;
        proof {
            reveal(Seq::filter);
        }
        while i < self.intents.len()
            invariant
                i <= self.intents.len(),
                all == self@.intents,
                wanted == self@.active_for(solver@),
                views(found@) == all.subrange(0, i as int).filter(wanted),
            decreases self.intents.len() - i,
        {
            proof {
                reveal(Seq::filter);
                assert(all.subrange(0, i + 1).drop_last() =~= all.subrange(0, i as int));
            }
            if self.intents[i].status == IntentStatus::InProgress && self.solver_evaluated(
                &solver,
                &self.intents[i].intent_id,
            ) {
                found.push(self.intents[i].duplicate());
            }
            i += 1;
        }
        assert(all.subrange(0, i as int) =~= all);
        found
    }

    /// Where an intent stands at `now`: its status, the evaluation that it
    /// names, and the nanoseconds left until its deadline.
    pub fn get_intent_execution_progress(&self, intent_id: String, now: u64) -> (progress: Option<
        (IntentStatus, Option<String>, u64),
    >)
        requires
            self.well_formed(),
        ensures
            progress_view(progress) == self@.progress(intent_id@, now),
    {
        match self.find_intent(&intent_id) {
            Some(i) => {
                proof {
                    lemma_keys_are_distinct(self@);
                }
                let left = if self.intents[i].deadline > now {
                    self.intents[i].deadline - now
                } else {
                    0
                };
                Some((self.intents[i].status, clone_text(&self.intents[i].evaluation_hash), left))
            },
            None => None,
        }
    }

    /// The counters that the engine keeps of a solver's work.
    pub fn get_solver_performance_metrics(&self, solver_id: String) -> (found: Option<
        SolverPerformanceMetrics,
    >)
        requires
            self.well_formed(),
        ensures
            view_of(found) == match self@.solver(solver_id@) {
                Some(solver) => Some(solver.performance_metrics),
                None => None,
            },
    {
        match self.find_solver(&solver_id) {
            Some(i) => {
                proof {
                    lemma_keys_are_distinct(self@);
                }
                Some(self.solvers[i].performance_metrics.duplicate())
            },
            None => None,
        }
    }

    /// A solver's areas of specialization; none for an account that is no
    /// solver.
    pub fn get_solver_specialization(&self, solver_id: String) -> (areas: Vec<String>)
        requires
            self.well_formed(),
        ensures
            views(areas@) == match self@.solver(solver_id@) {
                Some(solver) => solver.performance_metrics.specialization_areas,
                None => Seq::empty(),
            },
    {
        match self.find_solver(&solver_id) {
            Some(i) => {
                proof {
                    lemma_keys_are_distinct(self@);
                }
                clone_texts(&self.solvers[i].performance_metrics.specialization_areas)
            },
            None => {
                let areas: Vec<String> = Vec::new();
                areas
            },
        }
    }

    /// How many intents, evaluations, challenges and profiles the engine
    /// holds.
    pub fn get_storage_stats(&self) -> (stats: (u64, u64, u64, u64))
        ensures
            stats.0 == self@.intents.len(),
            stats.1 == self@.evaluations.len(),
            stats.2 == self@.challenges.len(),
            stats.3 == self@.users.len(),
    {
        (
            self.intents.len() as u64,
            self.evaluations.len() as u64,
            self.challenges.len() as u64,
            self.users.len() as u64,
        )
    }
}

} // verus!
