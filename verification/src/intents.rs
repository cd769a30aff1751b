//! The life of an intent: it is created pending, claimed or answered, and
//! completed.
use vstd::prelude::*;
use crate::contract::{
    lemma_keys_are_distinct, lemma_updated_in_place_keeps_well_formed, ContractView,
    OracleIntentContract,
};
use crate::error::OracleError;
use crate::scoring::{has_sufficient_reputation, reputation_suffices};
use crate::store::{lemma_changed_in_place, replace, Keyed};
use crate::text::{id_text, intent_id_of, intent_prefix, lemma_next_id_is_fresh};
use crate::types::{
    byte_len, lemma_views_push, IntentStatus, IntentType, IntentView, OracleIntent, UserView,
    MAX_QUESTION_LENGTH, MAX_SOURCES_PER_EVALUATION, MIN_STAKE, NANOS_PER_MINUTE,
};

verus! {

/// How many sources an intent asks for when it names no number.
pub const DEFAULT_REQUIRED_SOURCES: u32 = 3;

/// How many minutes an intent stays open when it names no number.
pub const DEFAULT_DEADLINE_MINUTES: u64 = 60;

/// A reward above this many minimum stakes asks for a solver of good
/// reputation.
pub const HIGH_VALUE_FACTOR: u128 = 5;

/// The number of sources that an intent asks for.
pub open spec fn required_sources_or_default(required_sources: Option<u32>) -> u32 {
    match required_sources {
        Some(n) => n,
        None => DEFAULT_REQUIRED_SOURCES,
    }
}

/// The number of minutes that an intent stays open.
pub open spec fn deadline_minutes_or_default(deadline_minutes: Option<u64>) -> u64 {
    match deadline_minutes {
        Some(m) => m,
        None => DEFAULT_DEADLINE_MINUTES,
    }
}

/// The deadline of an intent created at `now`: so many minutes later, and
/// `now` itself for zero minutes.
pub open spec fn deadline_after(now: u64, deadline_minutes: Option<u64>) -> int {
    now + deadline_minutes_or_default(deadline_minutes) * NANOS_PER_MINUTE
}

impl ContractView {
    /// Why a new intent is refused, if it is. The checks are made in this
    /// order: the stake reaches the minimum; the question is not empty; the
    /// question is within the limit; no more sources are asked for than an
    /// evaluation may carry; a further identifier can be issued and the
    /// deadline is a time.
    pub open spec fn submit_intent_error(
        self,
        stake: u128,
        question: Seq<char>,
        required_sources: Option<u32>,
        deadline_minutes: Option<u64>,
        now: u64,
    ) -> Option<OracleError> {
        if stake < self.min_stake {
            Some(OracleError::InsufficientStake)
        } else if question.len() == 0 {
            Some(OracleError::EmptyQuestion)
        } else if byte_len(question) > MAX_QUESTION_LENGTH {
            Some(OracleError::QuestionTooLong)
        } else if required_sources_or_default(required_sources) > MAX_SOURCES_PER_EVALUATION {
            Some(OracleError::TooManySourcesRequired)
        } else if self.intent_counter == u64::MAX || deadline_after(now, deadline_minutes)
            > u64::MAX {
            Some(OracleError::ArithmeticOverflow)
        } else {
            None
        }
    }

    /// The identifier that the next intent gets.
    pub open spec fn next_intent_id(self) -> Seq<char> {
        id_text(intent_prefix(), (self.intent_counter + 1) as nat)
    }

    /// The intent that an admitted request creates: pending, with a reward
    /// that mirrors the stake.
    pub open spec fn new_intent(
        self,
        caller: Seq<char>,
        stake: u128,
        question: Seq<char>,
        deadline_minutes: Option<u64>,
        now: u64,
    ) -> IntentView {
        IntentView {
            intent_id: self.next_intent_id(),
            intent_type: IntentType::CredibilityEvaluation,
            initiator: caller,
            question: Some(question),
            evaluation_hash: None,
            challenge_hash: None,
            stake,
            reward: stake,
            deadline: deadline_after(now, deadline_minutes) as u64,
            status: IntentStatus::Pending,
            created_at: now,
        }
    }

    /// The engine after an admitted request: one more intent.
    pub open spec fn submit_intent_effect(
        self,
        caller: Seq<char>,
        stake: u128,
        question: Seq<char>,
        deadline_minutes: Option<u64>,
        now: u64,
    ) -> ContractView {
        ContractView {
            intent_counter: (self.intent_counter + 1) as u64,
            intents: self.intents.push(
                self.new_intent(caller, stake, question, deadline_minutes, now),
            ),
            ..self
        }
    }

    /// Why a claim is refused, if it is. The checks are made in this order:
    /// the caller is a registered solver; the solver is active; the intent
    /// exists; it is pending; its deadline has not passed; for a reward above
    /// five minimum stakes, the solver's reputation is at least seven tenths.
    pub open spec fn accept_intent_error(self, caller: Seq<char>, intent_id: Seq<char>, now: u64)
        -> Option<OracleError> {
        match self.solver(caller) {
            None => Some(OracleError::SolverNotRegistered),
            Some(solver) => if !solver.is_active {
                Some(OracleError::SolverNotActive)
            } else {
                match self.intent(intent_id) {
                    None => Some(OracleError::IntentNotFound),
                    Some(intent) => if intent.status != IntentStatus::Pending {
                        Some(OracleError::IntentNotPending)
                    } else if now > intent.deadline {
                        Some(OracleError::IntentExpired)
                    } else if intent.reward > HIGH_VALUE_FACTOR * MIN_STAKE && !reputation_suffices(
                        solver.successful_evaluations,
                        solver.total_evaluations,
                    ) {
                        Some(OracleError::InsufficientReputation)
                    } else {
                        None
                    },
                }
            },
        }
    }

    /// The engine after an admitted claim: the intent is in progress.
    pub open spec fn accept_intent_effect(self, intent_id: Seq<char>) -> ContractView {
        let intent = self.intent(intent_id)->0;
        ContractView {
            intents: replace(
                self.intents,
                intent_id,
                IntentView { status: IntentStatus::InProgress, ..intent },
            ),
            ..self
        }
    }

    /// Why a completion is refused, if it is. The checks are made in this
    /// order: the intent exists; it is in progress; the evaluation exists; it
    /// is the caller's; it answers this intent; the initiator's profile, if
    /// there is one, can count one more intent and its stake.
    pub open spec fn complete_intent_error(
        self,
        caller: Seq<char>,
        intent_id: Seq<char>,
        evaluation_id: Seq<char>,
    ) -> Option<OracleError> {
        match self.intent(intent_id) {
            None => Some(OracleError::IntentNotFound),
            Some(intent) => if intent.status != IntentStatus::InProgress {
                Some(OracleError::IntentNotInProgress)
            } else {
                match self.evaluation(evaluation_id) {
                    None => Some(OracleError::EvaluationNotFound),
                    Some(evaluation) => if evaluation.solver != caller {
                        Some(OracleError::WrongSolver)
                    } else if evaluation.intent_id != intent_id {
                        Some(OracleError::EvaluationIntentMismatch)
                    } else {
                        match self.user(intent.initiator) {
                            Some(user) => if user.total_intents_created == u64::MAX
                                || user.total_stake_committed + intent.stake > u128::MAX {
                                Some(OracleError::ArithmeticOverflow)
                            } else {
                                None
                            },
                            None => None,
                        }
                    },
                }
            },
        }
    }

    /// The engine after an admitted completion: the intent is completed and
    /// names its evaluation, and the initiator's profile, if there is one,
    /// counts one more intent and its stake.
    pub open spec fn complete_intent_effect(self, intent_id: Seq<char>, evaluation_id: Seq<char>)
        -> ContractView {
        let intent = self.intent(intent_id)->0;
        ContractView {
            intents: replace(
                self.intents,
                intent_id,
                IntentView {
                    status: IntentStatus::Completed,
                    evaluation_hash: Some(evaluation_id),
                    ..intent
                },
            ),
            users: match self.user(intent.initiator) {
                Some(user) => replace(
                    self.users,
                    intent.initiator,
                    UserView {
                        total_intents_created: (user.total_intents_created + 1) as u64,
                        total_stake_committed: (user.total_stake_committed + intent.stake) as u128,
                        ..user
                    },
                ),
                None => self.users,
            },
            ..self
        }
    }
}

/// An intent that is opened for more than zero minutes has its deadline
/// after its creation; one that is opened for zero minutes has it at its
/// creation.
pub proof fn lemma_deadline_after_creation(
    pre: ContractView,
    caller: Seq<char>,
    stake: u128,
    question: Seq<char>,
    required_sources: Option<u32>,
    deadline_minutes: Option<u64>,
    now: u64,
)
    requires
        pre.submit_intent_error(stake, question, required_sources, deadline_minutes, now) is None,
    ensures
        ({
            let intent = pre.new_intent(caller, stake, question, deadline_minutes, now);
            if deadline_minutes_or_default(deadline_minutes) > 0 {
                intent.deadline > intent.created_at
            } else {
                intent.deadline == intent.created_at
            }
        }),
{
    let minutes = deadline_minutes_or_default(deadline_minutes);
    assert(minutes > 0 ==> minutes * NANOS_PER_MINUTE > 0) by (nonlinear_arith);
    assert(minutes == 0 ==> minutes * NANOS_PER_MINUTE == 0) by (nonlinear_arith);
}

/// An admitted request for an intent leaves the engine well formed.
pub proof fn lemma_submit_intent_keeps_well_formed(
    pre: ContractView,
    caller: Seq<char>,
    stake: u128,
    question: Seq<char>,
    required_sources: Option<u32>,
    deadline_minutes: Option<u64>,
    now: u64,
)
    requires
        pre.well_formed(),
        pre.submit_intent_error(stake, question, required_sources, deadline_minutes, now) is None,
    ensures
        pre.submit_intent_effect(caller, stake, question, deadline_minutes, now).well_formed(),
{
    reveal(ContractView::keys_well_formed);
    reveal(ContractView::references_well_formed);
    reveal(ContractView::records_well_formed);
    let post = pre.submit_intent_effect(caller, stake, question, deadline_minutes, now);
    assert forall|i: int, j: int| 0 <= i < j < post.intents.len() implies (
    #[trigger] post.intents[i]).key() != (#[trigger] post.intents[j]).key() by {
        if j >= pre.intents.len() {
            lemma_next_id_is_fresh(
                intent_prefix(),
                pre.intent_counter as nat,
                pre.intents[i].intent_id,
            );
        }
    }
    assert forall|i: int, j: int|
        0 <= i < post.evaluations.len() && 0 <= j < post.intents.len() && (
        #[trigger] post.evaluations[i]).intent_id == (
        #[trigger] post.intents[j]).intent_id implies post.intents[j].status
        != IntentStatus::Pending by {
        if j >= pre.intents.len() {
            lemma_next_id_is_fresh(
                intent_prefix(),
                pre.intent_counter as nat,
                pre.evaluations[i].intent_id,
            );
        }
    }
}

/// An admitted claim leaves the engine well formed.
pub proof fn lemma_accept_intent_keeps_well_formed(
    pre: ContractView,
    caller: Seq<char>,
    intent_id: Seq<char>,
    now: u64,
)
    requires
        pre.well_formed(),
        pre.accept_intent_error(caller, intent_id, now) is None,
    ensures
        pre.accept_intent_effect(intent_id).well_formed(),
{
    reveal(ContractView::records_well_formed);
    lemma_keys_are_distinct(pre);
    let post = pre.accept_intent_effect(intent_id);
    lemma_updated_in_place_keeps_well_formed(pre, post);
}

/// An admitted completion leaves the engine well formed.
pub proof fn lemma_complete_intent_keeps_well_formed(
    pre: ContractView,
    caller: Seq<char>,
    intent_id: Seq<char>,
    evaluation_id: Seq<char>,
)
    requires
        pre.well_formed(),
        pre.complete_intent_error(caller, intent_id, evaluation_id) is None,
    ensures
        pre.complete_intent_effect(intent_id, evaluation_id).well_formed(),
{
    reveal(ContractView::records_well_formed);
    lemma_keys_are_distinct(pre);
    let post = pre.complete_intent_effect(intent_id, evaluation_id);
    let intent = pre.intent(intent_id)->0;
    lemma_updated_in_place_keeps_well_formed(pre, post);
}

impl OracleIntentContract {
    /// Opens an intent that asks whether a statement is credible. The caller
    /// stakes at least the minimum; the reward mirrors the stake; the intent
    /// stays open for `deadline_minutes` minutes, sixty if none is given.
    /// Zero minutes are admitted, not refused: such an intent has its
    /// deadline at the time of its creation, can be answered at that very
    /// time only, and is overdue from the next moment on. Every other intent
    /// has its deadline after its creation.
    /// `confidence_threshold` is carried for callers' sake and not consulted.
    /// Returns the new intent's identifier.
    pub fn submit_credibility_intent(
        &mut self,
        caller: String,
        stake: u128,
        question: String,
        required_sources: Option<u32>,
        confidence_threshold: Option<u64>,
        deadline_minutes: Option<u64>,
        now: u64,
    ) -> (result: Result<String, OracleError>)
        requires
            old(self).well_formed(),
        ensures
            final(self).well_formed(),
            match result {
                Ok(id) => {
                    &&& old(self)@.submit_intent_error(
                        stake,
                        question@,
                        required_sources,
                        deadline_minutes,
                        now,
                    ) is None
                    &&& final(self)@ == old(self)@.submit_intent_effect(
                        caller@,
                        stake,
                        question@,
                        deadline_minutes,
                        now,
                    )
                    &&& id@ == old(self)@.next_intent_id()
                },
                Err(e) => {
                    &&& old(self)@.submit_intent_error(
                        stake,
                        question@,
                        required_sources,
                        deadline_minutes,
                        now,
                    ) == Some(e)
                    &&& final(self)@ == old(self)@
                },
            },
    {
        if stake < self.min_stake {
            return Err(OracleError::InsufficientStake);
        }
        if question.as_str().is_empty() {
            return Err(OracleError::EmptyQuestion);
        }
        if question.as_str().as_bytes().len() > MAX_QUESTION_LENGTH {
            return Err(OracleError::QuestionTooLong);
        }
        let sources_required = match required_sources {
            Some(n) => n,
            None => DEFAULT_REQUIRED_SOURCES,
        };
        if sources_required as usize > MAX_SOURCES_PER_EVALUATION {
            return Err(OracleError::TooManySourcesRequired);
        }
        if self.intent_counter == u64::MAX {
            return Err(OracleError::ArithmeticOverflow);
        }
        let minutes = match deadline_minutes {
            Some(m) => m,
            None => DEFAULT_DEADLINE_MINUTES,
        };
        let span = match minutes.checked_mul(NANOS_PER_MINUTE) {
            Some(s) => s,
            None => {
                return Err(OracleError::ArithmeticOverflow);
            },
        };
        let deadline = match now.checked_add(span) {
            Some(d) => d,
            None => {
                return Err(OracleError::ArithmeticOverflow);
            },
        };
        let ghost pre = self@;
        self.intent_counter = self.intent_counter + 1;
        let id = intent_id_of(self.intent_counter);
        let intent = OracleIntent {
            intent_id: id.clone(),
            intent_type: IntentType::CredibilityEvaluation,
            initiator: caller,
            question: Some(question),
            evaluation_hash: None,
            challenge_hash: None,
            stake,
            reward: stake,
            deadline,
            status: IntentStatus::Pending,
            created_at: now,
        };
        proof {
            lemma_views_push(self.intents@, intent);
            lemma_submit_intent_keeps_well_formed(
                pre,
                caller@,
                stake,
                question@,
                required_sources,
                deadline_minutes,
                now,
            );
        }
        self.intents.push(intent);
        Ok(id)
    }

    /// Claims a pending intent for the caller, a registered and active solver.
    /// An intent whose reward exceeds five minimum stakes asks for a
    /// reputation of at least seven tenths.
    pub fn accept_intent(&mut self, caller: String, intent_id: String, now: u64) -> (result: Result<
        bool,
        OracleError,
    >)
        requires
            old(self).well_formed(),
        ensures
            final(self).well_formed(),
            match result {
                Ok(accepted) => {
                    &&& accepted
                    &&& old(self)@.accept_intent_error(caller@, intent_id@, now) is None
                    &&& final(self)@ == old(self)@.accept_intent_effect(intent_id@)
                },
                Err(e) => {
                    &&& old(self)@.accept_intent_error(caller@, intent_id@, now) == Some(e)
                    &&& final(self)@ == old(self)@
                },
            },
    {
        proof {
            lemma_keys_are_distinct(self@);
        }
        let si = match self.find_solver(&caller) {
            Some(i) => i,
            None => {
                return Err(OracleError::SolverNotRegistered);
            },
        };
        if !self.solvers[si].is_active {
            return Err(OracleError::SolverNotActive);
        }
        let i = match self.find_intent(&intent_id) {
            Some(i) => i,
            None => {
                return Err(OracleError::IntentNotFound);
            },
        };
        if self.intents[i].status != IntentStatus::Pending {
            return Err(OracleError::IntentNotPending);
        }
        if now > self.intents[i].deadline {
            return Err(OracleError::IntentExpired);
        }
        if self.intents[i].reward > HIGH_VALUE_FACTOR * MIN_STAKE && !has_sufficient_reputation(
            self.solvers[si].successful_evaluations,
            self.solvers[si].total_evaluations,
        ) {
            return Err(OracleError::InsufficientReputation);
        }
        let ghost pre = self@;
        let ghost before = self.intents@;
        self.intents[i].status = IntentStatus::InProgress;
        proof {
            lemma_changed_in_place(before, self.intents@, i as int);
            lemma_accept_intent_keeps_well_formed(pre, caller@, intent_id@, now);
        }
        Ok(true)
    }

    /// Completes an intent in progress with the caller's evaluation of it. The
    /// initiator's profile, if there is one, counts one more intent and its
    /// stake.
    pub fn complete_intent_execution(
        &mut self,
        caller: String,
        intent_id: String,
        evaluation_id: String,
    ) -> (result: Result<bool, OracleError>)
        requires
            old(self).well_formed(),
        ensures
            final(self).well_formed(),
            match result {
                Ok(completed) => {
                    &&& completed
                    &&& old(self)@.complete_intent_error(
                        caller@,
                        intent_id@,
                        evaluation_id@,
                    ) is None
                    &&& final(self)@ == old(self)@.complete_intent_effect(
                        intent_id@,
                        evaluation_id@,
                    )
                },
                Err(e) => {
                    &&& old(self)@.complete_intent_error(caller@, intent_id@, evaluation_id@)
                        == Some(e)
                    &&& final(self)@ == old(self)@
                },
            },
    {
        proof {
            lemma_keys_are_distinct(self@);
        }
        let i = match self.find_intent(&intent_id) {
            Some(i) => i,
            None => {
                return Err(OracleError::IntentNotFound);
            },
        };
        if self.intents[i].status != IntentStatus::InProgress {
            return Err(OracleError::IntentNotInProgress);
        }
        let ei = match self.find_evaluation(&evaluation_id) {
            Some(i) => i,
            None => {
                return Err(OracleError::EvaluationNotFound);
            },
        };
        if self.evaluations[ei].solver != caller {
            return Err(OracleError::WrongSolver);
        }
        if self.evaluations[ei].intent_id != intent_id {
            return Err(OracleError::EvaluationIntentMismatch);
        }
        let ui = self.find_user(&self.intents[i].initiator);
        let stake = self.intents[i].stake;
        let mut committed: u128 = 0;
        if let Some(u) = ui {
            if self.users[u].total_intents_created == u64::MAX {
                return Err(OracleError::ArithmeticOverflow);
            }
            committed = match self.users[u].total_stake_committed.checked_add(stake) {
                Some(sum) => sum,
                None => {
                    return Err(OracleError::ArithmeticOverflow);
                },
            };
        }
        let ghost pre = self@;
        let ghost before = self.intents@;
        self.intents[i].status = IntentStatus::Completed;
        self.intents[i].evaluation_hash = Some(evaluation_id);
        proof {
            lemma_changed_in_place(before, self.intents@, i as int);
        }
        if let Some(u) = ui {
            let ghost users_before = self.users@;
            self.users[u].total_intents_created = self.users[u].total_intents_created + 1;
            self.users[u].total_stake_committed = committed;
            proof {
                lemma_changed_in_place(users_before, self.users@, u as int);
            }
        }
        proof {
            lemma_complete_intent_keeps_well_formed(pre, caller@, intent_id@, evaluation_id@);
        }
        Ok(true)
    }
}

} // verus!
