//! Evaluations: a solver's answer to a pending intent, and its reward when
//! nobody disputes it.
use vstd::prelude::*;
use crate::contract::{
    lemma_keys_are_distinct, lemma_updated_in_place_keeps_well_formed, ContractView,
    OracleIntentContract,
};
use crate::error::OracleError;
use crate::scoring::{
    compute_unopposed_reward, confidence_is_valid, in_unit_interval, unopposed_reward,
};
use crate::store::{
    lemma_changed_in_place, lemma_lookup_at, lemma_replace_at, replace, Keyed,
};
use crate::text::{evaluation_id_of, evaluation_prefix, id_text, lemma_next_id_is_fresh};
use crate::types::{
    byte_len, lemma_views_push, lemma_views_update, sample_of, sample_view, views,
    ChallengeStatus, EvaluationStatus, EvaluationView, IntentStatus, IntentView,
    OracleEvaluation, PerformanceSample, Source, SourceView, Transfer, TransferView,
    MAX_SOURCES_PER_EVALUATION, MAX_URL_LENGTH,
};

verus! {

/// What a finalization owes: the transfer of the reward and, for a
/// registered solver, a sample for the running means of its work.
#[derive(Debug)]
pub struct Finalization {
    pub transfer: Transfer,
    pub sample: Option<PerformanceSample>,
}

/// Why a source is refused, if it is: its address is too long, or else its
/// title is empty.
pub open spec fn source_error(source: SourceView) -> Option<OracleError> {
    if byte_len(source.url) > MAX_URL_LENGTH {
        Some(OracleError::SourceUrlTooLong)
    } else if source.title.len() == 0 {
        Some(OracleError::SourceTitleEmpty)
    } else {
        None
    }
}

/// Why a list of sources is refused, if it is: the reason of the first source
/// that is refused.
pub open spec fn sources_error(sources: Seq<SourceView>) -> Option<OracleError>
    decreases sources.len(),
{
    if sources.len() == 0 {
        None
    } else {
        match source_error(sources[0]) {
            Some(e) => Some(e),
            None => sources_error(sources.drop_first()),
        }
    }
}

/// A list of sources is accepted exactly when each of its sources is
/// admissible.
pub proof fn lemma_sources_error_none(sources: Seq<SourceView>)
    ensures
        sources_error(sources) is None <==> forall|k: int|
            0 <= k < sources.len() ==> (#[trigger] sources[k]).admissible(),
    decreases sources.len(),
{
    if sources.len() > 0 {
        let rest = sources.drop_first();
        lemma_sources_error_none(rest);
        if sources_error(sources) is None {
            assert forall|k: int| 0 <= k < sources.len() implies (
            #[trigger] sources[k]).admissible() by {
                if k > 0 {
                    assert(rest[k - 1] == sources[k]);
                }
            }
        } else if source_error(sources[0]) is None {
            let k = choose|k: int| 0 <= k < rest.len() && !(#[trigger] rest[k]).admissible();
        }
    }
}

/// Checks a list of sources one by one, in order.
pub fn check_sources(sources: &Vec<Source>) -> (error: Option<OracleError>)
    ensures
        error == sources_error(views(sources@)),
{
    let ghost all = views(sources@);
    let mut i: usize = 0;
    assert(all.subrange(0, all.len() as int) =~= all);
    while i < sources.len()
        invariant
            i <= sources.len(),
            all == views(sources@),
            sources_error(all) == sources_error(all.subrange(i as int, all.len() as int)),
        decreases sources.len() - i,
    {
        let ghost rest = all.subrange(i as int, all.len() as int);
        assert(rest.drop_first() =~= all.subrange(i + 1, all.len() as int));
        if sources[i].url.as_str().as_bytes().len() > MAX_URL_LENGTH {
            return Some(OracleError::SourceUrlTooLong);
        }
        if sources[i].title.as_str().is_empty() {
            return Some(OracleError::SourceTitleEmpty);
        }
        i += 1;
    }
    None
}

/// The text of an optional question: empty when there is none.
pub open spec fn question_or_empty(question: Option<Seq<char>>) -> Seq<char> {
    match question {
        Some(q) => q,
        None => Seq::empty(),
    }
}

impl ContractView {
    /// Why an evaluation is refused, if it is. The checks are made in this
    /// order: the stake reaches the minimum; the confidence lies between zero
    /// and one; there is a source; there are no more sources than allowed;
    /// each source, in order, has an address within the limit and a title;
    /// the intent exists; it is pending; its deadline has not passed; the
    /// caller is a registered solver; a further identifier can be issued.
    pub open spec fn submit_evaluation_error(
        self,
        caller: Seq<char>,
        stake: u128,
        intent_id: Seq<char>,
        confidence: u64,
        sources: Seq<SourceView>,
        now: u64,
    ) -> Option<OracleError> {
        if stake < self.min_stake {
            Some(OracleError::InsufficientStake)
        } else if !in_unit_interval(confidence) {
            Some(OracleError::ConfidenceOutOfRange)
        } else if sources.len() == 0 {
            Some(OracleError::NoSources)
        } else if sources.len() > MAX_SOURCES_PER_EVALUATION {
            Some(OracleError::TooManySources)
        } else if sources_error(sources) is Some {
            sources_error(sources)
        } else {
            match self.intent(intent_id) {
                None => Some(OracleError::IntentNotFound),
                Some(intent) => if intent.status != IntentStatus::Pending {
                    Some(OracleError::IntentNotPending)
                } else if now > intent.deadline {
                    Some(OracleError::IntentExpired)
                } else if self.solver(caller) is None {
                    Some(OracleError::SolverNotRegistered)
                } else if self.evaluation_counter == u64::MAX {
                    Some(OracleError::ArithmeticOverflow)
                } else {
                    None
                },
            }
        }
    }

    /// The identifier that the next evaluation gets.
    pub open spec fn next_evaluation_id(self) -> Seq<char> {
        id_text(evaluation_prefix(), (self.evaluation_counter + 1) as nat)
    }

    /// The evaluation that an admitted submission creates: open, with a copy
    /// of the intent's question.
    pub open spec fn new_evaluation(
        self,
        caller: Seq<char>,
        stake: u128,
        intent_id: Seq<char>,
        answer: bool,
        confidence: u64,
        sources: Seq<SourceView>,
        execution_time_ms: u64,
        now: u64,
    ) -> EvaluationView {
        EvaluationView {
            evaluation_id: self.next_evaluation_id(),
            intent_id,
            solver: caller,
            question: question_or_empty(self.intent(intent_id)->0.question),
            answer,
            confidence,
            sources,
            execution_time: execution_time_ms,
            stake,
            status: EvaluationStatus::Submitted,
            submitted_at: now,
        }
    }

    /// The engine after an admitted submission: one more evaluation, and the
    /// intent in progress, naming it.
    pub open spec fn submit_evaluation_effect(
        self,
        caller: Seq<char>,
        stake: u128,
        intent_id: Seq<char>,
        answer: bool,
        confidence: u64,
        sources: Seq<SourceView>,
        execution_time_ms: u64,
        now: u64,
    ) -> ContractView {
        let intent = self.intent(intent_id)->0;
        ContractView {
            evaluation_counter: (self.evaluation_counter + 1) as u64,
            evaluations: self.evaluations.push(
                self.new_evaluation(
                    caller,
                    stake,
                    intent_id,
                    answer,
                    confidence,
                    sources,
                    execution_time_ms,
                    now,
                ),
            ),
            intents: replace(
                self.intents,
                intent_id,
                IntentView {
                    status: IntentStatus::InProgress,
                    evaluation_hash: Some(self.next_evaluation_id()),
                    ..intent
                },
            ),
            ..self
        }
    }

    /// The base of an unopposed evaluation's reward: the intent's reward and
    /// the evaluation's stake.
    pub open spec fn finalize_base(self, evaluation_id: Seq<char>) -> nat {
        let evaluation = self.evaluation(evaluation_id)->0;
        let intent = self.intent(evaluation.intent_id)->0;
        (intent.reward + evaluation.stake) as nat
    }

    /// The reward of an unopposed evaluation. For a registered solver the
    /// base is multiplied by what its reputation and its speed earn; for
    /// another account it is the base.
    pub open spec fn finalize_reward(self, evaluation_id: Seq<char>) -> nat {
        let evaluation = self.evaluation(evaluation_id)->0;
        match self.solver(evaluation.solver) {
            Some(solver) => unopposed_reward(
                self.finalize_base(evaluation_id),
                solver.successful_evaluations,
                solver.total_evaluations,
                evaluation.execution_time,
            ),
            None => self.finalize_base(evaluation_id),
        }
    }

    /// Why a finalization is refused, if it is. The checks are made in this
    /// order: the evaluation exists; it is open; its window for challenges
    /// has closed; its intent exists; the base, the reward, and the solver's
    /// counts of outcomes and sum of rewards stay in range.
    pub open spec fn finalize_error(self, evaluation_id: Seq<char>, now: u64) -> Option<
        OracleError,
    > {
        match self.evaluation(evaluation_id) {
            None => Some(OracleError::EvaluationNotFound),
            Some(evaluation) => if evaluation.status != EvaluationStatus::Submitted {
                Some(OracleError::EvaluationAlreadyFinalized)
            } else if now <= evaluation.submitted_at + self.challenge_period {
                Some(OracleError::ChallengePeriodActive)
            } else if self.intent(evaluation.intent_id) is None {
                Some(OracleError::IntentNotFound)
            } else if self.finalize_base(evaluation_id) > u128::MAX || self.finalize_reward(
                evaluation_id,
            ) > u128::MAX {
                Some(OracleError::ArithmeticOverflow)
            } else {
                match self.solver(evaluation.solver) {
                    Some(solver) => if solver.finalized(
                        self.finalize_reward(evaluation_id) as u128,
                        now,
                    ) is None {
                        Some(OracleError::ArithmeticOverflow)
                    } else {
                        None
                    },
                    None => None,
                }
            },
        }
    }

    /// The engine after an admitted finalization: the evaluation is
    /// confirmed, and the solver's record, if there is one, counts one more
    /// resolved outcome, a success, and has earned the reward. The reward is
    /// the one that the reputation before this outcome earns.
    pub open spec fn finalize_effect(self, evaluation_id: Seq<char>, now: u64) -> ContractView {
        let evaluation = self.evaluation(evaluation_id)->0;
        ContractView {
            evaluations: replace(
                self.evaluations,
                evaluation_id,
                EvaluationView { status: EvaluationStatus::Confirmed, ..evaluation },
            ),
            solvers: match self.solver(evaluation.solver) {
                Some(solver) => replace(
                    self.solvers,
                    evaluation.solver,
                    solver.finalized(self.finalize_reward(evaluation_id) as u128, now)->0,
                ),
                None => self.solvers,
            },
            ..self
        }
    }
}

/// An admitted evaluation leaves the engine well formed.
pub proof fn lemma_submit_evaluation_keeps_well_formed(
    pre: ContractView,
    caller: Seq<char>,
    stake: u128,
    intent_id: Seq<char>,
    answer: bool,
    confidence: u64,
    sources: Seq<SourceView>,
    execution_time_ms: u64,
    now: u64,
)
    requires
        pre.well_formed(),
        pre.submit_evaluation_error(caller, stake, intent_id, confidence, sources, now) is None,
    ensures
        pre.submit_evaluation_effect(
            caller,
            stake,
            intent_id,
            answer,
            confidence,
            sources,
            execution_time_ms,
            now,
        ).well_formed(),
{
    reveal(ContractView::keys_well_formed);
    reveal(ContractView::references_well_formed);
    reveal(ContractView::records_well_formed);
    let post = pre.submit_evaluation_effect(
        caller,
        stake,
        intent_id,
        answer,
        confidence,
        sources,
        execution_time_ms,
        now,
    );
    lemma_sources_error_none(sources);
    assert forall|i: int, j: int| 0 <= i < j < post.evaluations.len() implies (
    #[trigger] post.evaluations[i]).key() != (#[trigger] post.evaluations[j]).key() by {
        if j >= pre.evaluations.len() {
            lemma_next_id_is_fresh(
                evaluation_prefix(),
                pre.evaluation_counter as nat,
                pre.evaluations[i].evaluation_id,
            );
        }
    }
    assert forall|i: int, j: int|
        0 <= i < post.challenges.len() && 0 <= j < post.evaluations.len() && (
        #[trigger] post.challenges[i]).evaluation_id == (
        #[trigger] post.evaluations[j]).evaluation_id implies {
        &&& post.evaluations[j].status != EvaluationStatus::Submitted
        &&& post.challenges[i].stake > post.evaluations[j].stake
        &&& post.evaluations[j].status == EvaluationStatus::Challenged
            ==> post.challenges[i].status == ChallengeStatus::Submitted
    } by {
        if j >= pre.evaluations.len() {
            lemma_next_id_is_fresh(
                evaluation_prefix(),
                pre.evaluation_counter as nat,
                pre.challenges[i].evaluation_id,
            );
        }
    }
}

/// An admitted finalization leaves the engine well formed.
pub proof fn lemma_finalize_keeps_well_formed(pre: ContractView, evaluation_id: Seq<char>, now: u64)
    requires
        pre.well_formed(),
        pre.finalize_error(evaluation_id, now) is None,
    ensures
        pre.finalize_effect(evaluation_id, now).well_formed(),
{
    reveal(ContractView::records_well_formed);
    lemma_keys_are_distinct(pre);
    lemma_updated_in_place_keeps_well_formed(pre, pre.finalize_effect(evaluation_id, now));
}

impl OracleIntentContract {
    /// Answers a pending intent. The caller, a registered solver, stakes at
    /// least the minimum and names its answer, its confidence (the bit
    /// pattern of a 64-bit IEEE 754 number between zero and one), its sources
    /// and the time the work took. Returns the new evaluation's identifier.
    pub fn submit_evaluation(
        &mut self,
        caller: String,
        stake: u128,
        intent_id: String,
        answer: bool,
        confidence: u64,
        sources: Vec<Source>,
        execution_time_ms: u64,
        now: u64,
    ) -> (result: Result<String, OracleError>)
        requires
            old(self).well_formed(),
        ensures
            final(self).well_formed(),
            match result {
                Ok(id) => {
                    &&& old(self)@.submit_evaluation_error(
                        caller@,
                        stake,
                        intent_id@,
                        confidence,
                        views(sources@),
                        now,
                    ) is None
                    &&& final(self)@ == old(self)@.submit_evaluation_effect(
                        caller@,
                        stake,
                        intent_id@,
                        answer,
                        confidence,
                        views(sources@),
                        execution_time_ms,
                        now,
                    )
                    &&& id@ == old(self)@.next_evaluation_id()
                },
                Err(e) => {
                    &&& old(self)@.submit_evaluation_error(
                        caller@,
                        stake,
                        intent_id@,
                        confidence,
                        views(sources@),
                        now,
                    ) == Some(e)
                    &&& final(self)@ == old(self)@
                },
            },
    {
        if stake < self.min_stake {
            return Err(OracleError::InsufficientStake);
        }
        if !confidence_is_valid(confidence) {
            return Err(OracleError::ConfidenceOutOfRange);
        }
        if sources.len() == 0 {
            return Err(OracleError::NoSources);
        }
        if sources.len() > MAX_SOURCES_PER_EVALUATION {
            return Err(OracleError::TooManySources);
        }
        if let Some(e) = check_sources(&sources) {
            return Err(e);
        }
        proof {
            lemma_keys_are_distinct(self@);
        }
        let i = match self.find_intent(&intent_id) {
            Some(i) => i,
            None => {
                return Err(OracleError::IntentNotFound);
            },
        };
        if self.intents[i].status != IntentStatus::Pending {
            return Err(OracleError::IntentNotPending);
        }
        if now > self.intents[i].deadline {
            return Err(OracleError::IntentExpired);
        }
        if self.find_solver(&caller).is_none() {
            return Err(OracleError::SolverNotRegistered);
        }
        if self.evaluation_counter == u64::MAX {
            return Err(OracleError::ArithmeticOverflow);
        }
        let ghost pre = self@;
        self.evaluation_counter = self.evaluation_counter + 1;
        let id = evaluation_id_of(self.evaluation_counter);
        let question = match &self.intents[i].question {
            Some(q) => q.clone(),
            None => String::new(),
        };
        let evaluation = OracleEvaluation {
            evaluation_id: id.clone(),
            intent_id,
            solver: caller,
            question,
            answer,
            confidence,
            sources,
            execution_time: execution_time_ms,
            stake,
            status: EvaluationStatus::Submitted,
            submitted_at: now,
        };
        proof {
            lemma_views_push(self.evaluations@, evaluation);
        }
        self.evaluations.push(evaluation);
        let ghost before = self.intents@;
        self.intents[i].status = IntentStatus::InProgress;
        self.intents[i].evaluation_hash = Some(id.clone());
        proof {
            lemma_changed_in_place(before, self.intents@, i as int);
            lemma_submit_evaluation_keeps_well_formed(
                pre,
                caller@,
                stake,
                intent_id@,
                answer,
                confidence,
                views(sources@),
                execution_time_ms,
                now,
            );
        }
        Ok(id)
    }

    /// Finalizes an evaluation that nobody disputed while its window for
    /// challenges was open. The finalization is a resolved outcome of the
    /// solver, and a success: it counts in the solver's reputation from then
    /// on, while the reward is the one that the reputation before it earns.
    /// Returns the transfer of the reward to the solver and, for a registered
    /// solver, the sample for its running means, with the count of outcomes
    /// after this one.
    pub fn finalize_evaluation_reward(&mut self, evaluation_id: String, now: u64) -> (result:
        Result<Finalization, OracleError>)
        requires
            old(self).well_formed(),
        ensures
            final(self).well_formed(),
            match result {
                Ok(Finalization { transfer, sample }) => {
                    &&& old(self)@.finalize_error(evaluation_id@, now) is None
                    &&& final(self)@ == old(self)@.finalize_effect(evaluation_id@, now)
                    &&& transfer@ == (TransferView {
                        recipient: old(self)@.evaluation(evaluation_id@)->0.solver,
                        amount: old(self)@.finalize_reward(evaluation_id@) as u128,
                    })
                    &&& sample_view(sample) == sample_of(
                        old(self)@.evaluation(evaluation_id@)->0,
                        final(self)@.solver(old(self)@.evaluation(evaluation_id@)->0.solver),
                    )
                },
                Err(e) => {
                    &&& old(self)@.finalize_error(evaluation_id@, now) == Some(e)
                    &&& final(self)@ == old(self)@
                },
            },
    {
        proof {
            lemma_keys_are_distinct(self@);
        }
        let ei = match self.find_evaluation(&evaluation_id) {
            Some(i) => i,
            None => {
                return Err(OracleError::EvaluationNotFound);
            },
        };
        if self.evaluations[ei].status != EvaluationStatus::Submitted {
            return Err(OracleError::EvaluationAlreadyFinalized);
        }
        let window_end = self.evaluations[ei].submitted_at as u128 + self.challenge_period as u128;
        if now as u128 <= window_end {
            return Err(OracleError::ChallengePeriodActive);
        }
        let ii = match self.find_intent(&self.evaluations[ei].intent_id) {
            Some(i) => i,
            None => {
                return Err(OracleError::IntentNotFound);
            },
        };
        let base = match self.intents[ii].reward.checked_add(self.evaluations[ei].stake) {
            Some(sum) => sum,
            None => {
                return Err(OracleError::ArithmeticOverflow);
            },
        };
        let si = self.find_solver(&self.evaluations[ei].solver);
        let reward = match si {
            Some(s) => {
                match compute_unopposed_reward(
                    base,
                    self.solvers[s].successful_evaluations,
                    self.solvers[s].total_evaluations,
                    self.evaluations[ei].execution_time,
                ) {
                    Some(r) => r,
                    None => {
                        return Err(OracleError::ArithmeticOverflow);
                    },
                }
            },
            None => base,
        };
        let ghost pre = self@;
        let mut sample: Option<PerformanceSample> = None;
        if let Some(s) = si {
            // The record is changed on a copy first, so that a refusal leaves
            // the engine untouched.
            let mut copy = self.solvers[s].duplicate();
            if !copy.record_finalization(reward, now) {
                return Err(OracleError::ArithmeticOverflow);
            }
            sample = Some(self.evaluations[ei].sample(copy.total_evaluations));
            proof {
                lemma_views_update(self.solvers@, s as int, copy);
                lemma_replace_at(pre.solvers, s as int, copy@);
            }
            self.solvers.set(s, copy);
        }
        let ghost before = self.evaluations@;
        self.evaluations[ei].status = EvaluationStatus::Confirmed;
        proof {
            lemma_changed_in_place(before, self.evaluations@, ei as int);
            lemma_finalize_keeps_well_formed(pre, evaluation_id@, now);
            lemma_keys_are_distinct(pre.finalize_effect(evaluation_id@, now));
            if si is Some {
                lemma_lookup_at(pre.finalize_effect(evaluation_id@, now).solvers, si->0 as int);
            }
        }
        let recipient = self.evaluations[ei].solver.clone();
        Ok(Finalization { transfer: Transfer { recipient, amount: reward }, sample })
    }
}

} // verus!
