//! What holds of the engine as a whole: every operation as a step from one
//! state to the next, and the laws that every step obeys.
use vstd::prelude::*;
use crate::contract::{
    lemma_keys_are_distinct, lemma_profiles_changed_keeps_well_formed,
    lemma_solvers_changed_keeps_well_formed, ContractView,
};
use crate::disputes::{
    lemma_settle_keeps_well_formed, lemma_submit_challenge_keeps_well_formed,
    settled_evaluation_status, winner_of,
};
use crate::error::OracleError;
use crate::evaluations::{
    lemma_finalize_keeps_well_formed, lemma_submit_evaluation_keeps_well_formed,
};
use crate::flags::{count_true, lemma_unflagged_embeds};
use crate::intents::{
    lemma_accept_intent_keeps_well_formed, lemma_complete_intent_keeps_well_formed,
    lemma_submit_intent_keeps_well_formed,
};
use crate::scoring::{reputation, unopposed_reward};
use crate::store::{has_key, lemma_lookup_at, position, Keyed};
use crate::sweeper::{
    cutoff_time, lemma_cleanup_keeps_well_formed, lemma_sweep_keeps_well_formed, refunds,
    swept_intents, DEFAULT_RETENTION_DAYS, MAX_DELETIONS,
};
use crate::types::{
    ChallengeStatus, EvaluationStatus, IntentStatus, IntentView, SolverView, SourceView, StakeView,
    TransferView, UserRole,
};

verus! {

/// An operation on the engine, with its arguments.
pub enum Operation {
    RegisterUser { caller: Seq<char>, role: UserRole, now: u64 },
    VerifyUser { caller: Seq<char>, user_id: Seq<char>, verification_level: u8 },
    UpdateUserRole { caller: Seq<char>, user_id: Seq<char>, new_role: UserRole },
    RegisterSolver { caller: Seq<char>, stake: u128, now: u64 },
    UpdateSpecialization { caller: Seq<char>, areas: Seq<Seq<char>> },
    SubmitIntent {
        caller: Seq<char>,
        stake: u128,
        question: Seq<char>,
        required_sources: Option<u32>,
        deadline_minutes: Option<u64>,
        now: u64,
    },
    AcceptIntent { caller: Seq<char>, intent_id: Seq<char>, now: u64 },
    CompleteIntent { caller: Seq<char>, intent_id: Seq<char>, evaluation_id: Seq<char> },
    SubmitEvaluation {
        caller: Seq<char>,
        stake: u128,
        intent_id: Seq<char>,
        answer: bool,
        confidence: u64,
        sources: Seq<SourceView>,
        execution_time_ms: u64,
        now: u64,
    },
    SubmitChallenge {
        caller: Seq<char>,
        stake: u128,
        evaluation_id: Seq<char>,
        counter_sources: Seq<SourceView>,
        now: u64,
    },
    Settle {
        caller: Seq<char>,
        evaluation_id: Seq<char>,
        challenge_id: Seq<char>,
        winner: Seq<char>,
        now: u64,
    },
    Finalize { evaluation_id: Seq<char>, now: u64 },
    Distribute { caller: Seq<char>, pool: u128, weights: Seq<u64> },
    Sweep { now: u64 },
    Cleanup { caller: Seq<char>, retention_days: u64, now: u64 },
    CleanupLimited { caller: Seq<char>, retention_days: u64, max_deletions: u32, now: u64 },
    Batch { caller: Seq<char>, max_operations: u32, now: u64 },
    AutoCleanup { caller: Seq<char>, now: u64 },
}

impl ContractView {
    /// Why the engine refuses an operation, if it does.
    pub open spec fn refusal(self, op: Operation) -> Option<OracleError> {
        match op {
            Operation::RegisterUser { caller, role, now } => self.register_user_error(caller, role),
            Operation::VerifyUser { caller, user_id, verification_level } => self.verify_user_error(
                caller,
                user_id,
                verification_level,
            ),
            Operation::UpdateUserRole { caller, user_id, new_role } => self.update_user_role_error(
                caller,
                user_id,
            ),
            Operation::RegisterSolver { caller, stake, now } => self.register_solver_error(stake),
            Operation::UpdateSpecialization { caller, areas } => None,
            Operation::SubmitIntent {
                caller,
                stake,
                question,
                required_sources,
                deadline_minutes,
                now,
            } => self.submit_intent_error(stake, question, required_sources, deadline_minutes, now),
            Operation::AcceptIntent { caller, intent_id, now } => self.accept_intent_error(
                caller,
                intent_id,
                now,
            ),
            Operation::CompleteIntent { caller, intent_id, evaluation_id } =>
                self.complete_intent_error(caller, intent_id, evaluation_id),
            Operation::SubmitEvaluation {
                caller,
                stake,
                intent_id,
                answer,
                confidence,
                sources,
                execution_time_ms,
                now,
            } => self.submit_evaluation_error(caller, stake, intent_id, confidence, sources, now),
            Operation::SubmitChallenge { caller, stake, evaluation_id, counter_sources, now } =>
                self.submit_challenge_error(stake, evaluation_id, counter_sources, now),
            Operation::Settle { caller, evaluation_id, challenge_id, winner, now } =>
                self.settle_error(caller, evaluation_id, challenge_id, winner, now),
            Operation::Finalize { evaluation_id, now } => self.finalize_error(evaluation_id, now),
            Operation::Distribute { caller, pool, weights } => self.distribute_error(
                caller,
                pool,
                weights,
            ),
            Operation::Sweep { now } => None,
            Operation::Cleanup { caller, retention_days, now } => self.cleanup_error(caller),
            Operation::CleanupLimited { caller, retention_days, max_deletions, now } =>
                self.cleanup_error(caller),
            Operation::Batch { caller, max_operations, now } => self.batch_error(
                caller,
                max_operations,
                now,
            ),
            Operation::AutoCleanup { caller, now } => self.auto_cleanup_error(caller),
        }
    }

    /// The engine after an operation that it admits.
    pub open spec fn effect(self, op: Operation) -> ContractView {
        match op {
            Operation::RegisterUser { caller, role, now } => self.register_user_effect(
                caller,
                role,
                now,
            ),
            Operation::VerifyUser { caller, user_id, verification_level } =>
                self.verify_user_effect(user_id, verification_level),
            Operation::UpdateUserRole { caller, user_id, new_role } =>
                self.update_user_role_effect(user_id, new_role),
            Operation::RegisterSolver { caller, stake, now } => self.register_solver_effect(
                caller,
                stake,
                now,
            ),
            Operation::UpdateSpecialization { caller, areas } => self.update_specialization_effect(
                caller,
                areas,
            ),
            Operation::SubmitIntent {
                caller,
                stake,
                question,
                required_sources,
                deadline_minutes,
                now,
            } => self.submit_intent_effect(caller, stake, question, deadline_minutes, now),
            Operation::AcceptIntent { caller, intent_id, now } => self.accept_intent_effect(
                intent_id,
            ),
            Operation::CompleteIntent { caller, intent_id, evaluation_id } =>
                self.complete_intent_effect(intent_id, evaluation_id),
            Operation::SubmitEvaluation {
                caller,
                stake,
                intent_id,
                answer,
                confidence,
                sources,
                execution_time_ms,
                now,
            } => self.submit_evaluation_effect(
                caller,
                stake,
                intent_id,
                answer,
                confidence,
                sources,
                execution_time_ms,
                now,
            ),
            Operation::SubmitChallenge { caller, stake, evaluation_id, counter_sources, now } =>
                self.submit_challenge_effect(caller, stake, evaluation_id, counter_sources, now),
            Operation::Settle { caller, evaluation_id, challenge_id, winner, now } =>
                self.settle_effect(evaluation_id, challenge_id, winner_of(winner)->0, now),
            Operation::Finalize { evaluation_id, now } => self.finalize_effect(evaluation_id, now),
            Operation::Distribute { caller, pool, weights } => self.distribute_effect(
                pool,
                weights,
            ),
            Operation::Sweep { now } => self.sweep_effect(now),
            Operation::Cleanup { caller, retention_days, now } => self.cleanup_effect(
                cutoff_time(now, retention_days),
                MAX_DELETIONS as nat,
            ),
            Operation::CleanupLimited { caller, retention_days, max_deletions, now } =>
                self.cleanup_intents_effect(cutoff_time(now, retention_days), max_deletions as nat),
            Operation::Batch { caller, max_operations, now } => self.batch_effect(
                max_operations,
                now,
            ),
            Operation::AutoCleanup { caller, now } => self.auto_cleanup_effect(now),
        }
    }

    /// The engine after an operation: changed as the operation says if the
    /// engine admits it, and unchanged if it refuses.
    pub open spec fn after(self, op: Operation) -> ContractView {
        if self.refusal(op) is None {
            self.effect(op)
        } else {
            self
        }
    }
}

/// The steps that an intent's status may take: it stays, or it goes from
/// pending to in progress or expired, or from in progress to completed or
/// disputed.
pub open spec fn intent_moves_forward(from: IntentStatus, to: IntentStatus) -> bool {
    ||| from == to
    ||| from == IntentStatus::Pending && (to == IntentStatus::InProgress || to
        == IntentStatus::Expired)
    ||| from == IntentStatus::InProgress && (to == IntentStatus::Completed || to
        == IntentStatus::Disputed)
}

/// A solver after a row of resolved outcomes, the first first. `None` when a
/// count would leave its range.
pub open spec fn resolved_all(solver: SolverView, outcomes: Seq<bool>, now: u64) -> Option<
    SolverView,
>
    decreases outcomes.len(),
{
    if outcomes.len() == 0 {
        Some(solver)
    } else {
        match resolved_all(solver, outcomes.drop_last(), now) {
            Some(before) => before.resolved(outcomes.last(), now),
            None => None,
        }
    }
}

/// Every operation leaves a well-formed engine well formed.
pub proof fn lemma_operation_keeps_well_formed(pre: ContractView, op: Operation)
    requires
        pre.well_formed(),
    ensures
        pre.after(op).well_formed(),
{
    if pre.refusal(op) is None {
        lemma_admitted_operation_keeps_well_formed(pre, op);
    }
}

proof fn lemma_admitted_operation_keeps_well_formed(pre: ContractView, op: Operation)
    requires
        pre.well_formed(),
        pre.refusal(op) is None,
    ensures
        pre.effect(op).well_formed(),
{
    let post = pre.effect(op);
    lemma_keys_are_distinct(pre);
    match op {
        Operation::RegisterUser { caller, role, now } => {
            lemma_profiles_changed_keeps_well_formed(pre, post);
        },
        Operation::VerifyUser { caller, user_id, verification_level } => {
            lemma_profiles_changed_keeps_well_formed(pre, post);
        },
        Operation::UpdateUserRole { caller, user_id, new_role } => {
            lemma_profiles_changed_keeps_well_formed(pre, post);
        },
        Operation::RegisterSolver { caller, stake, now } => {
            reveal(ContractView::records_well_formed);
            lemma_solvers_changed_keeps_well_formed(pre, post);
        },
        Operation::UpdateSpecialization { caller, areas } => {
            if pre.solver(caller) is Some {
                reveal(ContractView::records_well_formed);
                lemma_solvers_changed_keeps_well_formed(pre, post);
            }
        },
        Operation::SubmitIntent {
            caller,
            stake,
            question,
            required_sources,
            deadline_minutes,
            now,
        } => {
            lemma_submit_intent_keeps_well_formed(
                pre,
                caller,
                stake,
                question,
                required_sources,
                deadline_minutes,
                now,
            );
        },
        Operation::AcceptIntent { caller, intent_id, now } => {
            lemma_accept_intent_keeps_well_formed(pre, caller, intent_id, now);
        },
        Operation::CompleteIntent { caller, intent_id, evaluation_id } => {
            lemma_complete_intent_keeps_well_formed(pre, caller, intent_id, evaluation_id);
        },
        Operation::SubmitEvaluation {
            caller,
            stake,
            intent_id,
            answer,
            confidence,
            sources,
            execution_time_ms,
            now,
        } => {
            lemma_submit_evaluation_keeps_well_formed(
                pre,
                caller,
                stake,
                intent_id,
                answer,
                confidence,
                sources,
                execution_time_ms,
                now,
            );
        },
        Operation::SubmitChallenge { caller, stake, evaluation_id, counter_sources, now } => {
            lemma_submit_challenge_keeps_well_formed(
                pre,
                caller,
                stake,
                evaluation_id,
                counter_sources,
                now,
            );
        },
        Operation::Settle { caller, evaluation_id, challenge_id, winner, now } => {
            lemma_settle_keeps_well_formed(pre, caller, evaluation_id, challenge_id, winner, now);
        },
        Operation::Finalize { evaluation_id, now } => {
            lemma_finalize_keeps_well_formed(pre, evaluation_id, now);
        },
        Operation::Distribute { caller, pool, weights } => {
            reveal(ContractView::records_well_formed);
            lemma_solvers_changed_keeps_well_formed(pre, post);
        },
        Operation::Sweep { now } => {
            lemma_sweep_keeps_well_formed(pre, now);
        },
        Operation::Cleanup { caller, retention_days, now } => {
            lemma_cleanup_keeps_well_formed(
                pre,
                cutoff_time(now, retention_days),
                MAX_DELETIONS as nat,
            );
        },
        Operation::CleanupLimited { caller, retention_days, max_deletions, now } => {
            lemma_cleanup_keeps_well_formed(
                pre,
                cutoff_time(now, retention_days),
                max_deletions as nat,
            );
        },
        Operation::Batch { caller, max_operations, now } => {
            lemma_sweep_keeps_well_formed(pre, now);
            lemma_cleanup_keeps_well_formed(
                pre.sweep_effect(now),
                cutoff_time(now, DEFAULT_RETENTION_DAYS),
                (max_operations - refunds(pre.intents, now).len()) as nat,
            );
        },
        Operation::AutoCleanup { caller, now } => {
            lemma_sweep_keeps_well_formed(pre, now);
            lemma_cleanup_keeps_well_formed(
                pre.sweep_effect(now),
                cutoff_time(now, DEFAULT_RETENTION_DAYS),
                MAX_DELETIONS as nat,
            );
        },
    }
}

/// The status of an intent moves forward only. Whatever the operation, an
/// intent that is there before and after it has kept its status, or has gone
/// from pending to in progress or expired, or from in progress to completed
/// or disputed. No intent ever becomes pending again.
pub proof fn lemma_intent_status_moves_forward(
    pre: ContractView,
    op: Operation,
    intent_id: Seq<char>,
)
    requires
        pre.well_formed(),
        pre.intent(intent_id) is Some,
        pre.after(op).intent(intent_id) is Some,
    ensures
        intent_moves_forward(
            pre.intent(intent_id)->0.status,
            pre.after(op).intent(intent_id)->0.status,
        ),
        pre.after(op).intent(intent_id)->0.status == IntentStatus::Pending ==> pre.intent(
            intent_id,
        )->0.status == IntentStatus::Pending,
{
    if pre.refusal(op) is None {
        lemma_admitted_intent_status_moves_forward(pre, op, intent_id);
    }
}

proof fn lemma_admitted_intent_status_moves_forward(
    pre: ContractView,
    op: Operation,
    intent_id: Seq<char>,
)
    requires
        pre.well_formed(),
        pre.refusal(op) is None,
        pre.intent(intent_id) is Some,
        pre.effect(op).intent(intent_id) is Some,
    ensures
        intent_moves_forward(
            pre.intent(intent_id)->0.status,
            pre.effect(op).intent(intent_id)->0.status,
        ),
{
    let post = pre.effect(op);
    lemma_keys_are_distinct(pre);
    lemma_operation_keeps_well_formed(pre, op);
    lemma_keys_are_distinct(post);
    let p = position(pre.intents, intent_id);
    match op {
        Operation::SubmitIntent {
            caller,
            stake,
            question,
            required_sources,
            deadline_minutes,
            now,
        } => {
            assert(post.intents[p] == pre.intents[p]);
        },
        Operation::Cleanup { caller, retention_days, now } => {
            let cutoff = cutoff_time(now, retention_days);
            lemma_unflagged_embeds(
                pre.intents,
                pre.intents_to_prune(cutoff, MAX_DELETIONS as nat),
            );
        },
        Operation::CleanupLimited { caller, retention_days, max_deletions, now } => {
            let cutoff = cutoff_time(now, retention_days);
            lemma_unflagged_embeds(
                pre.intents,
                pre.intents_to_prune(cutoff, max_deletions as nat),
            );
        },
        Operation::Batch { caller, max_operations, now } => {
            let mid = pre.sweep_effect(now);
            if pre.batch_cleans(max_operations, now) {
                lemma_unflagged_embeds(
                    mid.intents,
                    mid.intents_to_prune(
                        cutoff_time(now, DEFAULT_RETENTION_DAYS),
                        (max_operations - refunds(pre.intents, now).len()) as nat,
                    ),
                );
            }
        },
        Operation::AutoCleanup { caller, now } => {
            let mid = pre.sweep_effect(now);
            if pre.auto_cleans() {
                lemma_unflagged_embeds(
                    mid.intents,
                    mid.intents_to_prune(
                        cutoff_time(now, DEFAULT_RETENTION_DAYS),
                        MAX_DELETIONS as nat,
                    ),
                );
            }
        },
        _ => {},
    }
}

/// The status that an operation gives to an evaluation in a given status: an
/// admitted challenge puts it under challenge, an admitted settlement decides
/// it for or against the challenger, an admitted finalization confirms it,
/// and nothing else touches it.
pub open spec fn evaluation_status_after(
    pre: ContractView,
    op: Operation,
    evaluation_id: Seq<char>,
    before: EvaluationStatus,
) -> EvaluationStatus {
    if pre.refusal(op) is Some {
        before
    } else {
        match op {
            Operation::SubmitChallenge {
                caller,
                stake,
                evaluation_id: target,
                counter_sources,
                now,
            } => if target == evaluation_id {
                EvaluationStatus::Challenged
            } else {
                before
            },
            Operation::Settle { caller, evaluation_id: target, challenge_id, winner, now } =>
                if target == evaluation_id {
                    settled_evaluation_status(winner_of(winner)->0)
                } else {
                    before
                },
            Operation::Finalize { evaluation_id: target, now } => if target == evaluation_id {
                EvaluationStatus::Confirmed
            } else {
                before
            },
            _ => before,
        }
    }
}

/// The steps that an evaluation's status may take: it stays, or it goes from
/// submitted to challenged or confirmed, or from challenged to confirmed or
/// refuted.
pub open spec fn evaluation_moves_forward(from: EvaluationStatus, to: EvaluationStatus) -> bool {
    ||| from == to
    ||| from == EvaluationStatus::Submitted && (to == EvaluationStatus::Challenged || to
        == EvaluationStatus::Confirmed)
    ||| from == EvaluationStatus::Challenged && (to == EvaluationStatus::Confirmed || to
        == EvaluationStatus::Refuted)
}

/// The steps that a challenge's status may take: it stays, or it goes from
/// submitted to successful or failed.
pub open spec fn challenge_moves_forward(from: ChallengeStatus, to: ChallengeStatus) -> bool {
    ||| from == to
    ||| from == ChallengeStatus::Submitted && (to == ChallengeStatus::Successful || to
        == ChallengeStatus::Failed)
}

/// What an operation does to the status of an evaluation that is there
/// before and after it: an admitted challenge, settlement or finalization of
/// this evaluation sets it, and every other operation leaves it alone.
pub proof fn lemma_evaluation_status_after(
    pre: ContractView,
    op: Operation,
    evaluation_id: Seq<char>,
)
    requires
        pre.well_formed(),
        pre.evaluation(evaluation_id) is Some,
        pre.after(op).evaluation(evaluation_id) is Some,
    ensures
        pre.after(op).evaluation(evaluation_id)->0.status == evaluation_status_after(
            pre,
            op,
            evaluation_id,
            pre.evaluation(evaluation_id)->0.status,
        ),
{
    if pre.refusal(op) is None {
        let post = pre.effect(op);
        lemma_keys_are_distinct(pre);
        lemma_operation_keeps_well_formed(pre, op);
        lemma_keys_are_distinct(post);
        let p = position(pre.evaluations, evaluation_id);
        match op {
            Operation::SubmitEvaluation {
                caller,
                stake,
                intent_id,
                answer,
                confidence,
                sources,
                execution_time_ms,
                now,
            } => {
                assert(post.evaluations[p] == pre.evaluations[p]);
            },
            Operation::Cleanup { caller, retention_days, now } => {
                let cutoff = cutoff_time(now, retention_days);
                lemma_unflagged_embeds(
                    pre.evaluations,
                    pre.evaluations_to_prune(cutoff, MAX_DELETIONS as nat),
                );
            },
            Operation::AutoCleanup { caller, now } => {
                let mid = pre.sweep_effect(now);
                if pre.auto_cleans() {
                    lemma_unflagged_embeds(
                        mid.evaluations,
                        mid.evaluations_to_prune(
                            cutoff_time(now, DEFAULT_RETENTION_DAYS),
                            MAX_DELETIONS as nat,
                        ),
                    );
                }
            },
            _ => {},
        }
    }
}

/// The status of an evaluation moves forward only. Whatever the operation,
/// an evaluation that is there before and after it has kept its status, or
/// has gone from submitted to challenged or confirmed, or from challenged to
/// confirmed or refuted. A decided evaluation stays as it is, so that no
/// evaluation is paid for twice.
pub proof fn lemma_evaluation_status_moves_forward(
    pre: ContractView,
    op: Operation,
    evaluation_id: Seq<char>,
)
    requires
        pre.well_formed(),
        pre.evaluation(evaluation_id) is Some,
        pre.after(op).evaluation(evaluation_id) is Some,
    ensures
        evaluation_moves_forward(
            pre.evaluation(evaluation_id)->0.status,
            pre.after(op).evaluation(evaluation_id)->0.status,
        ),
{
    lemma_evaluation_status_after(pre, op, evaluation_id);
}

/// From under challenge an evaluation goes to confirmed or refuted, and it
/// does so by a settlement of its dispute and by nothing else. Whatever the
/// operation, an evaluation under challenge that is still there after it is
/// still under challenge, unless the operation is an admitted settlement of
/// this evaluation: then it is refuted if the challenger wins and confirmed
/// otherwise.
pub proof fn lemma_challenged_leaves_by_settlement(
    pre: ContractView,
    op: Operation,
    evaluation_id: Seq<char>,
)
    requires
        pre.well_formed(),
        pre.evaluation(evaluation_id) is Some,
        pre.evaluation(evaluation_id)->0.status == EvaluationStatus::Challenged,
        pre.after(op).evaluation(evaluation_id) is Some,
    ensures
        match op {
            Operation::Settle { caller, evaluation_id: settled, challenge_id, winner, now } =>
                if settled == evaluation_id && pre.refusal(op) is None {
                    pre.after(op).evaluation(evaluation_id)->0.status == settled_evaluation_status(
                        winner_of(winner)->0,
                    )
                } else {
                    pre.after(op).evaluation(evaluation_id)->0.status
                        == EvaluationStatus::Challenged
                },
            _ => pre.after(op).evaluation(evaluation_id)->0.status == EvaluationStatus::Challenged,
        },
        pre.after(op).evaluation(evaluation_id)->0.status == EvaluationStatus::Challenged
            || pre.after(op).evaluation(evaluation_id)->0.status == EvaluationStatus::Confirmed
            || pre.after(op).evaluation(evaluation_id)->0.status == EvaluationStatus::Refuted,
{
    lemma_evaluation_status_after(pre, op, evaluation_id);
}

/// Whether the operation is a settlement with the given challenge.
pub open spec fn settles(op: Operation, challenge_id: Seq<char>) -> bool {
    match op {
        Operation::Settle { caller, evaluation_id, challenge_id: settled, winner, now } => settled
            == challenge_id,
        _ => false,
    }
}

/// The challenge against an evaluation under challenge is undecided.
pub proof fn lemma_settled_challenge_was_undecided(
    pre: ContractView,
    evaluation_id: Seq<char>,
    challenge_id: Seq<char>,
)
    requires
        pre.well_formed(),
        pre.evaluation(evaluation_id) is Some,
        pre.evaluation(evaluation_id)->0.status == EvaluationStatus::Challenged,
        pre.challenge(challenge_id) is Some,
        pre.challenge(challenge_id)->0.evaluation_id == evaluation_id,
    ensures
        pre.challenge(challenge_id)->0.status == ChallengeStatus::Submitted,
{
    reveal(ContractView::references_well_formed);
}

/// A challenge is decided once. Whatever the operation, a challenge that is
/// there before and after it has kept its status, or has gone from submitted
/// to successful or failed; and only an admitted settlement with this
/// challenge changes its status.
pub proof fn lemma_challenge_status_moves_forward(
    pre: ContractView,
    op: Operation,
    challenge_id: Seq<char>,
)
    requires
        pre.well_formed(),
        pre.challenge(challenge_id) is Some,
        pre.after(op).challenge(challenge_id) is Some,
    ensures
        challenge_moves_forward(
            pre.challenge(challenge_id)->0.status,
            pre.after(op).challenge(challenge_id)->0.status,
        ),
        pre.after(op).challenge(challenge_id)->0.status != pre.challenge(challenge_id)->0.status
            ==> pre.refusal(op) is None && settles(op, challenge_id),
{
    if pre.refusal(op) is None {
        let post = pre.effect(op);
        lemma_keys_are_distinct(pre);
        lemma_operation_keeps_well_formed(pre, op);
        lemma_keys_are_distinct(post);
        let p = position(pre.challenges, challenge_id);
        match op {
            Operation::SubmitChallenge { caller, stake, evaluation_id, counter_sources, now } => {
                assert(post.challenges[p] == pre.challenges[p]);
            },
            Operation::Settle { caller, evaluation_id, challenge_id: target, winner, now } => {
                if target == challenge_id {
                    // the challenge disputes an evaluation under challenge,
                    // so it is the one undecided challenge against it
                    lemma_settled_challenge_was_undecided(pre, evaluation_id, challenge_id);
                }
            },
            Operation::Cleanup { caller, retention_days, now } => {
                let cutoff = cutoff_time(now, retention_days);
                lemma_unflagged_embeds(
                    pre.challenges,
                    pre.challenges_to_prune(cutoff, MAX_DELETIONS as nat),
                );
            },
            Operation::AutoCleanup { caller, now } => {
                let mid = pre.sweep_effect(now);
                if pre.auto_cleans() {
                    lemma_unflagged_embeds(
                        mid.challenges,
                        mid.challenges_to_prune(
                            cutoff_time(now, DEFAULT_RETENTION_DAYS),
                            MAX_DELETIONS as nat,
                        ),
                    );
                }
            },
            _ => {},
        }
    }
}

/// After an admitted registration as solver the account's bond is the stake
/// that it registered with, and its record is a fresh one with that stake.
pub proof fn lemma_registration_bonds_the_stake(
    pre: ContractView,
    caller: Seq<char>,
    stake: u128,
    now: u64,
)
    requires
        pre.well_formed(),
        pre.register_solver_error(stake) is None,
    ensures
        pre.register_solver_effect(caller, stake, now).solver_stake(caller) == Some(
            StakeView { account: caller, amount: stake },
        ),
        pre.register_solver_effect(caller, stake, now).solver(caller) == Some(
            SolverView::fresh(caller, stake, now),
        ),
{
    let post = pre.register_solver_effect(caller, stake, now);
    lemma_keys_are_distinct(pre);
    lemma_operation_keeps_well_formed(pre, Operation::RegisterSolver { caller, stake, now });
    lemma_keys_are_distinct(post);
    let b = if has_key(pre.solver_stakes, caller) {
        position(pre.solver_stakes, caller)
    } else {
        pre.solver_stakes.len() as int
    };
    let r = if has_key(pre.solvers, caller) {
        position(pre.solvers, caller)
    } else {
        pre.solvers.len() as int
    };
    lemma_lookup_at(post.solver_stakes, b);
    lemma_lookup_at(post.solvers, r);
}

/// An unopposed finalization is a resolved outcome of its solver, and a
/// success. After an admitted finalization the record of a registered solver
/// counts one more outcome and one more success than before, and has earned
/// the reward, which is the one that the counts before the finalization
/// earn.
pub proof fn lemma_finalization_counts_as_success(
    pre: ContractView,
    evaluation_id: Seq<char>,
    now: u64,
)
    requires
        pre.well_formed(),
        pre.finalize_error(evaluation_id, now) is None,
        pre.solver(pre.evaluation(evaluation_id)->0.solver) is Some,
    ensures
        ({
            let account = pre.evaluation(evaluation_id)->0.solver;
            let before = pre.solver(account)->0;
            let after = pre.finalize_effect(evaluation_id, now).solver(account);
            &&& after is Some
            &&& after->0.total_evaluations == before.total_evaluations + 1
            &&& after->0.successful_evaluations == before.successful_evaluations + 1
            &&& after->0.performance_metrics.total_rewards_earned
                == before.performance_metrics.total_rewards_earned + pre.finalize_reward(
                evaluation_id,
            )
            &&& pre.finalize_reward(evaluation_id) == unopposed_reward(
                pre.finalize_base(evaluation_id),
                before.successful_evaluations,
                before.total_evaluations,
                pre.evaluation(evaluation_id)->0.execution_time,
            )
        }),
{
    let account = pre.evaluation(evaluation_id)->0.solver;
    let post = pre.finalize_effect(evaluation_id, now);
    lemma_keys_are_distinct(pre);
    lemma_finalize_keeps_well_formed(pre, evaluation_id, now);
    lemma_keys_are_distinct(post);
    let i = position(pre.solvers, account);
    lemma_lookup_at(post.solvers, i);
}

/// An intent that an evaluation answers is not pending, so that no sweep ever
/// expires or refunds it: the stake of an answered intent is not paid back to
/// its initiator behind the solver's back.
pub proof fn lemma_answered_intent_is_never_swept(
    pre: ContractView,
    intent_id: Seq<char>,
    evaluation_id: Seq<char>,
    now: u64,
)
    requires
        pre.well_formed(),
        pre.intent(intent_id) is Some,
        pre.evaluation(evaluation_id) is Some,
        pre.evaluation(evaluation_id)->0.intent_id == intent_id,
    ensures
        !pre.intent(intent_id)->0.is_overdue(now),
        pre.sweep_effect(now).intent(intent_id) == pre.intent(intent_id),
{
    reveal(ContractView::references_well_formed);
    lemma_keys_are_distinct(pre);
    let i = position(pre.intents, intent_id);
    assert(pre.sweep_effect(now).intents[i] == pre.intents[i]);
}

/// A solver's reputation is the share of successes among its resolved
/// outcomes. After a row of outcomes the count of outcomes has grown by
/// their number and the count of successes by the number of successes among
/// them; for a solver that started without an outcome the reputation is then
/// successes over outcomes, and one over one as long as there is no outcome.
pub proof fn lemma_reputation_counts_outcomes(solver: SolverView, outcomes: Seq<bool>, now: u64)
    requires
        resolved_all(solver, outcomes, now) is Some,
    ensures
        resolved_all(solver, outcomes, now)->0.total_evaluations == solver.total_evaluations
            + outcomes.len(),
        resolved_all(solver, outcomes, now)->0.successful_evaluations
            == solver.successful_evaluations + count_true(outcomes),
        solver.total_evaluations == 0 && solver.successful_evaluations == 0 ==> reputation(
            resolved_all(solver, outcomes, now)->0.successful_evaluations,
            resolved_all(solver, outcomes, now)->0.total_evaluations,
        ) == if outcomes.len() == 0 {
            (1nat, 1nat)
        } else {
            (count_true(outcomes), outcomes.len())
        },
    decreases outcomes.len(),
{
    if outcomes.len() > 0 {
        lemma_reputation_counts_outcomes(solver, outcomes.drop_last(), now);
    }
}

/// A challenge whose stake does not exceed the stake of the evaluation is
/// refused, whatever else is true of it.
pub proof fn lemma_challenge_needs_larger_stake(
    pre: ContractView,
    stake: u128,
    evaluation_id: Seq<char>,
    counter_sources: Seq<SourceView>,
    now: u64,
)
    requires
        pre.evaluation(evaluation_id) is Some ==> stake <= pre.evaluation(evaluation_id)->0.stake,
    ensures
        pre.submit_challenge_error(stake, evaluation_id, counter_sources, now) is Some,
        pre.evaluation(evaluation_id) is Some ==> pre.submit_challenge_error(
            stake,
            evaluation_id,
            counter_sources,
            now,
        ) == Some(OracleError::ChallengeStakeTooLow),
{
}

/// After a sweep no refund is owed at the time of the sweep or before.
pub proof fn lemma_nothing_overdue_after_sweep(intents: Seq<IntentView>, now: u64, later: u64)
    requires
        later <= now,
    ensures
        refunds(swept_intents(intents, now), later) == Seq::<TransferView>::empty(),
    decreases intents.len(),
{
    if intents.len() > 0 {
        lemma_nothing_overdue_after_sweep(intents.drop_last(), now, later);
        assert(swept_intents(intents, now).drop_last() =~= swept_intents(
            intents.drop_last(),
            now,
        ));
    }
}

/// A sweep right after a sweep does nothing: it changes no intent and owes
/// no refund. This holds of a second sweep at the time of the first or
/// before it.
pub proof fn lemma_sweep_is_idempotent(pre: ContractView, now: u64, later: u64)
    requires
        later <= now,
    ensures
        pre.sweep_effect(now).sweep_effect(later) == pre.sweep_effect(now),
        refunds(pre.sweep_effect(now).intents, later).len() == 0,
{
    lemma_nothing_overdue_after_sweep(pre.intents, now, later);
    assert(swept_intents(swept_intents(pre.intents, now), later) =~= swept_intents(
        pre.intents,
        now,
    ));
}

} // verus!
