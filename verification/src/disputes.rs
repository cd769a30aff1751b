//! Disputes: a challenge against an evaluation, and its settlement.
use vstd::prelude::*;
use vstd::string::StringExecFns;
use crate::contract::{
    lemma_keys_are_distinct, lemma_updated_in_place_keeps_well_formed, ContractView,
    OracleIntentContract,
};
use crate::error::OracleError;
use crate::store::{distinct_keys, lemma_replace_at, replace, Keyed};
use crate::text::{challenge_id_of, challenge_prefix, id_text, lemma_next_id_is_fresh};
use crate::types::{
    lemma_views_push, lemma_views_update, sample_of, sample_view, total_amount, views,
    ChallengeStatus, ChallengeView, EvaluationStatus, EvaluationView, OracleSolver,
    PerformanceSample, RefutationChallenge, SampleView, SolverView, Source, SourceView, Transfer,
    TransferView, Winner,
};

verus! {

/// What a settlement owes: the transfers of the stakes and, when the
/// evaluator wins and is a registered solver, a sample for the running means
/// of its work.
#[derive(Debug)]
pub struct Settlement {
    pub transfers: Vec<Transfer>,
    pub sample: Option<PerformanceSample>,
}

/// The sample that a settlement adds to the means of the evaluator's work:
/// one when the evaluator wins, for a registered solver, with the resolved
/// outcomes that it has after the settlement.
pub open spec fn settlement_sample(
    evaluation: EvaluationView,
    solver_after: Option<SolverView>,
    winner: Winner,
) -> Option<SampleView> {
    if winner == Winner::Evaluator {
        sample_of(evaluation, solver_after)
    } else {
        None
    }
}

/// The winner that a text names: `evaluator`, `challenger` or `tie`.
pub open spec fn winner_of(text: Seq<char>) -> Option<Winner> {
    if text == "evaluator"@ {
        Some(Winner::Evaluator)
    } else if text == "challenger"@ {
        Some(Winner::Challenger)
    } else if text == "tie"@ {
        Some(Winner::Tie)
    } else {
        None
    }
}

/// Reads the name of a winner.
pub fn parse_winner(text: &String) -> (winner: Option<Winner>)
    ensures
        winner == winner_of(text@),
{
    if *text == String::from_str("evaluator") {
        Some(Winner::Evaluator)
    } else if *text == String::from_str("challenger") {
        Some(Winner::Challenger)
    } else if *text == String::from_str("tie") {
        Some(Winner::Tie)
    } else {
        None
    }
}

/// The status in which a settlement leaves the evaluation: refuted when the
/// challenger wins, confirmed otherwise.
pub open spec fn settled_evaluation_status(winner: Winner) -> EvaluationStatus {
    match winner {
        Winner::Challenger => EvaluationStatus::Refuted,
        _ => EvaluationStatus::Confirmed,
    }
}

/// The status in which a settlement leaves the challenge: successful when the
/// challenger wins, failed otherwise.
pub open spec fn settled_challenge_status(winner: Winner) -> ChallengeStatus {
    match winner {
        Winner::Challenger => ChallengeStatus::Successful,
        _ => ChallengeStatus::Failed,
    }
}

/// The transfers that a settlement owes. The winner takes both stakes; in a
/// tie each side takes its own stake back.
pub open spec fn settlement_transfers(
    evaluation: EvaluationView,
    challenge: ChallengeView,
    winner: Winner,
) -> Seq<TransferView> {
    let pool = (evaluation.stake + challenge.stake) as u128;
    match winner {
        Winner::Evaluator => seq![TransferView { recipient: evaluation.solver, amount: pool }],
        Winner::Challenger => seq![TransferView { recipient: challenge.challenger, amount: pool }],
        Winner::Tie => seq![
            TransferView { recipient: evaluation.solver, amount: evaluation.stake },
            TransferView { recipient: challenge.challenger, amount: challenge.stake },
        ],
    }
}

/// The record after one more resolved outcome, where that applies to it.
pub open spec fn then_resolved(
    record: Option<SolverView>,
    applies: bool,
    success: bool,
    now: u64,
) -> Option<SolverView> {
    if applies && record is Some {
        record->0.resolved(success, now)
    } else {
        record
    }
}

/// The record after one more challenge against it, where that applies to
/// it.
pub open spec fn then_challenged(
    record: Option<SolverView>,
    applies: bool,
    defended: bool,
) -> Option<SolverView> {
    if applies && record is Some {
        record->0.challenged(defended)
    } else {
        record
    }
}

/// The record after a reward, where that applies to it.
pub open spec fn then_rewarded(
    record: Option<SolverView>,
    applies: bool,
    amount: u128,
    now: u64,
) -> Option<SolverView> {
    if applies && record is Some {
        record->0.rewarded(amount, now)
    } else {
        record
    }
}

/// The record after a lost stake, where that applies to it.
pub open spec fn then_penalized(
    record: Option<SolverView>,
    applies: bool,
    amount: u128,
) -> Option<SolverView> {
    if applies && record is Some {
        record->0.penalized(amount)
    } else {
        record
    }
}

/// A solver's record after a settlement between the account `solver`, whose
/// evaluation carried `stake`, and the account `challenger`, over `pool`.
///
/// When the evaluator wins, its record gains a success, a defended challenge
/// and the pool as a reward, and the challenger's record gains a failure. When
/// the challenger wins, its record gains a success, and the evaluator's record
/// gains an undefended challenge, a failure and a lost stake. A tie changes no
/// record. Records of other accounts never change. `None` when a count or a
/// sum would leave its range.
pub open spec fn settled_solver(
    record: SolverView,
    solver: Seq<char>,
    challenger: Seq<char>,
    winner: Winner,
    stake: u128,
    pool: u128,
    now: u64,
) -> Option<SolverView> {
    let is_solver = record.solver_id == solver;
    let is_challenger = record.solver_id == challenger;
    match winner {
        Winner::Evaluator => then_rewarded(
            then_resolved(
                then_challenged(then_resolved(Some(record), is_solver, true, now), is_solver, true),
                is_challenger,
                false,
                now,
            ),
            is_solver,
            pool,
            now,
        ),
        Winner::Challenger => then_penalized(
            then_resolved(
                then_challenged(
                    then_resolved(Some(record), is_challenger, true, now),
                    is_solver,
                    false,
                ),
                is_solver,
                false,
                now,
            ),
            is_solver,
            stake,
        ),
        Winner::Tie => Some(record),
    }
}

/// All solvers' records after a settlement, or `None` when one of them has a
/// count or a sum that would leave its range.
pub open spec fn settled_solvers(
    solvers: Seq<SolverView>,
    solver: Seq<char>,
    challenger: Seq<char>,
    winner: Winner,
    stake: u128,
    pool: u128,
    now: u64,
) -> Option<Seq<SolverView>> {
    if forall|i: int|
        0 <= i < solvers.len() ==> settled_solver(
            #[trigger] solvers[i],
            solver,
            challenger,
            winner,
            stake,
            pool,
            now,
        ) is Some {
        Some(
            Seq::new(
                solvers.len(),
                |i: int|
                    settled_solver(solvers[i], solver, challenger, winner, stake, pool, now)->0,
            ),
        )
    } else {
        None
    }
}

impl ContractView {
    /// Why a challenge is refused, if it is. The checks are made in this
    /// order: the evaluation exists; the stake exceeds the evaluation's stake;
    /// there are counter sources; the evaluation is open; the window for
    /// challenges has not closed; a further identifier can be issued.
    pub open spec fn submit_challenge_error(
        self,
        stake: u128,
        evaluation_id: Seq<char>,
        counter_sources: Seq<SourceView>,
        now: u64,
    ) -> Option<OracleError> {
        match self.evaluation(evaluation_id) {
            None => Some(OracleError::EvaluationNotFound),
            Some(evaluation) => if stake <= evaluation.stake {
                Some(OracleError::ChallengeStakeTooLow)
            } else if counter_sources.len() == 0 {
                Some(OracleError::NoCounterSources)
            } else if evaluation.status != EvaluationStatus::Submitted {
                Some(OracleError::EvaluationNotOpen)
            } else if now > evaluation.submitted_at + self.challenge_period {
                Some(OracleError::ChallengePeriodExpired)
            } else if self.challenge_counter == u64::MAX {
                Some(OracleError::ArithmeticOverflow)
            } else {
                None
            },
        }
    }

    /// The identifier that the next challenge gets.
    pub open spec fn next_challenge_id(self) -> Seq<char> {
        id_text(challenge_prefix(), (self.challenge_counter + 1) as nat)
    }

    /// The engine after an admitted challenge: one more challenge, and the
    /// evaluation under challenge.
    pub open spec fn submit_challenge_effect(
        self,
        caller: Seq<char>,
        stake: u128,
        evaluation_id: Seq<char>,
        counter_sources: Seq<SourceView>,
        now: u64,
    ) -> ContractView {
        let evaluation = self.evaluation(evaluation_id)->0;
        ContractView {
            challenge_counter: (self.challenge_counter + 1) as u64,
            challenges: self.challenges.push(
                ChallengeView {
                    challenge_id: self.next_challenge_id(),
                    evaluation_id,
                    challenger: caller,
                    counter_sources,
                    stake,
                    status: ChallengeStatus::Submitted,
                    submitted_at: now,
                },
            ),
            evaluations: replace(
                self.evaluations,
                evaluation_id,
                EvaluationView { status: EvaluationStatus::Challenged, ..evaluation },
            ),
            ..self
        }
    }

    /// Why a settlement is refused, if it is. The checks are made in this
    /// order: the caller is the owner; the evaluation exists; the challenge
    /// exists; the evaluation is under challenge; the challenge disputes this
    /// evaluation; the two stakes have a sum; the winner is named; no solver's
    /// count or sum leaves its range.
    pub open spec fn settle_error(
        self,
        caller: Seq<char>,
        evaluation_id: Seq<char>,
        challenge_id: Seq<char>,
        winner: Seq<char>,
        now: u64,
    ) -> Option<OracleError> {
        if !self.is_owner(caller) {
            Some(OracleError::NotOwner)
        } else if self.evaluation(evaluation_id) is None {
            Some(OracleError::EvaluationNotFound)
        } else if self.challenge(challenge_id) is None {
            Some(OracleError::ChallengeNotFound)
        } else {
            let evaluation = self.evaluation(evaluation_id)->0;
            let challenge = self.challenge(challenge_id)->0;
            if evaluation.status != EvaluationStatus::Challenged {
                Some(OracleError::EvaluationNotChallenged)
            } else if challenge.evaluation_id != evaluation_id {
                Some(OracleError::ChallengeEvaluationMismatch)
            } else if evaluation.stake + challenge.stake > u128::MAX {
                Some(OracleError::ArithmeticOverflow)
            } else if winner_of(winner) is None {
                Some(OracleError::InvalidWinner)
            } else if settled_solvers(
                self.solvers,
                evaluation.solver,
                challenge.challenger,
                winner_of(winner)->0,
                evaluation.stake,
                (evaluation.stake + challenge.stake) as u128,
                now,
            ) is None {
                Some(OracleError::ArithmeticOverflow)
            } else {
                None
            }
        }
    }

    /// The engine after an admitted settlement: the evaluation and the
    /// challenge are decided, and the solvers' records are brought up to date.
    pub open spec fn settle_effect(
        self,
        evaluation_id: Seq<char>,
        challenge_id: Seq<char>,
        winner: Winner,
        now: u64,
    ) -> ContractView {
        let evaluation = self.evaluation(evaluation_id)->0;
        let challenge = self.challenge(challenge_id)->0;
        ContractView {
            evaluations: replace(
                self.evaluations,
                evaluation_id,
                EvaluationView { status: settled_evaluation_status(winner), ..evaluation },
            ),
            challenges: replace(
                self.challenges,
                challenge_id,
                ChallengeView { status: settled_challenge_status(winner), ..challenge },
            ),
            solvers: settled_solvers(
                self.solvers,
                evaluation.solver,
                challenge.challenger,
                winner,
                evaluation.stake,
                (evaluation.stake + challenge.stake) as u128,
                now,
            )->0,
            ..self
        }
    }
}

/// A settlement pays out the two stakes, no more and no less, whoever wins.
pub proof fn lemma_settlement_conserves_stakes(
    evaluation: EvaluationView,
    challenge: ChallengeView,
    winner: Winner,
)
    requires
        evaluation.stake + challenge.stake <= u128::MAX,
    ensures
        total_amount(settlement_transfers(evaluation, challenge, winner)) == evaluation.stake
            + challenge.stake,
{
    reveal_with_fuel(total_amount, 3);
}

/// An admitted challenge leaves the engine well formed.
pub proof fn lemma_submit_challenge_keeps_well_formed(
    pre: ContractView,
    caller: Seq<char>,
    stake: u128,
    evaluation_id: Seq<char>,
    counter_sources: Seq<SourceView>,
    now: u64,
)
    requires
        pre.well_formed(),
        pre.submit_challenge_error(stake, evaluation_id, counter_sources, now) is None,
    ensures
        pre.submit_challenge_effect(
            caller,
            stake,
            evaluation_id,
            counter_sources,
            now,
        ).well_formed(),
{
    reveal(ContractView::keys_well_formed);
    reveal(ContractView::references_well_formed);
    reveal(ContractView::records_well_formed);
    let post = pre.submit_challenge_effect(caller, stake, evaluation_id, counter_sources, now);
    assert forall|i: int, j: int| 0 <= i < j < post.challenges.len() implies (
    #[trigger] post.challenges[i]).key() != (#[trigger] post.challenges[j]).key() by {
        if j >= pre.challenges.len() {
            lemma_next_id_is_fresh(
                challenge_prefix(),
                pre.challenge_counter as nat,
                pre.challenges[i].challenge_id,
            );
        }
    }
}

/// A settlement leaves the engine well formed.
pub proof fn lemma_settle_keeps_well_formed(
    pre: ContractView,
    caller: Seq<char>,
    evaluation_id: Seq<char>,
    challenge_id: Seq<char>,
    winner: Seq<char>,
    now: u64,
)
    requires
        pre.well_formed(),
        pre.settle_error(caller, evaluation_id, challenge_id, winner, now) is None,
    ensures
        pre.settle_effect(evaluation_id, challenge_id, winner_of(winner)->0, now).well_formed(),
{
    reveal(ContractView::records_well_formed);
    lemma_keys_are_distinct(pre);
    let w = winner_of(winner)->0;
    let post = pre.settle_effect(evaluation_id, challenge_id, w, now);
    lemma_updated_in_place_keeps_well_formed(pre, post);
}

impl OracleSolver {
    /// Brings a solver's record up to date with a settlement between the
    /// accounts `solver` and `challenger`. Returns `false` when a count or a
    /// sum would leave its range; the record may then be partly changed.
    pub fn record_settlement(
        &mut self,
        solver: &String,
        challenger: &String,
        winner: Winner,
        stake: u128,
        pool: u128,
        now: u64,
    ) -> (done: bool)
        ensures
            match settled_solver(old(self)@, solver@, challenger@, winner, stake, pool, now) {
                Some(after) => done && final(self)@ == after,
                None => !done,
            },
    {
        let is_solver = self.solver_id == *solver;
        let is_challenger = self.solver_id == *challenger;
        match winner {
            Winner::Evaluator => {
                if is_solver && !self.record_resolution(true, now) {
                    return false;
                }
                if is_solver && !self.record_challenge(true) {
                    return false;
                }
                if is_challenger && !self.record_resolution(false, now) {
                    return false;
                }
                if is_solver && !self.record_reward(pool, now) {
                    return false;
                }
                true
            },
            Winner::Challenger => {
                if is_challenger && !self.record_resolution(true, now) {
                    return false;
                }
                if is_solver && !self.record_challenge(false) {
                    return false;
                }
                if is_solver && !self.record_resolution(false, now) {
                    return false;
                }
                if is_solver && !self.record_lost_stake(stake) {
                    return false;
                }
                true
            },
            Winner::Tie => true,
        }
    }
}

impl OracleIntentContract {
    /// Disputes an evaluation. The caller stakes more than the evaluation's
    /// solver did and names counter sources, while the evaluation is open and
    /// its window for challenges has not closed. Returns the new challenge's
    /// identifier.
    pub fn submit_challenge(
        &mut self,
        caller: String,
        stake: u128,
        evaluation_id: String,
        counter_sources: Vec<Source>,
        now: u64,
    ) -> (result: Result<String, OracleError>)
        requires
            old(self).well_formed(),
        ensures
            final(self).well_formed(),
            match result {
                Ok(id) => {
                    &&& old(self)@.submit_challenge_error(
                        stake,
                        evaluation_id@,
                        views(counter_sources@),
                        now,
                    ) is None
                    &&& final(self)@ == old(self)@.submit_challenge_effect(
                        caller@,
                        stake,
                        evaluation_id@,
                        views(counter_sources@),
                        now,
                    )
                    &&& id@ == old(self)@.next_challenge_id()
                },
                Err(e) => {
                    &&& old(self)@.submit_challenge_error(
                        stake,
                        evaluation_id@,
                        views(counter_sources@),
                        now,
                    ) == Some(e)
                    &&& final(self)@ == old(self)@
                },
            },
    {
        let i = match self.find_evaluation(&evaluation_id) {
            Some(i) => i,
            None => {
                return Err(OracleError::EvaluationNotFound);
            },
        };
        proof {
            lemma_keys_are_distinct(self@);
        }
        if stake <= self.evaluations[i].stake {
            return Err(OracleError::ChallengeStakeTooLow);
        }
        if counter_sources.len() == 0 {
            return Err(OracleError::NoCounterSources);
        }
        if self.evaluations[i].status != EvaluationStatus::Submitted {
            return Err(OracleError::EvaluationNotOpen);
        }
        if now as u128 > self.evaluations[i].submitted_at as u128 + self.challenge_period as u128 {
            return Err(OracleError::ChallengePeriodExpired);
        }
        if self.challenge_counter == u64::MAX {
            return Err(OracleError::ArithmeticOverflow);
        }
        let ghost pre = self@;
        let ghost sources = views(counter_sources@);
        self.challenge_counter = self.challenge_counter + 1;
        let id = challenge_id_of(self.challenge_counter);
        let challenge = RefutationChallenge {
            challenge_id: id.clone(),
            evaluation_id,
            challenger: caller,
            counter_sources,
            stake,
            status: ChallengeStatus::Submitted,
            submitted_at: now,
        };
        proof {
            lemma_views_push(self.challenges@, challenge);
        }
        self.challenges.push(challenge);
        let ghost before = self.evaluations@;
        self.evaluations[i].status = EvaluationStatus::Challenged;
        proof {
            lemma_views_update(before, i as int, self.evaluations@[i as int]);
            lemma_replace_at(pre.evaluations, i as int, self.evaluations@[i as int]@);
            lemma_submit_challenge_keeps_well_formed(
                pre,
                caller@,
                stake,
                evaluation_id@,
                sources,
                now,
            );
        }
        Ok(id)
    }

    /// Brings the records of the two accounts of a dispute up to date with
    /// its settlement. Returns `false`, and changes nothing, when a count or
    /// a sum would leave its range.
    fn settle_solvers(
        &mut self,
        solver: &String,
        challenger: &String,
        winner: Winner,
        stake: u128,
        pool: u128,
        now: u64,
    ) -> (done: bool)
        requires
            distinct_keys(old(self)@.solvers),
        ensures
            match settled_solvers(
                old(self)@.solvers,
                solver@,
                challenger@,
                winner,
                stake,
                pool,
                now,
            ) {
                Some(after) => done && final(self)@ == (ContractView {
                    solvers: after,
                    ..old(self)@
                }),
                None => !done && final(self)@ == old(self)@,
            },
    {
        let ghost pre = self@;
        // The records are changed on copies first, so that a refusal leaves
        // the engine untouched.
        let si = self.find_solver(solver);
        let xi = self.find_solver(challenger);
        let mut solver_after: Option<OracleSolver> = None;
        let mut challenger_after: Option<OracleSolver> = None;
        if let Some(i) = si {
            let mut copy = self.solvers[i].duplicate();
            if !copy.record_settlement(solver, challenger, winner, stake, pool, now) {
                return false;
            }
            solver_after = Some(copy);
        }
        if let Some(i) = xi {
            if si != Some(i) {
                let mut copy = self.solvers[i].duplicate();
                if !copy.record_settlement(solver, challenger, winner, stake, pool, now) {
                    return false;
                }
                challenger_after = Some(copy);
            }
        }
        let ghost target = settled_solvers(
            pre.solvers,
            solver@,
            challenger@,
            winner,
            stake,
            pool,
            now,
        )->0;
        if let Some(i) = si {
            if let Some(copy) = solver_after {
                self.solvers.set(i, copy);
            }
        }
        if let Some(i) = xi {
            if let Some(copy) = challenger_after {
                self.solvers.set(i, copy);
            }
        }
        proof {
            assert(views(self.solvers@) =~= target);
        }
        true
    }

    /// Settles the dispute between an evaluation and the challenge against it
    /// in favour of `winner`, which is `evaluator`, `challenger` or `tie`.
    /// Only the owner may settle. Returns what the settlement owes: the
    /// transfers, which together are the two stakes, and the sample for the
    /// evaluator's running means when the evaluator wins.
    pub fn settle_dispute(
        &mut self,
        caller: String,
        evaluation_id: String,
        challenge_id: String,
        winner: String,
        now: u64,
    ) -> (result: Result<Settlement, OracleError>)
        requires
            old(self).well_formed(),
        ensures
            final(self).well_formed(),
            match result {
                Ok(Settlement { transfers, sample }) => {
                    &&& old(self)@.settle_error(
                        caller@,
                        evaluation_id@,
                        challenge_id@,
                        winner@,
                        now,
                    ) is None
                    &&& final(self)@ == old(self)@.settle_effect(
                        evaluation_id@,
                        challenge_id@,
                        winner_of(winner@)->0,
                        now,
                    )
                    &&& views(transfers@) == settlement_transfers(
                        old(self)@.evaluation(evaluation_id@)->0,
                        old(self)@.challenge(challenge_id@)->0,
                        winner_of(winner@)->0,
                    )
                    &&& total_amount(views(transfers@)) == old(self)@.evaluation(
                        evaluation_id@,
                    )->0.stake + old(self)@.challenge(challenge_id@)->0.stake
                    &&& sample_view(sample) == settlement_sample(
                        old(self)@.evaluation(evaluation_id@)->0,
                        final(self)@.solver(old(self)@.evaluation(evaluation_id@)->0.solver),
                        winner_of(winner@)->0,
                    )
                },
                Err(e) => {
                    &&& old(self)@.settle_error(
                        caller@,
                        evaluation_id@,
                        challenge_id@,
                        winner@,
                        now,
                    ) == Some(e)
                    &&& final(self)@ == old(self)@
                },
            },
    {
        if !self.caller_is_owner(&caller) {
            return Err(OracleError::NotOwner);
        }
        let ei = match self.find_evaluation(&evaluation_id) {
            Some(i) => i,
            None => {
                return Err(OracleError::EvaluationNotFound);
            },
        };
        let ci = match self.find_challenge(&challenge_id) {
            Some(i) => i,
            None => {
                return Err(OracleError::ChallengeNotFound);
            },
        };
        proof {
            lemma_keys_are_distinct(self@);
        }
        if self.evaluations[ei].status != EvaluationStatus::Challenged {
            return Err(OracleError::EvaluationNotChallenged);
        }
        if self.challenges[ci].evaluation_id != evaluation_id {
            return Err(OracleError::ChallengeEvaluationMismatch);
        }
        let stake = self.evaluations[ei].stake;
        let challenge_stake = self.challenges[ci].stake;
        let pool = match stake.checked_add(challenge_stake) {
            Some(sum) => sum,
            None => {
                return Err(OracleError::ArithmeticOverflow);
            },
        };
        let who = match parse_winner(&winner) {
            Some(w) => w,
            None => {
                return Err(OracleError::InvalidWinner);
            },
        };
        let solver = self.evaluations[ei].solver.clone();
        let challenger = self.challenges[ci].challenger.clone();
        let ghost pre = self@;
        let ghost evaluation = pre.evaluations[ei as int];
        let ghost challenge = pre.challenges[ci as int];
        if !self.settle_solvers(&solver, &challenger, who, stake, pool, now) {
            return Err(OracleError::ArithmeticOverflow);
        }
        let ghost evaluations_before = self.evaluations@;
        self.evaluations[ei].status = match who {
            Winner::Challenger => EvaluationStatus::Refuted,
            _ => EvaluationStatus::Confirmed,
        };
        let ghost challenges_before = self.challenges@;
        self.challenges[ci].status = match who {
            Winner::Challenger => ChallengeStatus::Successful,
            _ => ChallengeStatus::Failed,
        };
        let mut transfers: Vec<Transfer> = Vec::new();
        let mut sample: Option<PerformanceSample> = None;
        match who {
            Winner::Evaluator => {
                if let Some(i) = self.find_solver(&solver) {
                    sample = Some(self.evaluations[ei].sample(self.solvers[i].total_evaluations));
                }
                transfers.push(Transfer { recipient: solver, amount: pool });
            },
            Winner::Challenger => {
                transfers.push(Transfer { recipient: challenger, amount: pool });
            },
            Winner::Tie => {
                transfers.push(Transfer { recipient: solver, amount: stake });
                transfers.push(Transfer { recipient: challenger, amount: challenge_stake });
            },
        }
        proof {
            lemma_views_update(evaluations_before, ei as int, self.evaluations@[ei as int]);
            lemma_replace_at(pre.evaluations, ei as int, self.evaluations@[ei as int]@);
            lemma_views_update(challenges_before, ci as int, self.challenges@[ci as int]);
            lemma_replace_at(pre.challenges, ci as int, self.challenges@[ci as int]@);
            assert(views(transfers@) =~= settlement_transfers(evaluation, challenge, who));
            lemma_settlement_conserves_stakes(evaluation, challenge, who);
            lemma_settle_keeps_well_formed(
                pre,
                caller@,
                evaluation_id@,
                challenge_id@,
                winner@,
                now,
            );
        }
        Ok(Settlement { transfers, sample })
    }
}

} // verus!
