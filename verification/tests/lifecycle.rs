use oracle_intent::scoring::compute_unopposed_reward;
use oracle_intent::types::{MIN_STAKE, NANOS_PER_MINUTE};
use oracle_intent::{
    ChallengeStatus, EvaluationStatus, IntentStatus, OracleError, OracleIntentContract, Source,
};

const NEAR: u128 = 1_000_000_000_000_000_000_000_000;
const DAY: u64 = 86_400_000_000_000;

fn account(name: &str) -> String {
    name.to_string()
}

fn source(title: &str, url: &str) -> Source {
    Source { title: title.to_string(), url: url.to_string() }
}

fn one_source() -> Vec<Source> {
    vec![source("Report", "https://example.org/report")]
}

fn engine_with_solver() -> OracleIntentContract {
    let mut engine = OracleIntentContract::new(account("owner.near"));
    engine.register_solver(account("solver.near"), NEAR, 10).unwrap();
    engine
}

fn open_intent(engine: &mut OracleIntentContract, stake: u128, now: u64) -> String {
    engine
        .submit_credibility_intent(
            account("asker.near"),
            stake,
            "Is the bridge open?".to_string(),
            None,
            None,
            None,
            now,
        )
        .unwrap()
}

fn answer(engine: &mut OracleIntentContract, intent_id: &str, stake: u128, now: u64) -> String {
    engine
        .submit_evaluation(
            account("solver.near"),
            stake,
            intent_id.to_string(),
            true,
            0.9f64.to_bits(),
            one_source(),
            30_000,
            now,
        )
        .unwrap()
}

#[test]
fn new_engine_is_empty() {
    let engine = OracleIntentContract::new(account("owner.near"));
    assert_eq!(engine.owner, "owner.near");
    assert_eq!(engine.get_storage_stats(), (0, 0, 0, 0));
    assert_eq!(engine.min_stake, MIN_STAKE);
    assert_eq!(engine.challenge_period, DAY);
    assert_eq!(engine.max_evaluation_time, 300_000_000_000);
    assert_eq!(engine.intent_counter, 0);
}

#[test]
fn intent_is_created_pending_with_mirrored_reward() {
    let mut engine = OracleIntentContract::new(account("owner.near"));
    let id = open_intent(&mut engine, 2 * NEAR, 1_000);
    assert_eq!(id, "intent_1");
    let intent = engine.get_intent(id).unwrap();
    assert_eq!(intent.status, IntentStatus::Pending);
    assert_eq!(intent.stake, 2 * NEAR);
    assert_eq!(intent.reward, 2 * NEAR);
    assert_eq!(intent.initiator, "asker.near");
    assert_eq!(intent.created_at, 1_000);
    assert_eq!(intent.deadline, 1_000 + 60 * NANOS_PER_MINUTE);
    assert_eq!(intent.question.as_deref(), Some("Is the bridge open?"));
    assert!(intent.evaluation_hash.is_none());
}

#[test]
fn intent_identifiers_count_up_in_decimal() {
    let mut engine = OracleIntentContract::new(account("owner.near"));
    let mut last = String::new();
    for _ in 0..12 {
        last = open_intent(&mut engine, NEAR, 5);
    }
    assert_eq!(last, "intent_12");
    assert!(engine.get_intent("intent_10".to_string()).is_some());
    assert!(engine.get_intent("intent_13".to_string()).is_none());
    assert_eq!(engine.get_pending_intents().len(), 12);
}

#[test]
fn intent_with_custom_deadline() {
    let mut engine = OracleIntentContract::new(account("owner.near"));
    let id = engine
        .submit_credibility_intent(
            account("asker.near"),
            NEAR,
            "Q".to_string(),
            Some(15),
            Some(0.5f64.to_bits()),
            Some(5),
            7,
        )
        .unwrap();
    let intent = engine.get_intent(id).unwrap();
    assert_eq!(intent.deadline, 7 + 5 * NANOS_PER_MINUTE);
}

#[test]
fn intent_is_refused_for_each_reason() {
    let mut engine = OracleIntentContract::new(account("owner.near"));
    let ask = |engine: &mut OracleIntentContract,
               stake: u128,
               question: String,
               required: Option<u32>,
               minutes: Option<u64>,
               now: u64| {
        engine.submit_credibility_intent(
            account("asker.near"),
            stake,
            question,
            required,
            None,
            minutes,
            now,
        )
    };
    assert_eq!(
        ask(&mut engine, NEAR - 1, "Q".to_string(), None, None, 0),
        Err(OracleError::InsufficientStake)
    );
    assert_eq!(
        ask(&mut engine, NEAR, String::new(), None, None, 0),
        Err(OracleError::EmptyQuestion)
    );
    assert_eq!(ask(&mut engine, NEAR, "q".repeat(500), None, None, 0), Ok("intent_1".to_string()));
    assert_eq!(
        ask(&mut engine, NEAR, "q".repeat(501), None, None, 0),
        Err(OracleError::QuestionTooLong)
    );
    // 251 two-byte characters are 502 bytes
    assert_eq!(
        ask(&mut engine, NEAR, "\u{e9}".repeat(251), None, None, 0),
        Err(OracleError::QuestionTooLong)
    );
    assert_eq!(
        ask(&mut engine, NEAR, "Q".to_string(), Some(16), None, 0),
        Err(OracleError::TooManySourcesRequired)
    );
    assert_eq!(
        ask(&mut engine, NEAR, "Q".to_string(), Some(15), None, 0),
        Ok("intent_2".to_string())
    );
    assert_eq!(
        ask(&mut engine, NEAR, "Q".to_string(), None, Some(u64::MAX), 0),
        Err(OracleError::ArithmeticOverflow)
    );
    assert_eq!(
        ask(&mut engine, NEAR, "Q".to_string(), None, Some(1), u64::MAX),
        Err(OracleError::ArithmeticOverflow)
    );
    assert_eq!(engine.get_storage_stats().0, 2);
    assert_eq!(engine.intent_counter, 2);
}

#[test]
fn evaluation_moves_intent_to_in_progress() {
    let mut engine = engine_with_solver();
    let intent_id = open_intent(&mut engine, 2 * NEAR, 100);
    let evaluation_id = answer(&mut engine, &intent_id, NEAR, 200);
    assert_eq!(evaluation_id, "eval_1");
    let intent = engine.get_intent(intent_id.clone()).unwrap();
    assert_eq!(intent.status, IntentStatus::InProgress);
    assert_eq!(intent.evaluation_hash.as_deref(), Some("eval_1"));
    let evaluation = engine.get_evaluation(evaluation_id).unwrap();
    assert_eq!(evaluation.status, EvaluationStatus::Submitted);
    assert_eq!(evaluation.intent_id, intent_id);
    assert_eq!(evaluation.solver, "solver.near");
    assert_eq!(evaluation.question, "Is the bridge open?");
    assert!(evaluation.answer);
    assert_eq!(f64::from_bits(evaluation.confidence), 0.9);
    assert_eq!(evaluation.sources.len(), 1);
    assert_eq!(evaluation.sources[0].title, "Report");
    assert_eq!(evaluation.execution_time, 30_000);
    assert_eq!(evaluation.stake, NEAR);
    assert_eq!(evaluation.submitted_at, 200);
}

#[test]
fn second_evaluation_of_an_intent_is_refused() {
    let mut engine = engine_with_solver();
    let intent_id = open_intent(&mut engine, 2 * NEAR, 100);
    answer(&mut engine, &intent_id, NEAR, 200);
    let again = engine.submit_evaluation(
        account("solver.near"),
        NEAR,
        intent_id,
        false,
        0.5f64.to_bits(),
        one_source(),
        10,
        300,
    );
    assert_eq!(again, Err(OracleError::IntentNotPending));
    assert_eq!(engine.get_storage_stats().1, 1);
    assert_eq!(engine.evaluation_counter, 1);
}

#[test]
fn confidence_bounds_are_inclusive() {
    let submit = |confidence: f64| {
        let mut engine = engine_with_solver();
        let intent_id = open_intent(&mut engine, NEAR, 100);
        engine.submit_evaluation(
            account("solver.near"),
            NEAR,
            intent_id,
            true,
            confidence.to_bits(),
            one_source(),
            10,
            200,
        )
    };
    assert!(submit(0.0).is_ok());
    assert!(submit(1.0).is_ok());
    assert!(submit(-0.0).is_ok());
    assert!(submit(0.5).is_ok());
    assert!(submit(f64::MIN_POSITIVE).is_ok());
    assert!(submit(5e-324).is_ok());
    assert_eq!(submit(1.0000001), Err(OracleError::ConfidenceOutOfRange));
    assert_eq!(submit(-0.0000001), Err(OracleError::ConfidenceOutOfRange));
    assert_eq!(submit(1.0 + f64::EPSILON), Err(OracleError::ConfidenceOutOfRange));
    assert_eq!(submit(-5e-324), Err(OracleError::ConfidenceOutOfRange));
    assert_eq!(submit(f64::NAN), Err(OracleError::ConfidenceOutOfRange));
    assert_eq!(submit(f64::INFINITY), Err(OracleError::ConfidenceOutOfRange));
    assert_eq!(submit(f64::NEG_INFINITY), Err(OracleError::ConfidenceOutOfRange));
    assert_eq!(submit(2.0), Err(OracleError::ConfidenceOutOfRange));
}

#[test]
fn source_count_bound_is_inclusive() {
    let submit = |count: usize| {
        let mut engine = engine_with_solver();
        let intent_id = open_intent(&mut engine, NEAR, 100);
        let sources: Vec<Source> = (0..count).map(|i| source(&format!("S{}", i), "u")).collect();
        engine.submit_evaluation(
            account("solver.near"),
            NEAR,
            intent_id,
            true,
            0.5f64.to_bits(),
            sources,
            10,
            200,
        )
    };
    assert_eq!(submit(0), Err(OracleError::NoSources));
    assert!(submit(1).is_ok());
    assert!(submit(15).is_ok());
    assert_eq!(submit(16), Err(OracleError::TooManySources));
}

#[test]
fn sources_are_checked_in_order() {
    let submit = |sources: Vec<Source>| {
        let mut engine = engine_with_solver();
        let intent_id = open_intent(&mut engine, NEAR, 100);
        engine.submit_evaluation(
            account("solver.near"),
            NEAR,
            intent_id,
            true,
            0.5f64.to_bits(),
            sources,
            10,
            200,
        )
    };
    let long = "u".repeat(201);
    let limit = "u".repeat(200);
    assert!(submit(vec![source("T", &limit)]).is_ok());
    assert_eq!(submit(vec![source("T", &long)]), Err(OracleError::SourceUrlTooLong));
    assert_eq!(submit(vec![source("", "u")]), Err(OracleError::SourceTitleEmpty));
    assert_eq!(submit(vec![source("", &long)]), Err(OracleError::SourceUrlTooLong));
    assert_eq!(
        submit(vec![source("T", "u"), source("", "u"), source("T", &long)]),
        Err(OracleError::SourceTitleEmpty)
    );
    assert_eq!(
        submit(vec![source("T", "u"), source("T", &long), source("", "u")]),
        Err(OracleError::SourceUrlTooLong)
    );
}

#[test]
fn evaluation_is_refused_for_each_reason() {
    let mut engine = engine_with_solver();
    let intent_id = open_intent(&mut engine, NEAR, 100);
    let deadline = 100 + 60 * NANOS_PER_MINUTE;
    let submit = |engine: &mut OracleIntentContract, who: &str, stake: u128, id: &str, now: u64| {
        engine.submit_evaluation(
            account(who),
            stake,
            id.to_string(),
            true,
            0.5f64.to_bits(),
            one_source(),
            10,
            now,
        )
    };
    assert_eq!(
        submit(&mut engine, "solver.near", NEAR - 1, &intent_id, 200),
        Err(OracleError::InsufficientStake)
    );
    assert_eq!(
        submit(&mut engine, "solver.near", NEAR, "intent_9", 200),
        Err(OracleError::IntentNotFound)
    );
    assert_eq!(
        submit(&mut engine, "solver.near", NEAR, &intent_id, deadline + 1),
        Err(OracleError::IntentExpired)
    );
    assert_eq!(
        submit(&mut engine, "stranger.near", NEAR, &intent_id, 200),
        Err(OracleError::SolverNotRegistered)
    );
    assert_eq!(
        submit(&mut engine, "solver.near", NEAR, &intent_id, deadline),
        Ok("eval_1".to_string())
    );
}

#[test]
fn challenge_needs_a_strictly_larger_stake() {
    let mut engine = engine_with_solver();
    let intent_id = open_intent(&mut engine, 2 * NEAR, 100);
    let evaluation_id = answer(&mut engine, &intent_id, NEAR, 200);
    let challenge = |engine: &mut OracleIntentContract, stake: u128| {
        engine.submit_challenge(
            account("doubter.near"),
            stake,
            evaluation_id.clone(),
            one_source(),
            300,
        )
    };
    assert_eq!(challenge(&mut engine, 0), Err(OracleError::ChallengeStakeTooLow));
    assert_eq!(challenge(&mut engine, NEAR - 1), Err(OracleError::ChallengeStakeTooLow));
    assert_eq!(challenge(&mut engine, NEAR), Err(OracleError::ChallengeStakeTooLow));
    assert_eq!(engine.get_storage_stats().2, 0);
    assert_eq!(
        engine.get_evaluation(evaluation_id.clone()).unwrap().status,
        EvaluationStatus::Submitted
    );
    assert_eq!(challenge(&mut engine, NEAR + 1), Ok("challenge_1".to_string()));
    let stored = engine.get_challenge("challenge_1".to_string()).unwrap();
    assert_eq!(stored.status, ChallengeStatus::Submitted);
    assert_eq!(stored.challenger, "doubter.near");
    assert_eq!(stored.evaluation_id, evaluation_id);
    assert_eq!(stored.stake, NEAR + 1);
    assert_eq!(stored.submitted_at, 300);
    assert_eq!(
        engine.get_evaluation(evaluation_id.clone()).unwrap().status,
        EvaluationStatus::Challenged
    );
    // a second challenge meets an evaluation that is no longer open
    assert_eq!(challenge(&mut engine, 5 * NEAR), Err(OracleError::EvaluationNotOpen));
}

#[test]
fn challenge_is_refused_for_each_reason() {
    let mut engine = engine_with_solver();
    let intent_id = open_intent(&mut engine, 2 * NEAR, 100);
    let evaluation_id = answer(&mut engine, &intent_id, NEAR, 200);
    assert_eq!(
        engine.submit_challenge(account("d.near"), 2 * NEAR, "eval_7".to_string(), one_source(), 300),
        Err(OracleError::EvaluationNotFound)
    );
    assert_eq!(
        engine.submit_challenge(account("d.near"), 2 * NEAR, evaluation_id.clone(), vec![], 300),
        Err(OracleError::NoCounterSources)
    );
    assert_eq!(
        engine.submit_challenge(
            account("d.near"),
            2 * NEAR,
            evaluation_id.clone(),
            one_source(),
            200 + DAY + 1
        ),
        Err(OracleError::ChallengePeriodExpired)
    );
    assert_eq!(
        engine.submit_challenge(
            account("d.near"),
            2 * NEAR,
            evaluation_id.clone(),
            one_source(),
            200 + DAY
        ),
        Ok("challenge_1".to_string())
    );
}

#[test]
fn challenger_wins_the_pool() {
    let mut engine = engine_with_solver();
    let intent_id = open_intent(&mut engine, 2 * NEAR, 100);
    let evaluation_stake = 3 * NEAR / 2;
    let challenge_stake = 16 * NEAR / 10;
    let evaluation_id = answer(&mut engine, &intent_id, evaluation_stake, 200);
    let challenge_id = engine
        .submit_challenge(
            account("doubter.near"),
            challenge_stake,
            evaluation_id.clone(),
            one_source(),
            300,
        )
        .unwrap();
    let before = engine.get_solver(account("solver.near")).unwrap();
    let outcome = engine
        .settle_dispute(
            account("owner.near"),
            evaluation_id.clone(),
            challenge_id.clone(),
            "challenger".to_string(),
            400,
        )
        .unwrap();
    assert!(outcome.sample.is_none());
    let transfers = outcome.transfers;
    assert_eq!(transfers.len(), 1);
    assert_eq!(transfers[0].recipient, "doubter.near");
    assert_eq!(transfers[0].amount, 3_100_000_000_000_000_000_000_000);
    let after = engine.get_solver(account("solver.near")).unwrap();
    assert_eq!(after.total_evaluations, before.total_evaluations + 1);
    assert_eq!(after.successful_evaluations, before.successful_evaluations);
    assert_eq!(after.performance_metrics.total_challenges_received, 1);
    assert_eq!(after.performance_metrics.challenges_successfully_defended, 0);
    assert_eq!(after.performance_metrics.total_stakes_lost, evaluation_stake);
    assert_eq!(after.performance_metrics.total_rewards_earned, 0);
    assert_eq!(after.performance_metrics.last_active_timestamp, 400);
    assert_eq!(engine.get_evaluation(evaluation_id).unwrap().status, EvaluationStatus::Refuted);
    assert_eq!(engine.get_challenge(challenge_id).unwrap().status, ChallengeStatus::Successful);
}

#[test]
fn evaluator_wins_the_pool() {
    let mut engine = engine_with_solver();
    engine.register_solver(account("doubter.near"), NEAR, 20).unwrap();
    let intent_id = open_intent(&mut engine, 2 * NEAR, 100);
    let evaluation_id = answer(&mut engine, &intent_id, NEAR, 200);
    let challenge_id = engine
        .submit_challenge(account("doubter.near"), 2 * NEAR, evaluation_id.clone(), one_source(), 300)
        .unwrap();
    let outcome = engine
        .settle_dispute(
            account("owner.near"),
            evaluation_id.clone(),
            challenge_id.clone(),
            "evaluator".to_string(),
            400,
        )
        .unwrap();
    let sample = outcome.sample.unwrap();
    assert_eq!(sample.solver, "solver.near");
    assert_eq!(sample.execution_time, 30_000);
    assert_eq!(f64::from_bits(sample.confidence), 0.9);
    assert_eq!(sample.source_count, 1);
    assert_eq!(sample.evaluations, 1);
    let transfers = outcome.transfers;
    assert_eq!(transfers.len(), 1);
    assert_eq!(transfers[0].recipient, "solver.near");
    assert_eq!(transfers[0].amount, 3 * NEAR);
    let solver = engine.get_solver(account("solver.near")).unwrap();
    assert_eq!((solver.successful_evaluations, solver.total_evaluations), (1, 1));
    assert_eq!(solver.performance_metrics.total_challenges_received, 1);
    assert_eq!(solver.performance_metrics.challenges_successfully_defended, 1);
    assert_eq!(solver.performance_metrics.total_rewards_earned, 3 * NEAR);
    assert_eq!(solver.performance_metrics.total_stakes_lost, 0);
    let doubter = engine.get_solver(account("doubter.near")).unwrap();
    assert_eq!((doubter.successful_evaluations, doubter.total_evaluations), (0, 1));
    assert_eq!(doubter.performance_metrics.total_challenges_received, 0);
    assert_eq!(doubter.performance_metrics.last_active_timestamp, 400);
    assert_eq!(engine.get_evaluation(evaluation_id).unwrap().status, EvaluationStatus::Confirmed);
    assert_eq!(engine.get_challenge(challenge_id).unwrap().status, ChallengeStatus::Failed);
}

#[test]
fn tie_returns_each_stake() {
    let mut engine = engine_with_solver();
    let intent_id = open_intent(&mut engine, 2 * NEAR, 100);
    let evaluation_id = answer(&mut engine, &intent_id, NEAR, 200);
    let challenge_id = engine
        .submit_challenge(account("doubter.near"), 2 * NEAR, evaluation_id.clone(), one_source(), 300)
        .unwrap();
    let outcome = engine
        .settle_dispute(
            account("owner.near"),
            evaluation_id.clone(),
            challenge_id.clone(),
            "tie".to_string(),
            400,
        )
        .unwrap();
    assert!(outcome.sample.is_none());
    let transfers = outcome.transfers;
    assert_eq!(transfers.len(), 2);
    assert_eq!(transfers[0].recipient, "solver.near");
    assert_eq!(transfers[0].amount, NEAR);
    assert_eq!(transfers[1].recipient, "doubter.near");
    assert_eq!(transfers[1].amount, 2 * NEAR);
    let solver = engine.get_solver(account("solver.near")).unwrap();
    assert_eq!((solver.successful_evaluations, solver.total_evaluations), (0, 0));
    assert_eq!(solver.performance_metrics.total_challenges_received, 0);
    assert_eq!(solver.performance_metrics.last_active_timestamp, 10);
    assert_eq!(engine.get_evaluation(evaluation_id).unwrap().status, EvaluationStatus::Confirmed);
    assert_eq!(engine.get_challenge(challenge_id).unwrap().status, ChallengeStatus::Failed);
}

#[test]
fn every_settlement_pays_exactly_the_two_stakes() {
    for winner in ["evaluator", "challenger", "tie"] {
        let mut engine = engine_with_solver();
        let intent_id = open_intent(&mut engine, 2 * NEAR, 100);
        let evaluation_id = answer(&mut engine, &intent_id, NEAR + 7, 200);
        let challenge_id = engine
            .submit_challenge(
                account("doubter.near"),
                2 * NEAR + 11,
                evaluation_id.clone(),
                one_source(),
                300,
            )
            .unwrap();
        let transfers = engine
            .settle_dispute(
                account("owner.near"),
                evaluation_id,
                challenge_id,
                winner.to_string(),
                400,
            )
            .unwrap()
            .transfers;
        let paid: u128 = transfers.iter().map(|t| t.amount).sum();
        assert_eq!(paid, 3 * NEAR + 18);
    }
}

#[test]
fn a_dispute_is_settled_once() {
    let mut engine = engine_with_solver();
    let intent_id = open_intent(&mut engine, 2 * NEAR, 100);
    let evaluation_id = answer(&mut engine, &intent_id, NEAR, 200);
    let challenge_id = engine
        .submit_challenge(account("doubter.near"), 2 * NEAR, evaluation_id.clone(), one_source(), 300)
        .unwrap();
    let settle = |engine: &mut OracleIntentContract, winner: &str| {
        engine.settle_dispute(
            account("owner.near"),
            evaluation_id.clone(),
            challenge_id.clone(),
            winner.to_string(),
            400,
        )
    };
    assert!(settle(&mut engine, "evaluator").is_ok());
    assert_eq!(settle(&mut engine, "evaluator").err(), Some(OracleError::EvaluationNotChallenged));
    assert_eq!(settle(&mut engine, "challenger").err(), Some(OracleError::EvaluationNotChallenged));
    let solver = engine.get_solver(account("solver.near")).unwrap();
    assert_eq!(solver.total_evaluations, 1);
}

#[test]
fn settlement_is_refused_for_each_reason() {
    let mut engine = engine_with_solver();
    let first = open_intent(&mut engine, 2 * NEAR, 100);
    let second = open_intent(&mut engine, 2 * NEAR, 100);
    let e1 = answer(&mut engine, &first, NEAR, 200);
    let e2 = answer(&mut engine, &second, NEAR, 200);
    let c1 = engine
        .submit_challenge(account("doubter.near"), 2 * NEAR, e1.clone(), one_source(), 300)
        .unwrap();
    let c2 = engine
        .submit_challenge(account("doubter.near"), 3 * NEAR, e2.clone(), one_source(), 300)
        .unwrap();
    let open = open_intent(&mut engine, 2 * NEAR, 100);
    let e3 = answer(&mut engine, &open, NEAR, 200);
    let settle = |engine: &mut OracleIntentContract, who: &str, e: &str, c: &str, w: &str| {
        engine
            .settle_dispute(account(who), e.to_string(), c.to_string(), w.to_string(), 400)
            .err()
    };
    assert_eq!(settle(&mut engine, "solver.near", &e1, &c1, "tie"), Some(OracleError::NotOwner));
    assert_eq!(
        settle(&mut engine, "owner.near", "eval_9", &c1, "tie"),
        Some(OracleError::EvaluationNotFound)
    );
    assert_eq!(
        settle(&mut engine, "owner.near", &e1, "challenge_9", "tie"),
        Some(OracleError::ChallengeNotFound)
    );
    assert_eq!(
        settle(&mut engine, "owner.near", &e3, &c1, "tie"),
        Some(OracleError::EvaluationNotChallenged)
    );
    assert_eq!(
        settle(&mut engine, "owner.near", &e1, &c2, "tie"),
        Some(OracleError::ChallengeEvaluationMismatch)
    );
    for bad in ["", "Evaluator", "solver", "tie ", "draw"] {
        assert_eq!(
            settle(&mut engine, "owner.near", &e1, &c1, bad),
            Some(OracleError::InvalidWinner)
        );
    }
    assert_eq!(engine.get_evaluation(e1.clone()).unwrap().status, EvaluationStatus::Challenged);
    assert_eq!(engine.get_challenge(c1.clone()).unwrap().status, ChallengeStatus::Submitted);
    assert_eq!(settle(&mut engine, "owner.near", &e1, &c1, "tie"), None);
}

#[test]
fn unopposed_reward_matches_hand_computation() {
    // reputation 4/5 gives 1.15, thirty seconds give 1.05
    assert_eq!(compute_unopposed_reward(1_000, 4, 5, 30_000), Some(1_207));
    assert_eq!(compute_unopposed_reward(1_000_000, 4, 5, 30_000), Some(1_207_500));
    assert_eq!(
        compute_unopposed_reward(35 * NEAR / 10, 4, 5, 30_000),
        Some(4_226_250_000_000_000_000_000_000)
    );
    // no resolved outcome counts as reputation one: 1.25
    assert_eq!(compute_unopposed_reward(1_000, 0, 0, 60_000), Some(1_250));
    // reputation one and no time at all give the most: 1.25 times 1.1
    assert_eq!(compute_unopposed_reward(1_000, 1, 1, 0), Some(1_375));
    assert_eq!(compute_unopposed_reward(1_000, 9, 9, 0), Some(1_375));
    // reputation zero gives 0.75, no bonus from a minute on
    assert_eq!(compute_unopposed_reward(1_000, 0, 7, 60_000), Some(750));
    assert_eq!(compute_unopposed_reward(1_000, 0, 7, 3_600_000), Some(750));
    // the bonus is a tenth at zero milliseconds and vanishes at a minute
    assert_eq!(compute_unopposed_reward(1_000, 1, 2, 0), Some(1_100));
    assert_eq!(compute_unopposed_reward(1_000, 1, 2, 59_999), Some(1_000));
    assert_eq!(compute_unopposed_reward(600_000, 1, 2, 59_999), Some(600_001));
    // rounded down once, at the end
    assert_eq!(compute_unopposed_reward(7, 4, 5, 30_000), Some(8));
    assert_eq!(compute_unopposed_reward(0, 4, 5, 30_000), Some(0));
    // a reward that does not fit
    assert_eq!(compute_unopposed_reward(u128::MAX, 1, 1, 0), None);
    assert_eq!(compute_unopposed_reward(u128::MAX, 0, 1, 60_000), Some(u128::MAX / 4 * 3 + 2));
}

#[test]
fn unopposed_evaluation_is_rewarded_after_the_window() {
    let mut engine = engine_with_solver();
    engine.solvers[0].total_evaluations = 5;
    engine.solvers[0].successful_evaluations = 4;
    let intent_id = open_intent(&mut engine, 2 * NEAR, 100);
    let evaluation_id = answer(&mut engine, &intent_id, 3 * NEAR / 2, 200);
    assert_eq!(
        engine.finalize_evaluation_reward(evaluation_id.clone(), 200 + DAY).err(),
        Some(OracleError::ChallengePeriodActive)
    );
    let outcome = engine.finalize_evaluation_reward(evaluation_id.clone(), 201 + DAY).unwrap();
    let sample = outcome.sample.unwrap();
    assert_eq!(sample.solver, "solver.near");
    assert_eq!(sample.execution_time, 30_000);
    assert_eq!(f64::from_bits(sample.confidence), 0.9);
    assert_eq!(sample.source_count, 1);
    // the count of outcomes after this one
    assert_eq!(sample.evaluations, 6);
    let transfer = outcome.transfer;
    assert_eq!(transfer.recipient, "solver.near");
    assert_eq!(transfer.amount, 4_226_250_000_000_000_000_000_000);
    let evaluation = engine.get_evaluation(evaluation_id.clone()).unwrap();
    assert_eq!(evaluation.status, EvaluationStatus::Confirmed);
    let solver = engine.get_solver(account("solver.near")).unwrap();
    assert_eq!(solver.performance_metrics.total_rewards_earned, transfer.amount);
    assert_eq!(solver.performance_metrics.last_active_timestamp, 201 + DAY);
    // the finalization is a resolved outcome, and a success
    assert_eq!((solver.successful_evaluations, solver.total_evaluations), (5, 6));
    assert_eq!(
        engine.finalize_evaluation_reward(evaluation_id.clone(), 300 + DAY).err(),
        Some(OracleError::EvaluationAlreadyFinalized)
    );
    assert_eq!(
        engine
            .submit_challenge(account("d.near"), 9 * NEAR, evaluation_id, one_source(), 300)
            .err(),
        Some(OracleError::EvaluationNotOpen)
    );
    assert_eq!(
        engine.finalize_evaluation_reward("eval_5".to_string(), 300 + DAY).err(),
        Some(OracleError::EvaluationNotFound)
    );
}

#[test]
fn challenged_evaluation_cannot_be_finalized() {
    let mut engine = engine_with_solver();
    let intent_id = open_intent(&mut engine, 2 * NEAR, 100);
    let evaluation_id = answer(&mut engine, &intent_id, NEAR, 200);
    engine
        .submit_challenge(account("doubter.near"), 2 * NEAR, evaluation_id.clone(), one_source(), 300)
        .unwrap();
    assert_eq!(
        engine.finalize_evaluation_reward(evaluation_id, 300 + 2 * DAY).err(),
        Some(OracleError::EvaluationAlreadyFinalized)
    );
}

#[test]
fn a_solver_that_left_gets_its_reward_without_a_sample() {
    let mut engine = engine_with_solver();
    let intent_id = open_intent(&mut engine, 2 * NEAR, 100);
    let evaluation_id = answer(&mut engine, &intent_id, NEAR, 200);
    // the record of the solver is gone: the reward is the base, and no mean is kept
    engine.solvers.clear();
    let outcome = engine.finalize_evaluation_reward(evaluation_id, 201 + DAY).unwrap();
    assert_eq!(outcome.transfer.recipient, "solver.near");
    assert_eq!(outcome.transfer.amount, 3 * NEAR);
    assert!(outcome.sample.is_none());
}

#[test]
fn an_evaluator_without_a_record_wins_without_a_sample() {
    let mut engine = engine_with_solver();
    let intent_id = open_intent(&mut engine, 2 * NEAR, 100);
    let evaluation_id = answer(&mut engine, &intent_id, NEAR, 200);
    let challenge_id = engine
        .submit_challenge(account("doubter.near"), 2 * NEAR, evaluation_id.clone(), one_source(), 300)
        .unwrap();
    engine.solvers.clear();
    let outcome = engine
        .settle_dispute(account("owner.near"), evaluation_id, challenge_id, "evaluator".to_string(), 9)
        .unwrap();
    assert!(outcome.sample.is_none());
    assert_eq!(outcome.transfers[0].amount, 3 * NEAR);
}

#[test]
fn unopposed_evaluations_build_a_reputation() {
    let mut engine = engine_with_solver();
    assert_eq!(engine.count_eligible_solvers(), 0);
    let first = open_intent(&mut engine, 2 * NEAR, 100);
    let e1 = answer(&mut engine, &first, NEAR, 200);
    let outcome = engine.finalize_evaluation_reward(e1, 201 + DAY).unwrap();
    // the first reward is earned with the reputation of an unrated solver:
    // three tokens, times 5/4, times 21/20 for thirty seconds
    assert_eq!(outcome.transfer.amount, 3_937_500_000_000_000_000_000_000);
    assert_eq!(outcome.sample.unwrap().evaluations, 1);
    let solver = engine.get_solver(account("solver.near")).unwrap();
    assert_eq!((solver.successful_evaluations, solver.total_evaluations), (1, 1));
    assert_eq!(solver.performance_metrics.last_active_timestamp, 201 + DAY);
    // a solver whose work was never disputed takes part in a distribution
    assert_eq!(engine.count_eligible_solvers(), 1);
    let second = open_intent(&mut engine, 2 * NEAR, 300);
    let e2 = answer(&mut engine, &second, NEAR, 400);
    let outcome = engine.finalize_evaluation_reward(e2, 401 + DAY).unwrap();
    assert_eq!(outcome.sample.unwrap().evaluations, 2);
    let solver = engine.get_solver(account("solver.near")).unwrap();
    assert_eq!((solver.successful_evaluations, solver.total_evaluations), (2, 2));
    assert_eq!(
        solver.performance_metrics.total_rewards_earned,
        2 * 3_937_500_000_000_000_000_000_000
    );
}

#[test]
fn a_finalization_that_would_overflow_changes_nothing() {
    let mut engine = engine_with_solver();
    let intent_id = open_intent(&mut engine, 2 * NEAR, 100);
    let evaluation_id = answer(&mut engine, &intent_id, NEAR, 200);
    engine.solvers[0].total_evaluations = u64::MAX;
    engine.solvers[0].successful_evaluations = 3;
    assert_eq!(
        engine.finalize_evaluation_reward(evaluation_id.clone(), 201 + DAY).err(),
        Some(OracleError::ArithmeticOverflow)
    );
    assert_eq!(engine.solvers[0].total_evaluations, u64::MAX);
    assert_eq!(engine.solvers[0].performance_metrics.total_rewards_earned, 0);
    assert_eq!(
        engine.get_evaluation(evaluation_id.clone()).unwrap().status,
        EvaluationStatus::Submitted
    );
    engine.solvers[0].total_evaluations = 10;
    engine.solvers[0].performance_metrics.total_rewards_earned = u128::MAX;
    assert_eq!(
        engine.finalize_evaluation_reward(evaluation_id.clone(), 201 + DAY).err(),
        Some(OracleError::ArithmeticOverflow)
    );
    // the outcome was not counted either
    assert_eq!(engine.solvers[0].total_evaluations, 10);
    assert_eq!(engine.solvers[0].successful_evaluations, 3);
    assert_eq!(engine.solvers[0].performance_metrics.last_active_timestamp, 10);
}

#[test]
fn an_intent_opened_for_zero_minutes_ends_where_it_starts() {
    let mut engine = engine_with_solver();
    let ask = |engine: &mut OracleIntentContract, minutes: u64| {
        engine
            .submit_credibility_intent(
                account("asker.near"),
                NEAR,
                "Q".to_string(),
                None,
                None,
                Some(minutes),
                500,
            )
            .unwrap()
    };
    let at_once = ask(&mut engine, 0);
    let later = ask(&mut engine, 1);
    let missed = ask(&mut engine, 0);
    let intent = engine.get_intent(at_once.clone()).unwrap();
    assert_eq!((intent.created_at, intent.deadline), (500, 500));
    let intent = engine.get_intent(later.clone()).unwrap();
    assert_eq!((intent.created_at, intent.deadline), (500, 500 + NANOS_PER_MINUTE));
    assert!(engine.is_well_formed());
    // at the time of its creation the intent can still be answered
    assert_eq!(answer(&mut engine, &at_once, NEAR, 500), "eval_1");
    // a moment later it is overdue
    assert_eq!(
        engine.submit_evaluation(
            account("solver.near"),
            NEAR,
            missed.clone(),
            true,
            0,
            one_source(),
            1,
            501,
        ),
        Err(OracleError::IntentExpired)
    );
    assert!(engine.process_expired_intents(500).is_empty());
    let owed = engine.process_expired_intents(501);
    assert_eq!(owed.len(), 1);
    assert_eq!(engine.get_intent(missed).unwrap().status, IntentStatus::Expired);
    assert_eq!(engine.get_intent(later).unwrap().status, IntentStatus::Pending);
}
