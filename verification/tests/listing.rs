use oracle_intent::arith::mul_div_floor;
use oracle_intent::distribution::total_weight;
use oracle_intent::text::{challenge_id_of, evaluation_id_of, intent_id_of};
use oracle_intent::{IntentStatus, OracleError, OracleIntentContract, Source};

const NEAR: u128 = 1_000_000_000_000_000_000_000_000;

fn account(name: &str) -> String {
    name.to_string()
}

fn sources() -> Vec<Source> {
    vec![Source { title: "T".to_string(), url: "https://example.org".to_string() }]
}

fn engine_with(solvers: &[(&str, u64, u64, bool)]) -> OracleIntentContract {
    let mut engine = OracleIntentContract::new(account("owner.near"));
    for (i, (name, successes, total, active)) in solvers.iter().enumerate() {
        engine.register_solver(account(name), NEAR, 0).unwrap();
        engine.solvers[i].successful_evaluations = *successes;
        engine.solvers[i].total_evaluations = *total;
        engine.solvers[i].is_active = *active;
    }
    engine
}

fn names(solvers: &[oracle_intent::OracleSolver]) -> Vec<&str> {
    solvers.iter().map(|s| s.solver_id.as_str()).collect()
}

#[test]
fn identifiers_are_prefix_and_decimal() {
    assert_eq!(intent_id_of(0), "intent_0");
    assert_eq!(intent_id_of(7), "intent_7");
    assert_eq!(intent_id_of(10), "intent_10");
    assert_eq!(intent_id_of(1_234_567_890), "intent_1234567890");
    assert_eq!(intent_id_of(u64::MAX), "intent_18446744073709551615");
    assert_eq!(evaluation_id_of(42), "eval_42");
    assert_eq!(challenge_id_of(100), "challenge_100");
}

#[test]
fn product_over_divisor_is_exact() {
    assert_eq!(mul_div_floor(0, 5, 7), Some(0));
    assert_eq!(mul_div_floor(5, 0, 7), Some(0));
    assert_eq!(mul_div_floor(10, 3, 4), Some(7));
    assert_eq!(mul_div_floor(7, 7, 7), Some(7));
    assert_eq!(mul_div_floor(u128::MAX, 1, 1), Some(u128::MAX));
    assert_eq!(mul_div_floor(u128::MAX, 2, 1), None);
    assert_eq!(mul_div_floor(u128::MAX, u128::MAX, u128::MAX), Some(u128::MAX));
    assert_eq!(mul_div_floor(u128::MAX, u128::MAX - 1, u128::MAX), Some(u128::MAX - 1));
    assert_eq!(mul_div_floor(u128::MAX, 3, 2), None);
    assert_eq!(mul_div_floor(u128::MAX - 1, 3, 6), Some((u128::MAX - 1) / 2));
    assert_eq!(
        mul_div_floor(123_456_789_012_345_678_901_234_567_890, 987_654_321, 1_000_000_007),
        Some(121_932_630_271_300_120_213_382_011_717)
    );
    assert_eq!(mul_div_floor(1 << 127, 1 << 127, 1 << 127), Some(1 << 127));
    assert_eq!(mul_div_floor(1 << 100, 1 << 100, 1 << 73), Some(1 << 127));
    assert_eq!(mul_div_floor(1 << 100, 1 << 100, 1 << 72), None);
}

#[test]
fn intents_are_listed_in_order_of_creation() {
    let mut engine = engine_with(&[("s.near", 0, 0, true)]);
    let ask = |engine: &mut OracleIntentContract, who: &str| {
        engine
            .submit_credibility_intent(account(who), NEAR, "Q".to_string(), None, None, Some(10), 0)
            .unwrap()
    };
    let a = ask(&mut engine, "a.near");
    let b = ask(&mut engine, "b.near");
    let c = ask(&mut engine, "a.near");
    engine
        .submit_evaluation(account("s.near"), NEAR, b.clone(), true, 0, sources(), 1, 1)
        .unwrap();
    let pending = engine.get_pending_intents();
    assert_eq!(pending.len(), 2);
    assert_eq!(pending[0].intent_id, a);
    assert_eq!(pending[1].intent_id, c);
    let in_progress = engine.get_intents_by_status(IntentStatus::InProgress);
    assert_eq!(in_progress.len(), 1);
    assert_eq!(in_progress[0].intent_id, b);
    assert!(engine.get_intents_by_status(IntentStatus::Settled).is_empty());
    let by_a = engine.get_intents_by_initiator(account("a.near"));
    assert_eq!(by_a.len(), 2);
    assert_eq!(by_a[0].intent_id, a);
    assert_eq!(by_a[1].intent_id, c);
    assert!(engine.get_intents_by_initiator(account("z.near")).is_empty());
    let active = engine.get_solver_active_intents(account("s.near"));
    assert_eq!(active.len(), 1);
    assert_eq!(active[0].intent_id, b);
    assert!(engine.get_solver_active_intents(account("a.near")).is_empty());
    // a claimed intent is in progress but has no evaluation
    engine.accept_intent(account("s.near"), a, 1).unwrap();
    assert_eq!(engine.get_solver_active_intents(account("s.near")).len(), 1);
    assert_eq!(engine.get_storage_stats(), (3, 1, 0, 0));
}

#[test]
fn progress_names_status_evaluation_and_time_left() {
    let mut engine = engine_with(&[("s.near", 0, 0, true)]);
    let id = engine
        .submit_credibility_intent(account("a.near"), NEAR, "Q".to_string(), None, None, Some(1), 100)
        .unwrap();
    let deadline = 100 + 60_000_000_000;
    assert_eq!(
        engine.get_intent_execution_progress(id.clone(), 100),
        Some((IntentStatus::Pending, None, 60_000_000_000))
    );
    engine.submit_evaluation(account("s.near"), NEAR, id.clone(), true, 0, sources(), 1, 200).unwrap();
    assert_eq!(
        engine.get_intent_execution_progress(id.clone(), deadline - 1),
        Some((IntentStatus::InProgress, Some("eval_1".to_string()), 1))
    );
    assert_eq!(
        engine.get_intent_execution_progress(id.clone(), deadline),
        Some((IntentStatus::InProgress, Some("eval_1".to_string()), 0))
    );
    assert_eq!(
        engine.get_intent_execution_progress(id, u64::MAX),
        Some((IntentStatus::InProgress, Some("eval_1".to_string()), 0))
    );
    assert_eq!(engine.get_intent_execution_progress("intent_2".to_string(), 0), None);
}

#[test]
fn top_performers_fall_by_reputation() {
    let engine = engine_with(&[
        ("half.near", 1, 2, true),
        ("unrated.near", 0, 0, true),
        ("best.near", 9, 10, true),
        ("idle.near", 10, 10, false),
        ("also_half.near", 50, 100, true),
        ("worst.near", 0, 3, true),
        ("good.near", 3, 4, true),
    ]);
    let top = engine.get_top_performers(10);
    assert_eq!(
        names(&top),
        vec!["best.near", "good.near", "half.near", "also_half.near", "worst.near"]
    );
    assert_eq!(names(&engine.get_top_performers(2)), vec!["best.near", "good.near"]);
    assert_eq!(names(&engine.get_top_performers(5)).len(), 5);
    assert!(engine.get_top_performers(0).is_empty());
    assert_eq!(top[0].successful_evaluations, 9);
    assert_eq!(top[0].total_evaluations, 10);
}

#[test]
fn top_performers_compare_ratios_exactly() {
    // 2^53 + 1 over 2^54 is just above a half
    let engine = engine_with(&[
        ("half.near", 1 << 53, 1 << 54, true),
        ("above.near", (1 << 53) + 1, 1 << 54, true),
        ("full.near", u64::MAX, u64::MAX, true),
        ("near_full.near", u64::MAX - 1, u64::MAX, true),
    ]);
    assert_eq!(
        names(&engine.get_top_performers(4)),
        vec!["full.near", "near_full.near", "above.near", "half.near"]
    );
}

#[test]
fn reward_candidates_are_the_active_solvers_with_outcomes() {
    let engine = engine_with(&[
        ("a.near", 1, 2, true),
        ("b.near", 0, 0, true),
        ("c.near", 2, 2, false),
        ("d.near", 0, 1, true),
    ]);
    assert_eq!(names(&engine.get_reward_candidates()), vec!["a.near", "d.near"]);
    assert_eq!(engine.count_eligible_solvers(), 2);
}

#[test]
fn weights_are_summed() {
    assert_eq!(total_weight(&vec![]), 0);
    assert_eq!(total_weight(&vec![1, 2, 3]), 6);
    assert_eq!(total_weight(&vec![u64::MAX, u64::MAX]), 2 * (u64::MAX as u128));
}

#[test]
fn pool_is_shared_in_proportion_and_rounded_down() {
    let mut engine = engine_with(&[
        ("a.near", 1, 2, true),
        ("b.near", 0, 0, true),
        ("c.near", 2, 2, true),
        ("d.near", 0, 1, true),
    ]);
    let owed = engine
        .distribute_performance_rewards(account("owner.near"), 1_000, vec![1, 1, 1])
        .unwrap();
    assert_eq!(owed.len(), 3);
    assert_eq!((owed[0].recipient.as_str(), owed[0].amount), ("a.near", 333));
    assert_eq!((owed[1].recipient.as_str(), owed[1].amount), ("c.near", 333));
    assert_eq!((owed[2].recipient.as_str(), owed[2].amount), ("d.near", 333));
    assert_eq!(engine.get_solver(account("a.near")).unwrap().performance_metrics.total_rewards_earned, 333);
    assert_eq!(engine.get_solver(account("b.near")).unwrap().performance_metrics.total_rewards_earned, 0);
    let owed = engine
        .distribute_performance_rewards(account("owner.near"), 10 * NEAR, vec![5, 0, 15])
        .unwrap();
    assert_eq!(owed.len(), 2);
    assert_eq!((owed[0].recipient.as_str(), owed[0].amount), ("a.near", 10 * NEAR / 4));
    assert_eq!((owed[1].recipient.as_str(), owed[1].amount), ("d.near", 10 * NEAR / 4 * 3));
    let a = engine.get_solver(account("a.near")).unwrap();
    assert_eq!(a.performance_metrics.total_rewards_earned, 333 + 10 * NEAR / 4);
    // the last activity is not touched by a distribution
    assert_eq!(a.performance_metrics.last_active_timestamp, 0);
}

#[test]
fn distribution_never_pays_more_than_the_pool() {
    for pool in [0u128, 1, 2, 3, 7, 100, 101, 1_000_003, u128::MAX] {
        for weights in [vec![1u64, 1, 1], vec![3, 5, 7], vec![u64::MAX, 1, u64::MAX], vec![0, 0, 1]] {
            let mut engine =
                engine_with(&[("a.near", 1, 2, true), ("b.near", 1, 2, true), ("c.near", 1, 2, true)]);
            let owed = engine
                .distribute_performance_rewards(account("owner.near"), pool, weights)
                .unwrap();
            let mut paid: u128 = 0;
            for transfer in &owed {
                assert!(transfer.amount > 0);
                paid = paid.checked_add(transfer.amount).unwrap();
            }
            assert!(paid <= pool);
            assert!(pool - paid < 3);
        }
    }
}

#[test]
fn distribution_with_weights_of_zero_pays_nothing() {
    let mut engine = engine_with(&[("a.near", 1, 2, true), ("b.near", 1, 2, true)]);
    let owed =
        engine.distribute_performance_rewards(account("owner.near"), 1_000, vec![0, 0]).unwrap();
    assert!(owed.is_empty());
    let mut empty = engine_with(&[]);
    assert!(empty
        .distribute_performance_rewards(account("owner.near"), 1_000, vec![])
        .unwrap()
        .is_empty());
}

#[test]
fn distribution_is_refused_for_each_reason() {
    let mut engine = engine_with(&[("a.near", 1, 2, true), ("b.near", 1, 2, true)]);
    assert_eq!(
        engine.distribute_performance_rewards(account("a.near"), 10, vec![1, 1]).err(),
        Some(OracleError::NotOwner)
    );
    assert_eq!(
        engine.distribute_performance_rewards(account("owner.near"), 10, vec![1]).err(),
        Some(OracleError::WeightCountMismatch)
    );
    assert_eq!(
        engine.distribute_performance_rewards(account("owner.near"), 10, vec![1, 1, 1]).err(),
        Some(OracleError::WeightCountMismatch)
    );
    engine.solvers[1].performance_metrics.total_rewards_earned = u128::MAX - 4;
    assert_eq!(
        engine.distribute_performance_rewards(account("owner.near"), 10, vec![1, 1]).err(),
        Some(OracleError::ArithmeticOverflow)
    );
    // nothing was credited to the first solver either
    assert_eq!(engine.solvers[0].performance_metrics.total_rewards_earned, 0);
    assert_eq!(
        engine.distribute_performance_rewards(account("owner.near"), 8, vec![1, 1]).map(|o| o.len()),
        Ok(2)
    );
    assert_eq!(engine.solvers[1].performance_metrics.total_rewards_earned, u128::MAX);
}
