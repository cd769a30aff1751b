use oracle_intent::sweeper::{compute_cutoff, count_overdue};
use oracle_intent::types::{NANOS_PER_DAY, NANOS_PER_MINUTE};
use oracle_intent::{
    ChallengeStatus, EvaluationStatus, IntentStatus, OracleError, OracleIntentContract, Source,
};

const NEAR: u128 = 1_000_000_000_000_000_000_000_000;
const HOUR: u64 = 60 * NANOS_PER_MINUTE;

fn account(name: &str) -> String {
    name.to_string()
}

fn sources() -> Vec<Source> {
    vec![Source { title: "T".to_string(), url: "https://example.org".to_string() }]
}

fn engine() -> OracleIntentContract {
    let mut engine = OracleIntentContract::new(account("owner.near"));
    engine.register_solver(account("solver.near"), NEAR, 0).unwrap();
    engine
}

fn ask(engine: &mut OracleIntentContract, who: &str, stake: u128, minutes: u64, now: u64) -> String {
    engine
        .submit_credibility_intent(
            account(who),
            stake,
            "Q?".to_string(),
            None,
            None,
            Some(minutes),
            now,
        )
        .unwrap()
}

fn evaluate(engine: &mut OracleIntentContract, intent_id: &str, now: u64) -> String {
    engine
        .submit_evaluation(
            account("solver.near"),
            NEAR,
            intent_id.to_string(),
            true,
            1.0f64.to_bits(),
            sources(),
            1_000,
            now,
        )
        .unwrap()
}

#[test]
fn sweep_expires_overdue_pending_intents_and_refunds_them() {
    let mut engine = engine();
    let a = ask(&mut engine, "a.near", 2 * NEAR, 10, 0);
    let b = ask(&mut engine, "b.near", 3 * NEAR, 20, 0);
    let c = ask(&mut engine, "c.near", 4 * NEAR, 10, 0);
    let d = ask(&mut engine, "d.near", 5 * NEAR, 10, 0);
    evaluate(&mut engine, &d, 5);
    let now = 10 * NANOS_PER_MINUTE + 1;
    assert_eq!(count_overdue(&engine.intents, now), 2);
    let owed = engine.process_expired_intents(now);
    assert_eq!(owed.len(), 2);
    assert_eq!((owed[0].recipient.as_str(), owed[0].amount), ("a.near", 2 * NEAR));
    assert_eq!((owed[1].recipient.as_str(), owed[1].amount), ("c.near", 4 * NEAR));
    assert_eq!(engine.get_intent(a).unwrap().status, IntentStatus::Expired);
    assert_eq!(engine.get_intent(b).unwrap().status, IntentStatus::Pending);
    assert_eq!(engine.get_intent(c).unwrap().status, IntentStatus::Expired);
    assert_eq!(engine.get_intent(d).unwrap().status, IntentStatus::InProgress);
}

#[test]
fn sweep_at_the_deadline_expires_nothing() {
    let mut engine = engine();
    let a = ask(&mut engine, "a.near", NEAR, 10, 0);
    assert!(engine.process_expired_intents(10 * NANOS_PER_MINUTE).is_empty());
    assert_eq!(engine.get_intent(a).unwrap().status, IntentStatus::Pending);
}

#[test]
fn second_sweep_in_a_row_does_nothing() {
    let mut engine = engine();
    ask(&mut engine, "a.near", NEAR, 10, 0);
    ask(&mut engine, "b.near", NEAR, 10, 0);
    let now = HOUR;
    assert_eq!(engine.process_expired_intents(now).len(), 2);
    assert_eq!(engine.process_expired_intents(now).len(), 0);
    assert_eq!(engine.process_expired_intents(now - 1).len(), 0);
    assert_eq!(engine.get_intents_by_status(IntentStatus::Expired).len(), 2);
}

#[test]
fn expired_intent_takes_no_evaluation() {
    let mut engine = engine();
    let a = ask(&mut engine, "a.near", NEAR, 10, 0);
    engine.process_expired_intents(HOUR);
    let refused = engine.submit_evaluation(
        account("solver.near"),
        NEAR,
        a,
        true,
        1.0f64.to_bits(),
        sources(),
        1,
        HOUR,
    );
    assert_eq!(refused, Err(OracleError::IntentNotPending));
}

#[test]
fn cutoff_saturates_at_zero() {
    assert_eq!(compute_cutoff(100 * NANOS_PER_DAY, 30), 70 * NANOS_PER_DAY);
    assert_eq!(compute_cutoff(30 * NANOS_PER_DAY, 30), 0);
    assert_eq!(compute_cutoff(5, 30), 0);
    assert_eq!(compute_cutoff(u64::MAX, u64::MAX), 0);
    assert_eq!(compute_cutoff(77, 0), 77);
}

#[test]
fn cleanup_is_the_owners() {
    let mut engine = engine();
    assert_eq!(
        engine.cleanup_old_data(account("solver.near"), 30, 1_000),
        Err(OracleError::NotOwner)
    );
    assert_eq!(
        engine.cleanup_old_data_limited(account("solver.near"), 30, 10, 1_000),
        Err(OracleError::NotOwner)
    );
    assert_eq!(engine.cleanup_old_data(account("owner.near"), 30, 1_000), Ok(0));
}

#[test]
fn cleanup_removes_old_decided_records_only() {
    let mut engine = engine();
    // an expired intent, an old pending one with a long deadline, a settled dispute
    let expired = ask(&mut engine, "a.near", NEAR, 10, 0);
    let pending = ask(&mut engine, "b.near", NEAR, 1_000_000, 0);
    let disputed = ask(&mut engine, "c.near", NEAR, 10, 0);
    let evaluation = evaluate(&mut engine, &disputed, 5);
    let challenge = engine
        .submit_challenge(account("d.near"), 2 * NEAR, evaluation.clone(), sources(), 6)
        .unwrap();
    engine.process_expired_intents(HOUR);
    engine
        .settle_dispute(
            account("owner.near"),
            evaluation.clone(),
            challenge.clone(),
            "tie".to_string(),
            HOUR,
        )
        .unwrap();
    let recent = ask(&mut engine, "e.near", NEAR, 10, 40 * NANOS_PER_DAY);
    engine.process_expired_intents(41 * NANOS_PER_DAY);
    assert_eq!(engine.get_intent(recent.clone()).unwrap().status, IntentStatus::Expired);

    let removed = engine.cleanup_old_data(account("owner.near"), 30, 50 * NANOS_PER_DAY).unwrap();
    // the expired intent, the evaluation and the challenge go; the intent in
    // progress, the pending intent and the recent one stay
    assert_eq!(removed, 3);
    assert!(engine.get_intent(expired).is_none());
    assert!(engine.get_intent(pending).is_some());
    assert_eq!(engine.get_intent(disputed).unwrap().status, IntentStatus::InProgress);
    assert!(engine.get_intent(recent).is_some());
    assert!(engine.get_evaluation(evaluation).is_none());
    assert!(engine.get_challenge(challenge).is_none());
    assert_eq!(engine.get_storage_stats(), (3, 0, 0, 0));
    assert_eq!(engine.cleanup_old_data(account("owner.near"), 30, 50 * NANOS_PER_DAY), Ok(0));
}

#[test]
fn cleanup_keeps_what_an_undecided_record_refers_to() {
    let mut engine = engine();
    let intent = ask(&mut engine, "a.near", NEAR, 10, 0);
    let evaluation = evaluate(&mut engine, &intent, 5);
    assert_eq!(
        engine.complete_intent_execution(account("solver.near"), intent.clone(), evaluation.clone()),
        Ok(true)
    );
    assert_eq!(engine.get_intent(intent.clone()).unwrap().status, IntentStatus::Completed);
    assert_eq!(engine.get_evaluation(evaluation.clone()).unwrap().status, EvaluationStatus::Submitted);
    // the completed intent is old, but its evaluation is still open
    assert_eq!(engine.cleanup_old_data(account("owner.near"), 1, 10 * NANOS_PER_DAY), Ok(0));
    assert!(engine.get_intent(intent.clone()).is_some());
    let reward = engine.finalize_evaluation_reward(evaluation.clone(), 10 * NANOS_PER_DAY).unwrap();
    // two tokens, times 5/4 for an unrated solver, times 659/600 for one second
    assert_eq!(reward.transfer.amount, 2_745_833_333_333_333_333_333_333);
    assert_eq!(engine.cleanup_old_data(account("owner.near"), 1, 10 * NANOS_PER_DAY), Ok(2));
    assert!(engine.get_intent(intent).is_none());
    assert!(engine.get_evaluation(evaluation).is_none());
}

#[test]
fn cleanup_keeps_an_evaluation_under_an_undecided_challenge() {
    let mut engine = engine();
    let intent = ask(&mut engine, "a.near", NEAR, 10, 0);
    let evaluation = evaluate(&mut engine, &intent, 5);
    let challenge = engine
        .submit_challenge(account("d.near"), 2 * NEAR, evaluation.clone(), sources(), 6)
        .unwrap();
    assert_eq!(engine.cleanup_old_data(account("owner.near"), 1, 10 * NANOS_PER_DAY), Ok(0));
    assert_eq!(engine.get_storage_stats(), (1, 1, 1, 0));
    assert_eq!(engine.get_challenge(challenge).unwrap().status, ChallengeStatus::Submitted);
}

#[test]
fn limited_cleanup_removes_the_first_old_intents() {
    let mut engine = engine();
    let ids: Vec<String> = (0..5).map(|_| ask(&mut engine, "a.near", NEAR, 10, 0)).collect();
    let kept = ask(&mut engine, "a.near", NEAR, 1_000_000, 0);
    engine.process_expired_intents(HOUR);
    let now = 40 * NANOS_PER_DAY;
    assert_eq!(engine.cleanup_old_data_limited(account("owner.near"), 30, 0, now), Ok(0));
    assert_eq!(engine.cleanup_old_data_limited(account("owner.near"), 30, 2, now), Ok(2));
    assert!(engine.get_intent(ids[0].clone()).is_none());
    assert!(engine.get_intent(ids[1].clone()).is_none());
    assert!(engine.get_intent(ids[2].clone()).is_some());
    assert_eq!(engine.cleanup_old_data_limited(account("owner.near"), 30, 10, now), Ok(3));
    assert_eq!(engine.cleanup_old_data_limited(account("owner.near"), 30, 10, now), Ok(0));
    assert!(engine.get_intent(kept).is_some());
    assert_eq!(engine.get_storage_stats().0, 1);
}

#[test]
fn batch_sweeps_then_cleans_with_what_is_left() {
    let mut engine = engine();
    for _ in 0..3 {
        ask(&mut engine, "old.near", NEAR, 10, 0);
    }
    engine.process_expired_intents(HOUR);
    let now = 40 * NANOS_PER_DAY;
    for _ in 0..2 {
        ask(&mut engine, "new.near", NEAR, 10, now - HOUR);
    }
    // two operations go to the sweep, two are left for the cleanup
    let (owed, removed) =
        engine.batch_process_expired_and_cleanup(account("owner.near"), 4, now).unwrap();
    assert_eq!(owed.len(), 2);
    assert_eq!(removed, 2);
    assert_eq!(engine.get_storage_stats().0, 3);
    assert_eq!(engine.get_intents_by_status(IntentStatus::Expired).len(), 3);
}

#[test]
fn batch_without_operations_left_only_sweeps() {
    let mut engine = engine();
    for _ in 0..3 {
        ask(&mut engine, "a.near", NEAR, 10, 0);
    }
    let now = 40 * NANOS_PER_DAY;
    // anyone may sweep when nothing is left for a cleanup
    let (owed, removed) =
        engine.batch_process_expired_and_cleanup(account("anyone.near"), 3, now).unwrap();
    assert_eq!((owed.len(), removed), (3, 0));
    assert_eq!(engine.get_storage_stats().0, 3);
    let (owed, removed) =
        engine.batch_process_expired_and_cleanup(account("anyone.near"), 0, now).unwrap();
    assert_eq!((owed.len(), removed), (0, 0));
}

#[test]
fn batch_with_a_cleanup_is_the_owners() {
    let mut engine = engine();
    ask(&mut engine, "a.near", NEAR, 10, 0);
    let refused = engine.batch_process_expired_and_cleanup(account("anyone.near"), 5, HOUR);
    assert_eq!(refused.err(), Some(OracleError::NotOwner));
    // nothing happened: the intent is still pending
    assert_eq!(engine.get_pending_intents().len(), 1);
}

#[test]
fn maintenance_cleans_after_every_hundredth_intent() {
    let mut engine = engine();
    // the counter stands at zero: a cleanup is due, and only the owner may run it
    assert_eq!(
        engine.auto_cleanup(account("anyone.near"), HOUR).err(),
        Some(OracleError::NotOwner)
    );
    let (owed, removed) = engine.auto_cleanup(account("owner.near"), HOUR).unwrap();
    assert_eq!((owed.len(), removed), (0, 0));
    let first = ask(&mut engine, "a.near", NEAR, 10, 0);
    // the counter stands at one: anyone may sweep, nothing is cleaned
    let (owed, removed) = engine.auto_cleanup(account("anyone.near"), 40 * NANOS_PER_DAY).unwrap();
    assert_eq!((owed.len(), removed), (1, 0));
    assert!(engine.get_intent(first.clone()).is_some());
    for _ in 1..100 {
        ask(&mut engine, "a.near", NEAR, 100_000_000, 0);
    }
    assert_eq!(engine.intent_counter, 100);
    let (owed, removed) = engine.auto_cleanup(account("owner.near"), 40 * NANOS_PER_DAY).unwrap();
    assert_eq!((owed.len(), removed), (0, 1));
    assert!(engine.get_intent(first).is_none());
}
