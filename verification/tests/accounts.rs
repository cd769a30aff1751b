use oracle_intent::scoring::{confidence_is_valid, has_sufficient_reputation};
use oracle_intent::{
    IntentStatus, OracleError, OracleIntentContract, Source, UserRole,
};

const NEAR: u128 = 1_000_000_000_000_000_000_000_000;

fn account(name: &str) -> String {
    name.to_string()
}

fn sources() -> Vec<Source> {
    vec![Source { title: "T".to_string(), url: "https://example.org".to_string() }]
}

fn engine() -> OracleIntentContract {
    OracleIntentContract::new(account("owner.near"))
}

#[test]
fn user_registers_once() {
    let mut engine = engine();
    assert!(!engine.is_user_registered(account("u.near")));
    assert_eq!(engine.register_user(account("u.near"), UserRole::User, 42), Ok(()));
    assert!(engine.is_user_registered(account("u.near")));
    let profile = engine.get_user_profile(account("u.near")).unwrap();
    assert_eq!(profile.account_id, "u.near");
    assert_eq!(profile.role, UserRole::User);
    assert_eq!(profile.registration_date, 42);
    assert!(!profile.is_verified);
    assert_eq!(profile.verification_level, 0);
    assert_eq!(profile.total_intents_created, 0);
    assert_eq!(profile.total_stake_committed, 0);
    assert_eq!(
        engine.register_user(account("u.near"), UserRole::Solver, 43),
        Err(OracleError::UserAlreadyRegistered)
    );
    assert_eq!(engine.get_storage_stats().3, 1);
    assert!(engine.get_user_profile(account("v.near")).is_none());
}

#[test]
fn roles_are_granted_by_rank() {
    let mut engine = engine();
    assert_eq!(
        engine.register_user(account("a.near"), UserRole::Admin, 1),
        Err(OracleError::NotOwner)
    );
    assert_eq!(
        engine.register_user(account("v.near"), UserRole::Verifier, 1),
        Err(OracleError::NotAdminOrOwner)
    );
    assert!(!engine.is_user_registered(account("a.near")));
    assert_eq!(engine.register_user(account("owner.near"), UserRole::Admin, 1), Ok(()));
    assert_eq!(engine.get_all_admins(), vec![account("owner.near")]);
    assert!(engine.get_all_verifiers().is_empty());
    assert_eq!(engine.register_user(account("s.near"), UserRole::Solver, 1), Ok(()));
    assert_eq!(engine.get_all_admins().len(), 1);
}

#[test]
fn role_changes_move_accounts_between_lists() {
    let mut engine = engine();
    engine.register_user(account("a.near"), UserRole::User, 1).unwrap();
    engine.register_user(account("b.near"), UserRole::User, 1).unwrap();
    assert_eq!(
        engine.update_user_role(account("a.near"), account("b.near"), UserRole::Admin),
        Err(OracleError::NotAdminOrOwner)
    );
    assert_eq!(
        engine.update_user_role(account("owner.near"), account("x.near"), UserRole::Admin),
        Err(OracleError::UserNotFound)
    );
    assert_eq!(
        engine.update_user_role(account("owner.near"), account("a.near"), UserRole::Admin),
        Ok(())
    );
    assert_eq!(engine.get_all_admins(), vec![account("a.near")]);
    assert_eq!(engine.get_user_profile(account("a.near")).unwrap().role, UserRole::Admin);
    // an administrator may now name a verifier
    assert_eq!(
        engine.update_user_role(account("a.near"), account("b.near"), UserRole::Verifier),
        Ok(())
    );
    assert_eq!(engine.get_all_verifiers(), vec![account("b.near")]);
    assert_eq!(engine.register_user(account("c.near"), UserRole::Verifier, 2).err(), Some(OracleError::NotAdminOrOwner));
    assert_eq!(engine.register_user(account("a.near"), UserRole::Verifier, 2).err(), Some(OracleError::UserAlreadyRegistered));
    // from verifier to administrator: out of one list, into the other
    assert_eq!(
        engine.update_user_role(account("owner.near"), account("b.near"), UserRole::Admin),
        Ok(())
    );
    assert_eq!(engine.get_all_admins(), vec![account("a.near"), account("b.near")]);
    assert!(engine.get_all_verifiers().is_empty());
    // administrator again: taken out and added at the end
    assert_eq!(
        engine.update_user_role(account("owner.near"), account("a.near"), UserRole::Admin),
        Ok(())
    );
    assert_eq!(engine.get_all_admins(), vec![account("b.near"), account("a.near")]);
    assert_eq!(
        engine.update_user_role(account("owner.near"), account("a.near"), UserRole::User),
        Ok(())
    );
    assert_eq!(engine.get_all_admins(), vec![account("b.near")]);
    assert_eq!(engine.get_user_profile(account("a.near")).unwrap().role, UserRole::User);
}

#[test]
fn verification_sets_the_level() {
    let mut engine = engine();
    engine.register_user(account("u.near"), UserRole::User, 1).unwrap();
    assert!(!engine.is_user_verified(&account("u.near")));
    assert!(!engine.is_user_verified(&account("nobody.near")));
    assert_eq!(
        engine.verify_user(account("u.near"), account("u.near"), 3),
        Err(OracleError::NotVerifierOrAdmin)
    );
    assert_eq!(
        engine.verify_user(account("owner.near"), account("u.near"), 6),
        Err(OracleError::InvalidVerificationLevel)
    );
    assert_eq!(
        engine.verify_user(account("owner.near"), account("x.near"), 5),
        Err(OracleError::UserNotFound)
    );
    assert_eq!(engine.verify_user(account("owner.near"), account("u.near"), 5), Ok(()));
    let profile = engine.get_user_profile(account("u.near")).unwrap();
    assert!(profile.is_verified);
    assert_eq!(profile.verification_level, 5);
    assert!(engine.is_user_verified(&account("u.near")));
    assert_eq!(engine.verify_user(account("owner.near"), account("u.near"), 0), Ok(()));
    let profile = engine.get_user_profile(account("u.near")).unwrap();
    assert!(!profile.is_verified);
    assert_eq!(profile.verification_level, 0);
    // a verifier may verify
    engine.register_user(account("v.near"), UserRole::User, 1).unwrap();
    engine.update_user_role(account("owner.near"), account("v.near"), UserRole::Verifier).unwrap();
    assert_eq!(engine.verify_user(account("v.near"), account("u.near"), 1), Ok(()));
    assert!(engine.is_user_verified(&account("u.near")));
}

#[test]
fn solver_registers_with_the_minimum_stake() {
    let mut engine = engine();
    assert_eq!(
        engine.register_solver(account("s.near"), NEAR - 1, 5),
        Err(OracleError::InsufficientStake)
    );
    assert!(engine.get_solver(account("s.near")).is_none());
    assert_eq!(engine.register_solver(account("s.near"), NEAR, 5), Ok(()));
    let solver = engine.get_solver(account("s.near")).unwrap();
    assert_eq!(solver.solver_id, "s.near");
    assert_eq!((solver.successful_evaluations, solver.total_evaluations), (0, 0));
    assert_eq!(solver.total_stake, NEAR);
    assert!(solver.is_active);
    let metrics = engine.get_solver_performance_metrics(account("s.near")).unwrap();
    assert_eq!(metrics.total_challenges_received, 0);
    assert_eq!(metrics.challenges_successfully_defended, 0);
    assert_eq!(metrics.total_rewards_earned, 0);
    assert_eq!(metrics.total_stakes_lost, 0);
    assert_eq!(metrics.last_active_timestamp, 5);
    assert!(metrics.specialization_areas.is_empty());
    assert!(engine.get_solver_performance_metrics(account("t.near")).is_none());
    // the stake is the account's bond
    assert_eq!(engine.get_solver_stake(account("s.near")), Some(NEAR));
    assert_eq!(engine.get_solver_stake(account("t.near")), None);
    assert_eq!(engine.solver_stakes.len(), 1);
    assert_eq!(engine.solver_stakes[0].account, "s.near");
}

#[test]
fn a_refused_registration_leaves_no_bond() {
    let mut engine = engine();
    assert_eq!(
        engine.register_solver(account("s.near"), NEAR - 1, 5),
        Err(OracleError::InsufficientStake)
    );
    assert!(engine.solver_stakes.is_empty());
    assert_eq!(engine.get_solver_stake(account("s.near")), None);
}

#[test]
fn the_bond_is_kept_apart_from_the_stakes_of_evaluations() {
    let mut engine = engine();
    engine.register_solver(account("s.near"), 3 * NEAR, 0).unwrap();
    let id = engine
        .submit_credibility_intent(account("a.near"), NEAR, "Q".to_string(), None, None, None, 0)
        .unwrap();
    engine.submit_evaluation(account("s.near"), 7 * NEAR, id, true, 0, sources(), 1, 1).unwrap();
    assert_eq!(engine.get_solver_stake(account("s.near")), Some(3 * NEAR));
    assert_eq!(engine.get_solver(account("s.near")).unwrap().total_stake, 3 * NEAR);
}

#[test]
fn solver_that_registers_again_starts_afresh_in_place() {
    let mut engine = engine();
    engine.register_solver(account("a.near"), NEAR, 1).unwrap();
    engine.register_solver(account("b.near"), NEAR, 2).unwrap();
    engine.solvers[0].total_evaluations = 9;
    engine.solvers[0].successful_evaluations = 3;
    engine.register_solver(account("a.near"), 7 * NEAR, 3).unwrap();
    assert_eq!(engine.solvers.len(), 2);
    assert_eq!(engine.solvers[0].solver_id, "a.near");
    assert_eq!(engine.solvers[0].total_evaluations, 0);
    assert_eq!(engine.solvers[0].total_stake, 7 * NEAR);
    assert_eq!(engine.solvers[1].solver_id, "b.near");
    // the new stake takes the place of the former bond
    assert_eq!(engine.solver_stakes.len(), 2);
    assert_eq!(engine.get_solver_stake(account("a.near")), Some(7 * NEAR));
    assert_eq!(engine.get_solver_stake(account("b.near")), Some(NEAR));
    assert_eq!(engine.solver_stakes[0].account, "a.near");
    assert!(engine.is_well_formed());
}

#[test]
fn specialization_is_the_solvers_to_name() {
    let mut engine = engine();
    engine.register_solver(account("s.near"), NEAR, 1).unwrap();
    engine.update_solver_specialization(account("s.near"), vec![account("news"), account("science")]);
    assert_eq!(
        engine.get_solver_specialization(account("s.near")),
        vec![account("news"), account("science")]
    );
    engine.update_solver_specialization(account("t.near"), vec![account("finance")]);
    assert!(engine.get_solver_specialization(account("t.near")).is_empty());
    assert!(engine.get_solver(account("t.near")).is_none());
    engine.update_solver_specialization(account("s.near"), vec![]);
    assert!(engine.get_solver_specialization(account("s.near")).is_empty());
}

#[test]
fn reputation_threshold_is_seven_tenths() {
    assert!(has_sufficient_reputation(0, 0));
    assert!(has_sufficient_reputation(7, 10));
    assert!(!has_sufficient_reputation(69, 100));
    assert!(has_sufficient_reputation(70, 100));
    assert!(!has_sufficient_reputation(0, 1));
    assert!(has_sufficient_reputation(1, 1));
    assert!(!has_sufficient_reputation(2, 3));
    assert!(has_sufficient_reputation(3, 4));
    assert!(!has_sufficient_reputation(6_999_999_999_999_999_999, 10_000_000_000_000_000_000));
    assert!(has_sufficient_reputation(7_000_000_000_000_000_000, 10_000_000_000_000_000_000));
    assert!(has_sufficient_reputation(u64::MAX, u64::MAX));
}

#[test]
fn confidence_is_judged_by_its_bits() {
    assert!(confidence_is_valid(0));
    assert!(confidence_is_valid(1.0f64.to_bits()));
    assert!(confidence_is_valid(0x8000_0000_0000_0000));
    assert!(!confidence_is_valid(1.0f64.to_bits() + 1));
    assert!(!confidence_is_valid(0x8000_0000_0000_0001));
    assert!(!confidence_is_valid(u64::MAX));
    assert!(!confidence_is_valid(f64::NAN.to_bits()));
}

#[test]
fn accepting_needs_an_active_solver_and_a_pending_intent() {
    let mut engine = engine();
    let id = engine
        .submit_credibility_intent(account("a.near"), NEAR, "Q".to_string(), None, None, Some(1), 0)
        .unwrap();
    assert_eq!(
        engine.accept_intent(account("s.near"), id.clone(), 1),
        Err(OracleError::SolverNotRegistered)
    );
    engine.register_solver(account("s.near"), NEAR, 0).unwrap();
    engine.solvers[0].is_active = false;
    assert_eq!(
        engine.accept_intent(account("s.near"), id.clone(), 1),
        Err(OracleError::SolverNotActive)
    );
    engine.solvers[0].is_active = true;
    assert_eq!(
        engine.accept_intent(account("s.near"), "intent_5".to_string(), 1),
        Err(OracleError::IntentNotFound)
    );
    assert_eq!(
        engine.accept_intent(account("s.near"), id.clone(), 60_000_000_001),
        Err(OracleError::IntentExpired)
    );
    assert_eq!(engine.accept_intent(account("s.near"), id.clone(), 60_000_000_000), Ok(true));
    assert_eq!(engine.get_intent(id.clone()).unwrap().status, IntentStatus::InProgress);
    assert_eq!(
        engine.accept_intent(account("s.near"), id.clone(), 1),
        Err(OracleError::IntentNotPending)
    );
    // a claimed intent takes no evaluation
    assert_eq!(
        engine.submit_evaluation(account("s.near"), NEAR, id, true, 0, sources(), 1, 1),
        Err(OracleError::IntentNotPending)
    );
}

#[test]
fn high_value_intents_ask_for_reputation() {
    let mut engine = engine();
    engine.register_solver(account("s.near"), NEAR, 0).unwrap();
    engine.solvers[0].total_evaluations = 10;
    engine.solvers[0].successful_evaluations = 6;
    let modest = engine
        .submit_credibility_intent(account("a.near"), 5 * NEAR, "Q".to_string(), None, None, None, 0)
        .unwrap();
    let rich = engine
        .submit_credibility_intent(
            account("a.near"),
            5 * NEAR + 1,
            "Q".to_string(),
            None,
            None,
            None,
            0,
        )
        .unwrap();
    assert_eq!(engine.accept_intent(account("s.near"), modest, 1), Ok(true));
    assert_eq!(
        engine.accept_intent(account("s.near"), rich.clone(), 1),
        Err(OracleError::InsufficientReputation)
    );
    engine.solvers[0].successful_evaluations = 7;
    assert_eq!(engine.accept_intent(account("s.near"), rich, 1), Ok(true));
}

#[test]
fn completion_is_the_evaluating_solvers() {
    let mut engine = engine();
    engine.register_solver(account("s.near"), NEAR, 0).unwrap();
    engine.register_solver(account("t.near"), NEAR, 0).unwrap();
    engine.register_user(account("a.near"), UserRole::User, 0).unwrap();
    let ask = |engine: &mut OracleIntentContract, stake: u128| {
        engine
            .submit_credibility_intent(account("a.near"), stake, "Q".to_string(), None, None, None, 0)
            .unwrap()
    };
    let first = ask(&mut engine, 2 * NEAR);
    let second = ask(&mut engine, 3 * NEAR);
    let pending = ask(&mut engine, NEAR);
    let e1 = engine
        .submit_evaluation(account("s.near"), NEAR, first.clone(), true, 0, sources(), 1, 1)
        .unwrap();
    let e2 = engine
        .submit_evaluation(account("t.near"), NEAR, second.clone(), true, 0, sources(), 1, 1)
        .unwrap();
    let complete = |engine: &mut OracleIntentContract, who: &str, intent: &str, evaluation: &str| {
        engine.complete_intent_execution(account(who), intent.to_string(), evaluation.to_string())
    };
    assert_eq!(complete(&mut engine, "s.near", "intent_9", &e1), Err(OracleError::IntentNotFound));
    assert_eq!(
        complete(&mut engine, "s.near", &pending, &e1),
        Err(OracleError::IntentNotInProgress)
    );
    assert_eq!(
        complete(&mut engine, "s.near", &first, "eval_9"),
        Err(OracleError::EvaluationNotFound)
    );
    assert_eq!(complete(&mut engine, "t.near", &first, &e1), Err(OracleError::WrongSolver));
    assert_eq!(
        complete(&mut engine, "t.near", &first, &e2),
        Err(OracleError::EvaluationIntentMismatch)
    );
    assert_eq!(complete(&mut engine, "s.near", &first, &e1), Ok(true));
    let intent = engine.get_intent(first.clone()).unwrap();
    assert_eq!(intent.status, IntentStatus::Completed);
    assert_eq!(intent.evaluation_hash.as_deref(), Some("eval_1"));
    let profile = engine.get_user_profile(account("a.near")).unwrap();
    assert_eq!(profile.total_intents_created, 1);
    assert_eq!(profile.total_stake_committed, 2 * NEAR);
    assert_eq!(complete(&mut engine, "s.near", &first, &e1), Err(OracleError::IntentNotInProgress));
    assert_eq!(complete(&mut engine, "t.near", &second, &e2), Ok(true));
    let profile = engine.get_user_profile(account("a.near")).unwrap();
    assert_eq!(profile.total_intents_created, 2);
    assert_eq!(profile.total_stake_committed, 5 * NEAR);
}

#[test]
fn completion_counts_nothing_without_a_profile() {
    let mut engine = engine();
    engine.register_solver(account("s.near"), NEAR, 0).unwrap();
    let id = engine
        .submit_credibility_intent(account("a.near"), NEAR, "Q".to_string(), None, None, None, 0)
        .unwrap();
    let e = engine
        .submit_evaluation(account("s.near"), NEAR, id.clone(), false, 0, sources(), 1, 1)
        .unwrap();
    assert_eq!(engine.complete_intent_execution(account("s.near"), id, e), Ok(true));
    assert_eq!(engine.get_storage_stats().3, 0);
}

#[test]
fn every_refusal_has_a_message() {
    assert_eq!(OracleError::NotOwner.message(), "Only owner can call this method");
    assert_eq!(OracleError::InvalidWinner.message(), "Invalid winner specification");
    assert_eq!(
        OracleError::ChallengeStakeTooLow.message(),
        "Challenge stake must be higher than evaluation stake"
    );
    assert_eq!(OracleError::ConfidenceOutOfRange.message(), "Confidence must be between 0 and 1");
    assert_eq!(OracleError::IntentNotFound.message(), "Intent not found");
    assert_eq!(OracleError::ChallengePeriodActive.message(), "Challenge period still active");
    assert_eq!(OracleError::UserAlreadyRegistered.message(), "User already registered");
}
