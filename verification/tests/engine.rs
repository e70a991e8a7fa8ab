use catalytics_core::app_error::AppError;
use catalytics_core::entities::progression_event_type::ProgressionEventType;
use catalytics_core::use_cases::badge::{BadgeCondition, BadgeOperation, BadgeScore};
use catalytics_core::use_cases::engine::ProgressionEngine;
use catalytics_core::use_cases::sync::Reading;

fn seeded_engine() -> ProgressionEngine {
    let conditions = vec![
        BadgeCondition {
            badge_id: 1,
            event_type: ProgressionEventType::BetaApplicantCreated,
            operation: BadgeOperation::Equals,
            required_count: 1,
        },
        BadgeCondition {
            badge_id: 2,
            event_type: ProgressionEventType::CaticsBalanceCheck,
            operation: BadgeOperation::GreaterOrEqual,
            required_count: 100,
        },
        BadgeCondition {
            badge_id: 3,
            event_type: ProgressionEventType::ReferralCreated,
            operation: BadgeOperation::GreaterOrEqual,
            required_count: 1,
        },
    ];
    let scores = vec![
        BadgeScore { badge_id: 1, score: 0 },
        BadgeScore { badge_id: 2, score: 50 },
        BadgeScore { badge_id: 3, score: 20 },
    ];
    ProgressionEngine::new(conditions, scores)
}

fn unavailable() -> Reading {
    Reading::Unavailable
}

fn not_configured() -> Reading {
    Reading::NotConfigured(String::from("CATICS_TOKEN_ADDRESS"))
}

#[test]
fn new_applicant_joins_the_board_at_the_end_and_rises_with_a_badge() {
    let mut engine = seeded_engine();
    engine.create("alice", None, Reading::Value(0), Reading::Value(0), 100).unwrap();
    engine.create("bob", None, Reading::Value(0), Reading::Value(0), 200).unwrap();
    let population = engine.count();
    assert_eq!(population, 2);

    let carol = engine
        .create_with_code("carol", None, String::from("CAROL1"), Reading::Value(0), Reading::Value(0), 300)
        .unwrap();
    assert_eq!(carol.id, 3);
    let entry = engine.leaderboard().get_cached_entry("carol").unwrap();
    assert_eq!(entry.rank as i64, population + 1);
    assert_eq!(entry.total_score, 0);
    assert_eq!(engine.leaderboard().get_user_rank("carol"), 3);

    let report = engine.sync_all("carol", Reading::Value(150), Reading::Value(0), 400).unwrap().unwrap();
    assert_eq!(report.granted, vec![2]);
    assert_eq!(report.catics_balance, 150);
    assert!(engine.awards().is_awarded(3, 2));
    assert_eq!(engine.awards().awarded_at(3, 2), Some(400));
    let live = engine.leaderboard().get_user_leaderboard_entry("carol").unwrap();
    assert_eq!(live.total_score, 50);
    assert_eq!(live.rank, 1);
    assert_eq!(engine.leaderboard().get_cached_entry("carol").unwrap().rank, 3);
    assert_eq!(engine.leaderboard().get_user_rank("alice"), 2);

    engine.recompute_ranks();
    let cached = engine.leaderboard().get_cached_entry("carol").unwrap();
    assert_eq!(cached.rank, 1);
    assert_eq!(cached.previous_rank, 3);
    assert_eq!(engine.leaderboard().get_cached_entry("alice").unwrap().rank, 2);
    assert_eq!(engine.leaderboard().get_cached_entry("bob").unwrap().rank, 3);
}

#[test]
fn sync_survives_a_failing_balance_source() {
    let mut engine = seeded_engine();
    let alice = engine.create("alice", None, Reading::Value(0), Reading::Value(0), 100).unwrap();
    engine
        .create("bob", Some(alice.referral_code.as_str()), Reading::Value(0), Reading::Value(0), 200)
        .unwrap();
    let report = engine.sync_all("alice", unavailable(), unavailable(), 300).unwrap().unwrap();
    assert!(report.catics_failed);
    assert!(report.jup_failed);
    assert!(!report.referral_failed);
    assert_eq!(report.registration, 1);
    assert_eq!(report.referral_count, 1);
    assert_eq!(report.granted, vec![3]);
    assert!(engine.awards().is_awarded(1, 1));
    assert!(!engine.awards().is_awarded(1, 2));
    assert!(engine.awards().is_awarded(1, 3));
    assert_eq!(
        engine
            .counters()
            .get_user_progression(1, ProgressionEventType::BetaApplicantCreated),
        1
    );
    assert_eq!(
        engine
            .counters()
            .get_user_progression(1, ProgressionEventType::ReferralCreated),
        1
    );
    assert_eq!(
        engine.leaderboard().get_user_leaderboard_entry("alice").unwrap().total_score,
        20
    );
}

#[test]
fn creation_registers_and_syncs() {
    let mut engine = seeded_engine();
    let alice = engine.create("alice", None, Reading::Value(500), unavailable(), 100).unwrap();
    assert_eq!(alice.id, 1);
    assert_eq!(alice.created_at, 100);
    assert!(engine.awards().is_awarded(1, 1));
    assert!(engine.awards().is_awarded(1, 2));
    assert_eq!(
        engine
            .counters()
            .get_user_progression(1, ProgressionEventType::CaticsBalanceCheck),
        500
    );
    assert_eq!(
        engine.counters().get_user_progression(1, ProgressionEventType::JupStaked),
        0
    );
    let entry = engine.leaderboard().get_cached_entry("alice").unwrap();
    assert_eq!(entry.rank, 1);
    assert_eq!(entry.total_score, 50);
    assert_eq!(entry.created_at, 100);
}

#[test]
fn creation_is_idempotent() {
    let mut engine = seeded_engine();
    let first = engine.create("alice", None, Reading::Value(500), Reading::Value(0), 100).unwrap();
    let second = engine.create("alice", None, Reading::Value(500), Reading::Value(0), 900).unwrap();
    assert_eq!(first.id, second.id);
    assert_eq!(first.referral_code, second.referral_code);
    assert_eq!(second.created_at, 100);
    assert_eq!(engine.count(), 1);
    assert_eq!(engine.awards().len(), 2);
    assert_eq!(engine.awards().awarded_at(1, 2), Some(100));
    assert_eq!(engine.leaderboard().get_total_users_with_badges(), 1);
}

#[test]
fn creation_with_unknown_referral_code_changes_nothing() {
    let mut engine = seeded_engine();
    let result = engine.create("alice", Some("NOCODE"), Reading::Value(500), Reading::Value(0), 100);
    assert!(matches!(result, Err(AppError::NotFound(_))));
    assert_eq!(engine.count(), 0);
    assert_eq!(engine.awards().len(), 0);
    assert_eq!(engine.leaderboard().get_total_users_with_badges(), 0);
    assert!(matches!(engine.read("alice"), Err(AppError::NotFound(_))));
}

#[test]
fn sync_of_an_unknown_key_does_nothing() {
    let mut engine = seeded_engine();
    engine.create("alice", None, Reading::Value(0), Reading::Value(0), 100).unwrap();
    assert_eq!(
        engine.sync_all("nobody", Reading::Value(1000), Reading::Value(1000), 200),
        Ok(None)
    );
    assert_eq!(engine.awards().len(), 1);
}

#[test]
fn referral_badge_comes_with_the_next_sync_of_the_referrer() {
    let mut engine = seeded_engine();
    let alice = engine.create("alice", None, Reading::Value(0), Reading::Value(0), 100).unwrap();
    assert!(!engine.awards().is_awarded(1, 3));
    engine
        .create("bob", Some(alice.referral_code.as_str()), Reading::Value(0), Reading::Value(0), 200)
        .unwrap();
    assert!(!engine.awards().is_awarded(1, 3));
    let report = engine.sync_all("alice", Reading::Value(0), Reading::Value(0), 300).unwrap().unwrap();
    assert_eq!(report.referral_count, 1);
    assert_eq!(report.granted, vec![3]);
    assert_eq!(engine.leaderboard().get_user_rank("alice"), 1);
    assert_eq!(engine.leaderboard().get_user_rank("bob"), 2);
}

#[test]
fn engine_updates_and_reads_applicants() {
    let mut engine = seeded_engine();
    engine.create("alice", None, Reading::Value(0), Reading::Value(0), 100).unwrap();
    let updated = engine.update("alice", "alice@example.com").unwrap();
    assert_eq!(updated.email, Some(String::from("alice@example.com")));
    assert_eq!(
        engine.read("alice").unwrap().email,
        Some(String::from("alice@example.com"))
    );
    assert!(matches!(
        engine.update("bob", "bob@example.com"),
        Err(AppError::NotFound(_))
    ));
    assert_eq!(engine.applicants().count_referrals(1), 0);
}

#[test]
fn repeated_sync_changes_nothing_more() {
    let mut engine = seeded_engine();
    engine.create("alice", None, Reading::Value(0), Reading::Value(0), 100).unwrap();
    let first = engine.sync_all("alice", Reading::Value(150), unavailable(), 200).unwrap().unwrap();
    assert_eq!(first.granted, vec![2]);
    let held = engine.awards().awards_of(1);
    let entry = engine.leaderboard().get_cached_entry("alice").unwrap();
    let second = engine.sync_all("alice", Reading::Value(150), unavailable(), 900).unwrap().unwrap();
    assert_eq!(second.granted, Vec::<i32>::new());
    assert_eq!(engine.awards().awards_of(1), held);
    assert_eq!(engine.awards().awarded_at(1, 2), Some(200));
    let again = engine.leaderboard().get_cached_entry("alice").unwrap();
    assert_eq!(again.total_score, entry.total_score);
    assert_eq!(again.rank, entry.rank);
    assert_eq!(
        engine
            .counters()
            .get_user_progression(1, ProgressionEventType::CaticsBalanceCheck),
        150
    );
}

#[test]
fn sync_with_a_missing_token_address_is_fatal() {
    let mut engine = seeded_engine();
    engine.create("alice", None, Reading::Value(0), Reading::Value(0), 100).unwrap();
    let result = engine.sync_all("alice", not_configured(), Reading::Value(500), 200);
    assert_eq!(
        result,
        Err(AppError::Internal(String::from("CATICS_TOKEN_ADDRESS not set")))
    );
    assert_eq!(engine.awards().len(), 1);
    assert_eq!(
        engine
            .counters()
            .get_user_progression(1, ProgressionEventType::CaticsBalanceCheck),
        0
    );
    assert_eq!(
        engine.counters().get_user_progression(1, ProgressionEventType::JupStaked),
        0
    );
    let staked = engine.sync_all(
        "alice",
        Reading::Value(150),
        Reading::NotConfigured(String::from("JUP_TOKEN_ADDRESS")),
        300,
    );
    assert_eq!(
        staked,
        Err(AppError::Internal(String::from("JUP_TOKEN_ADDRESS not set")))
    );
    assert!(!engine.awards().is_awarded(1, 2));
    let unknown = engine.sync_all("nobody", not_configured(), Reading::Value(0), 400);
    assert!(unknown.is_err());
}

#[test]
fn creation_with_a_missing_token_address_stops_at_the_sync() {
    let mut engine = seeded_engine();
    let result = engine.create_with_code(
        "alice",
        None,
        String::from("ALICE1"),
        not_configured(),
        Reading::Value(0),
        100,
    );
    assert_eq!(
        result.err(),
        Some(AppError::Internal(String::from("CATICS_TOKEN_ADDRESS not set")))
    );
    assert_eq!(engine.count(), 1);
    assert_eq!(engine.read("alice").unwrap().referral_code, "ALICE1");
    let entry = engine.leaderboard().get_cached_entry("alice").unwrap();
    assert_eq!(entry.rank, 1);
    assert_eq!(entry.total_score, 0);
    assert!(engine.awards().is_awarded(1, 1));
    assert_eq!(engine.awards().len(), 1);
    assert_eq!(
        engine
            .counters()
            .get_user_progression(1, ProgressionEventType::BetaApplicantCreated),
        1
    );
    assert_eq!(
        engine
            .counters()
            .get_user_progression(1, ProgressionEventType::CaticsBalanceCheck),
        0
    );
    let again = engine
        .create("alice", None, Reading::Value(150), Reading::Unavailable, 200)
        .unwrap();
    assert_eq!(again.id, 1);
    assert!(engine.awards().is_awarded(1, 2));
    assert_eq!(engine.leaderboard().get_cached_entry("alice").unwrap().total_score, 50);
}
