use catalytics_core::app_error::AppError;
use catalytics_core::entities::progression_event_type::ProgressionEventType;
use catalytics_core::use_cases::badge::{BadgeAwards, BadgeCondition, BadgeOperation};
use catalytics_core::use_cases::progression::ProgressionCounters;
use catalytics_core::use_cases::sync::{
    sync_all_progressions, Reading, SourceAction, SourceEvent, SourceReadings, SourceState,
    SyncSource,
};

fn sync_rules() -> Vec<BadgeCondition> {
    vec![
        BadgeCondition {
            badge_id: 1,
            event_type: ProgressionEventType::BetaApplicantCreated,
            operation: BadgeOperation::Equals,
            required_count: 1,
        },
        BadgeCondition {
            badge_id: 2,
            event_type: ProgressionEventType::CaticsBalanceCheck,
            operation: BadgeOperation::GreaterOrEqual,
            required_count: 100,
        },
        BadgeCondition {
            badge_id: 3,
            event_type: ProgressionEventType::JupStaked,
            operation: BadgeOperation::GreaterOrEqual,
            required_count: 10,
        },
        BadgeCondition {
            badge_id: 4,
            event_type: ProgressionEventType::ReferralCreated,
            operation: BadgeOperation::GreaterOrEqual,
            required_count: 2,
        },
    ]
}

#[test]
fn sources_feed_their_kinds() {
    assert_eq!(
        SyncSource::Registration.event_type(),
        ProgressionEventType::BetaApplicantCreated
    );
    assert_eq!(
        SyncSource::CaticsBalance.event_type(),
        ProgressionEventType::CaticsBalanceCheck
    );
    assert_eq!(SyncSource::JupStaked.event_type(), ProgressionEventType::JupStaked);
    assert_eq!(
        SyncSource::Referrals.event_type(),
        ProgressionEventType::ReferralCreated
    );
}

#[test]
fn source_runs_through_on_success() {
    let state = SourceState::Pending;
    assert_eq!(state.next_action(), SourceAction::Fetch);
    let state = state.advance(SourceEvent::FetchSucceeded(150)).unwrap();
    assert_eq!(state, SourceState::Fetched(150));
    assert_eq!(state.next_action(), SourceAction::Record(150));
    let state = state.advance(SourceEvent::RecordSucceeded).unwrap();
    assert_eq!(state, SourceState::Recorded(150));
    assert_eq!(state.next_action(), SourceAction::Evaluate(150));
    assert!(!state.is_finished());
    let state = state.advance(SourceEvent::EvaluationDone).unwrap();
    assert_eq!(state, SourceState::Evaluated(150));
    assert_eq!(state.next_action(), SourceAction::Finished);
    assert!(state.is_finished());
}

#[test]
fn failed_source_goes_on_with_zero() {
    let state = SourceState::Pending.advance(SourceEvent::FetchFailed).unwrap();
    assert_eq!(state, SourceState::FetchFailed);
    assert_eq!(state.next_action(), SourceAction::Record(0));
    let state = state.advance(SourceEvent::RecordSucceeded).unwrap();
    assert_eq!(state, SourceState::RecordedAsZero);
    assert_eq!(state.next_action(), SourceAction::Evaluate(0));
    let state = state.advance(SourceEvent::EvaluationDone).unwrap();
    assert_eq!(state, SourceState::Evaluated(0));
}

#[test]
fn failed_recording_goes_on_with_zero() {
    let state = SourceState::Fetched(9).advance(SourceEvent::RecordFailed).unwrap();
    assert_eq!(state, SourceState::RecordedAsZero);
    let state = SourceState::FetchFailed.advance(SourceEvent::RecordFailed).unwrap();
    assert_eq!(state, SourceState::RecordedAsZero);
}

#[test]
fn events_out_of_turn_are_refused() {
    assert_eq!(SourceState::Pending.advance(SourceEvent::RecordSucceeded), None);
    assert_eq!(SourceState::Pending.advance(SourceEvent::EvaluationDone), None);
    assert_eq!(SourceState::Fetched(1).advance(SourceEvent::FetchFailed), None);
    assert_eq!(SourceState::Recorded(1).advance(SourceEvent::RecordSucceeded), None);
    assert_eq!(SourceState::Evaluated(1).advance(SourceEvent::EvaluationDone), None);
    assert_eq!(
        SourceState::Evaluated(1).advance(SourceEvent::FetchSucceeded(2)),
        None
    );
}

#[test]
fn unavailable_reading_counts_zero() {
    assert_eq!(Reading::Value(17).progress(), Some(17));
    assert_eq!(Reading::Value(-4).progress(), Some(-4));
    assert_eq!(Reading::Unavailable.progress(), Some(0));
    assert_eq!(Reading::Value(17).fault(), None);
    assert_eq!(Reading::Unavailable.fault(), None);
    assert_eq!(Reading::Value(17).event(), SourceEvent::FetchSucceeded(17));
    assert_eq!(Reading::Unavailable.event(), SourceEvent::FetchFailed);
}

#[test]
fn missing_setting_stands_for_no_progress() {
    let reading = Reading::NotConfigured(String::from("CATICS_TOKEN_ADDRESS"));
    assert_eq!(reading.progress(), None);
    assert_eq!(
        reading.fault(),
        Some(AppError::Internal(String::from("CATICS_TOKEN_ADDRESS not set")))
    );
    assert_eq!(reading.event(), SourceEvent::NotConfigured);
}

#[test]
fn missing_setting_ends_the_source() {
    let state = SourceState::Pending.advance(SourceEvent::NotConfigured).unwrap();
    assert_eq!(state, SourceState::NotConfigured);
    assert_eq!(state.next_action(), SourceAction::Fail);
    assert!(!state.is_finished());
    assert_eq!(state.advance(SourceEvent::RecordSucceeded), None);
    assert_eq!(state.advance(SourceEvent::EvaluationDone), None);
    assert_eq!(state.advance(SourceEvent::FetchSucceeded(1)), None);
    assert_eq!(state.advance(SourceEvent::NotConfigured), None);
    assert_eq!(SourceState::Fetched(1).advance(SourceEvent::NotConfigured), None);
    assert_eq!(SourceState::FetchFailed.advance(SourceEvent::NotConfigured), None);
    assert_eq!(SourceState::Recorded(1).advance(SourceEvent::NotConfigured), None);
}

#[test]
fn sync_with_a_missing_setting_fails_and_changes_nothing() {
    let rules = sync_rules();
    let mut counters = ProgressionCounters::new();
    let mut awards = BadgeAwards::new();
    counters.record_progression_event(1, ProgressionEventType::CaticsBalanceCheck, 77);
    let readings = SourceReadings {
        catics_balance: Reading::NotConfigured(String::from("CATICS_TOKEN_ADDRESS")),
        jup_staked: Reading::Value(50),
        referral_count: Reading::Value(5),
    };
    let result = sync_all_progressions(&mut counters, &mut awards, &rules, 1, &readings, 1000);
    assert_eq!(
        result,
        Err(AppError::Internal(String::from("CATICS_TOKEN_ADDRESS not set")))
    );
    assert_eq!(awards.len(), 0);
    assert_eq!(
        counters.get_user_progression(1, ProgressionEventType::CaticsBalanceCheck),
        77
    );
    assert_eq!(
        counters.get_user_progression(1, ProgressionEventType::BetaApplicantCreated),
        0
    );
    assert_eq!(counters.get_user_progression(1, ProgressionEventType::JupStaked), 0);
}

#[test]
fn first_missing_setting_is_the_one_reported() {
    let rules = sync_rules();
    let mut counters = ProgressionCounters::new();
    let mut awards = BadgeAwards::new();
    let readings = SourceReadings {
        catics_balance: Reading::Unavailable,
        jup_staked: Reading::NotConfigured(String::from("JUP_TOKEN_ADDRESS")),
        referral_count: Reading::NotConfigured(String::from("OTHER")),
    };
    assert_eq!(
        readings.fault(),
        Some(AppError::Internal(String::from("JUP_TOKEN_ADDRESS not set")))
    );
    let result = sync_all_progressions(&mut counters, &mut awards, &rules, 1, &readings, 1000);
    assert_eq!(
        result,
        Err(AppError::Internal(String::from("JUP_TOKEN_ADDRESS not set")))
    );
    assert_eq!(awards.len(), 0);
    let both = SourceReadings {
        catics_balance: Reading::NotConfigured(String::from("CATICS_TOKEN_ADDRESS")),
        jup_staked: Reading::NotConfigured(String::from("JUP_TOKEN_ADDRESS")),
        referral_count: Reading::Value(0),
    };
    assert_eq!(
        both.fault(),
        Some(AppError::Internal(String::from("CATICS_TOKEN_ADDRESS not set")))
    );
}

#[test]
fn sync_records_and_evaluates_all_four_sources() {
    let rules = sync_rules();
    let mut counters = ProgressionCounters::new();
    let mut awards = BadgeAwards::new();
    let readings = SourceReadings {
        catics_balance: Reading::Value(150),
        jup_staked: Reading::Value(5),
        referral_count: Reading::Value(2),
    };
    let report = sync_all_progressions(&mut counters, &mut awards, &rules, 1, &readings, 1000)
        .unwrap();
    assert_eq!(report.registration, 1);
    assert_eq!(report.catics_balance, 150);
    assert_eq!(report.jup_staked, 5);
    assert_eq!(report.referral_count, 2);
    assert!(!report.catics_failed && !report.jup_failed && !report.referral_failed);
    assert_eq!(report.granted, vec![1, 2, 4]);
    assert_eq!(
        counters.get_user_progression(1, ProgressionEventType::BetaApplicantCreated),
        1
    );
    assert_eq!(
        counters.get_user_progression(1, ProgressionEventType::CaticsBalanceCheck),
        150
    );
    assert_eq!(counters.get_user_progression(1, ProgressionEventType::JupStaked), 5);
    assert_eq!(
        counters.get_user_progression(1, ProgressionEventType::ReferralCreated),
        2
    );
    assert_eq!(awards.len(), 3);
    assert!(!awards.is_awarded(1, 3));
    assert_eq!(awards.awarded_at(1, 2), Some(1000));
}

#[test]
fn sync_with_failing_balance_source_still_handles_the_others() {
    let rules = sync_rules();
    let mut counters = ProgressionCounters::new();
    let mut awards = BadgeAwards::new();
    let readings = SourceReadings {
        catics_balance: Reading::Unavailable,
        jup_staked: Reading::Value(10),
        referral_count: Reading::Value(3),
    };
    let report = sync_all_progressions(&mut counters, &mut awards, &rules, 1, &readings, 1000)
        .unwrap();
    assert!(report.catics_failed);
    assert!(!report.jup_failed);
    assert!(!report.referral_failed);
    assert_eq!(report.catics_balance, 0);
    assert_eq!(report.granted, vec![1, 3, 4]);
    assert!(awards.is_awarded(1, 1));
    assert!(!awards.is_awarded(1, 2));
    assert!(awards.is_awarded(1, 3));
    assert!(awards.is_awarded(1, 4));
    assert_eq!(
        counters.get_user_progression(1, ProgressionEventType::BetaApplicantCreated),
        1
    );
    assert_eq!(
        counters.get_user_progression(1, ProgressionEventType::ReferralCreated),
        3
    );
    assert_eq!(
        counters.get_user_progression(1, ProgressionEventType::CaticsBalanceCheck),
        0
    );
}

#[test]
fn sync_with_all_outside_sources_failing_completes() {
    let rules = sync_rules();
    let mut counters = ProgressionCounters::new();
    let mut awards = BadgeAwards::new();
    let readings = SourceReadings {
        catics_balance: Reading::Unavailable,
        jup_staked: Reading::Unavailable,
        referral_count: Reading::Unavailable,
    };
    let report = sync_all_progressions(&mut counters, &mut awards, &rules, 1, &readings, 1)
        .unwrap();
    assert!(report.catics_failed && report.jup_failed && report.referral_failed);
    assert_eq!(report.granted, vec![1]);
    assert_eq!(awards.len(), 1);
}

#[test]
fn sync_is_convergent_when_repeated() {
    let rules = sync_rules();
    let mut counters = ProgressionCounters::new();
    let mut awards = BadgeAwards::new();
    let readings = SourceReadings {
        catics_balance: Reading::Value(150),
        jup_staked: Reading::Value(50),
        referral_count: Reading::Value(0),
    };
    let first = sync_all_progressions(&mut counters, &mut awards, &rules, 1, &readings, 10)
        .unwrap();
    assert_eq!(first.granted, vec![1, 2, 3]);
    let lower = SourceReadings {
        catics_balance: Reading::Value(3),
        jup_staked: Reading::Value(50),
        referral_count: Reading::Value(0),
    };
    let second = sync_all_progressions(&mut counters, &mut awards, &rules, 1, &lower, 20)
        .unwrap();
    assert_eq!(second.granted, Vec::<i32>::new());
    assert_eq!(awards.len(), 3);
    assert_eq!(awards.awarded_at(1, 2), Some(10));
    assert_eq!(
        counters.get_user_progression(1, ProgressionEventType::CaticsBalanceCheck),
        3
    );
}
