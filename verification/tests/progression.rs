use catalytics_core::adapters::persistence::beta_applicant_progression::{
    merge_user_progressions, read_user_progressions, ProgressionEventTypeDb, UserProgressDb,
};
use catalytics_core::entities::progression_event_type::ProgressionEventType;
use catalytics_core::entities::user_progression::{UserProgression, UserProgressionDto};
use catalytics_core::use_cases::progression::ProgressionCounters;

#[test]
fn unrecorded_progress_reads_zero() {
    let counters = ProgressionCounters::new();
    assert_eq!(
        counters.get_user_progression(1, ProgressionEventType::JupStaked),
        0
    );
}

#[test]
fn recording_replaces_and_may_decrease() {
    let mut counters = ProgressionCounters::new();
    let kind = ProgressionEventType::CaticsBalanceCheck;
    counters.record_progression_event(1, kind, 150);
    assert_eq!(counters.get_user_progression(1, kind), 150);
    counters.record_progression_event(1, kind, 20);
    assert_eq!(counters.get_user_progression(1, kind), 20);
    counters.record_progression_event(1, kind, 20);
    assert_eq!(counters.get_user_progression(1, kind), 20);
    counters.record_progression_event(1, kind, -3);
    assert_eq!(counters.get_user_progression(1, kind), -3);
}

#[test]
fn counters_are_kept_apart_by_user_and_kind() {
    let mut counters = ProgressionCounters::new();
    counters.record_progression_event(1, ProgressionEventType::CaticsBalanceCheck, 5);
    counters.record_progression_event(1, ProgressionEventType::JupStaked, 6);
    counters.record_progression_event(2, ProgressionEventType::CaticsBalanceCheck, 7);
    assert_eq!(
        counters.get_user_progression(1, ProgressionEventType::CaticsBalanceCheck),
        5
    );
    assert_eq!(counters.get_user_progression(1, ProgressionEventType::JupStaked), 6);
    assert_eq!(
        counters.get_user_progression(2, ProgressionEventType::CaticsBalanceCheck),
        7
    );
    assert_eq!(counters.get_user_progression(2, ProgressionEventType::JupStaked), 0);
}

fn kinds() -> Vec<ProgressionEventTypeDb> {
    vec![
        ProgressionEventTypeDb { id: 1, event_type: String::from("BETA_APPLICANT_CREATED") },
        ProgressionEventTypeDb { id: 2, event_type: String::from("CATICS_BALANCE_CHECK") },
        ProgressionEventTypeDb { id: 5, event_type: String::from("JUP_STAKED") },
        ProgressionEventTypeDb { id: 42, event_type: String::from("UNKNOWN") },
    ]
}

#[test]
fn every_kind_is_listed_with_its_progress() {
    let rows = vec![
        UserProgressDb { event_type: String::from("JUP_STAKED"), progress_count: 12 },
        UserProgressDb { event_type: String::from("BETA_APPLICANT_CREATED"), progress_count: 1 },
        UserProgressDb { event_type: String::from("JUP_STAKED"), progress_count: 30 },
    ];
    let merged = merge_user_progressions(&kinds(), &rows);
    let listed: Vec<(String, i32)> = merged
        .into_iter()
        .map(|p| (p.progression_event_type, p.current_progress))
        .collect();
    assert_eq!(
        listed,
        vec![
            (String::from("BETA_APPLICANT_CREATED"), 1),
            (String::from("CATICS_BALANCE_CHECK"), 0),
            (String::from("JUP_STAKED"), 30),
            (String::from("UNKNOWN"), 0),
        ]
    );
}

#[test]
fn counters_are_listed_by_kind() {
    let mut counters = ProgressionCounters::new();
    counters.record_progression_event(4, ProgressionEventType::JupStaked, 9);
    counters.record_progression_event(4, ProgressionEventType::BetaApplicantCreated, 1);
    counters.record_progression_event(5, ProgressionEventType::CaticsBalanceCheck, 77);
    let listed: Vec<(String, i32)> = read_user_progressions(&counters, 4, &kinds())
        .into_iter()
        .map(|p| (p.progression_event_type, p.current_progress))
        .collect();
    assert_eq!(
        listed,
        vec![
            (String::from("BETA_APPLICANT_CREATED"), 1),
            (String::from("CATICS_BALANCE_CHECK"), 0),
            (String::from("JUP_STAKED"), 9),
            (String::from("UNKNOWN"), 0),
        ]
    );
}

#[test]
fn progression_dto_keeps_the_fields() {
    let dto = UserProgressionDto::from(UserProgression {
        progression_event_type: String::from("JUP_STAKED"),
        current_progress: 3,
    });
    assert_eq!(dto.progression_event_type, "JUP_STAKED");
    assert_eq!(dto.current_progress, 3);
}
