use catalytics_core::entities::progression_event_type::ProgressionEventType;
use catalytics_core::use_cases::badge::{
    eligible_badges, score_of, BadgeAwards, BadgeCondition, BadgeOperation, BadgeScore,
};

fn rules() -> Vec<BadgeCondition> {
    vec![
        BadgeCondition {
            badge_id: 1,
            event_type: ProgressionEventType::BetaApplicantCreated,
            operation: BadgeOperation::Equals,
            required_count: 1,
        },
        BadgeCondition {
            badge_id: 2,
            event_type: ProgressionEventType::CaticsBalanceCheck,
            operation: BadgeOperation::GreaterOrEqual,
            required_count: 100,
        },
        BadgeCondition {
            badge_id: 3,
            event_type: ProgressionEventType::CaticsBalanceCheck,
            operation: BadgeOperation::GreaterOrEqual,
            required_count: 1000,
        },
        BadgeCondition {
            badge_id: 4,
            event_type: ProgressionEventType::ReferralCreated,
            operation: BadgeOperation::Equals,
            required_count: 3,
        },
    ]
}

#[test]
fn equals_awards_only_on_the_exact_count() {
    let rules = rules();
    let kind = ProgressionEventType::ReferralCreated;
    assert_eq!(eligible_badges(&rules, kind, 2), Vec::<i32>::new());
    assert_eq!(eligible_badges(&rules, kind, 3), vec![4]);
    assert_eq!(eligible_badges(&rules, kind, 4), Vec::<i32>::new());
}

#[test]
fn greater_or_equal_awards_from_the_threshold_on() {
    let rules = rules();
    let kind = ProgressionEventType::CaticsBalanceCheck;
    assert_eq!(eligible_badges(&rules, kind, 99), Vec::<i32>::new());
    assert_eq!(eligible_badges(&rules, kind, 100), vec![2]);
    assert_eq!(eligible_badges(&rules, kind, 150), vec![2]);
    assert_eq!(eligible_badges(&rules, kind, 1000), vec![2, 3]);
    assert_eq!(eligible_badges(&rules, kind, i32::MAX), vec![2, 3]);
    assert_eq!(eligible_badges(&rules, kind, -5), Vec::<i32>::new());
}

#[test]
fn rules_of_another_kind_do_not_apply() {
    let rules = rules();
    assert_eq!(
        eligible_badges(&rules, ProgressionEventType::JupStaked, 1000),
        Vec::<i32>::new()
    );
    assert_eq!(
        eligible_badges(&Vec::new(), ProgressionEventType::JupStaked, 1),
        Vec::<i32>::new()
    );
}

#[test]
fn single_rule_checks() {
    let rule = rules()[1];
    assert!(rule.check(ProgressionEventType::CaticsBalanceCheck, 100));
    assert!(!rule.check(ProgressionEventType::CaticsBalanceCheck, 99));
    assert!(!rule.check(ProgressionEventType::JupStaked, 100));
}

#[test]
fn repeated_evaluation_awards_once() {
    let rules = rules();
    let kind = ProgressionEventType::CaticsBalanceCheck;
    let mut awards = BadgeAwards::new();
    assert_eq!(awards.award_badge_if_eligible(&rules, 7, kind, 150, 10), vec![2]);
    assert_eq!(awards.len(), 1);
    assert_eq!(
        awards.award_badge_if_eligible(&rules, 7, kind, 150, 20),
        Vec::<i32>::new()
    );
    assert_eq!(awards.len(), 1);
    assert_eq!(awards.award_badge_if_eligible(&rules, 7, kind, 2000, 30), vec![3]);
    assert_eq!(awards.len(), 2);
    assert_eq!(awards.awarded_at(7, 2), Some(10));
    assert_eq!(awards.awarded_at(7, 3), Some(30));
}

#[test]
fn award_is_kept_when_progress_drops() {
    let rules = rules();
    let kind = ProgressionEventType::CaticsBalanceCheck;
    let mut awards = BadgeAwards::new();
    awards.award_badge_if_eligible(&rules, 7, kind, 150, 10);
    assert!(awards.is_awarded(7, 2));
    assert_eq!(
        awards.award_badge_if_eligible(&rules, 7, kind, 5, 20),
        Vec::<i32>::new()
    );
    assert!(awards.is_awarded(7, 2));
    assert_eq!(awards.awarded_at(7, 2), Some(10));
    assert_eq!(awards.len(), 1);
}

#[test]
fn awards_are_per_user() {
    let rules = rules();
    let kind = ProgressionEventType::CaticsBalanceCheck;
    let mut awards = BadgeAwards::new();
    awards.award_badge_if_eligible(&rules, 7, kind, 150, 10);
    assert!(!awards.is_awarded(8, 2));
    assert_eq!(awards.awarded_at(8, 2), None);
    assert_eq!(awards.award_badge_if_eligible(&rules, 8, kind, 150, 11), vec![2]);
    assert_eq!(awards.len(), 2);
    assert_eq!(awards.awarded_at(8, 2), Some(11));
}

#[test]
fn two_rules_for_one_badge_give_one_row() {
    let rules = vec![
        BadgeCondition {
            badge_id: 9,
            event_type: ProgressionEventType::JupStaked,
            operation: BadgeOperation::GreaterOrEqual,
            required_count: 1,
        },
        BadgeCondition {
            badge_id: 9,
            event_type: ProgressionEventType::JupStaked,
            operation: BadgeOperation::Equals,
            required_count: 5,
        },
    ];
    assert_eq!(
        eligible_badges(&rules, ProgressionEventType::JupStaked, 5),
        vec![9, 9]
    );
    let mut awards = BadgeAwards::new();
    assert_eq!(
        awards.award_badge_if_eligible(&rules, 1, ProgressionEventType::JupStaked, 5, 100),
        vec![9]
    );
    assert_eq!(awards.len(), 1);
}

#[test]
fn single_award_is_idempotent() {
    let mut awards = BadgeAwards::new();
    assert!(awards.award(1, 2, 50));
    assert!(!awards.award(1, 2, 60));
    assert_eq!(awards.awarded_at(1, 2), Some(50));
    assert_eq!(awards.award_all(1, &vec![2, 3, 3, 4], 70), vec![3, 4]);
    assert_eq!(awards.len(), 3);
}

#[test]
fn create_badge_looks_at_the_badge_only() {
    let rules = rules();
    let mut awards = BadgeAwards::new();
    assert!(awards.create_badge(&rules, 5, 1, 1, 100));
    assert!(!awards.create_badge(&rules, 5, 1, 1, 200));
    assert_eq!(awards.awarded_at(5, 1), Some(100));
    assert!(!awards.create_badge(&rules, 5, 2, 99, 100));
    assert!(!awards.is_awarded(5, 2));
    assert!(awards.create_badge(&rules, 5, 2, 100, 100));
    assert!(!awards.create_badge(&rules, 5, 77, 1, 100));
    assert_eq!(awards.len(), 2);
}

#[test]
fn operation_codes() {
    assert_eq!(BadgeOperation::parse("eq"), Some(BadgeOperation::Equals));
    assert_eq!(BadgeOperation::parse("gte"), Some(BadgeOperation::GreaterOrEqual));
    assert_eq!(BadgeOperation::parse("gt"), None);
    assert_eq!(BadgeOperation::parse(""), None);
    assert_eq!(BadgeOperation::parse("EQ"), None);
    assert_eq!(BadgeOperation::Equals.code(), "eq");
    assert_eq!(BadgeOperation::GreaterOrEqual.code(), "gte");
}

#[test]
fn rules_are_read_from_rows() {
    assert_eq!(
        BadgeCondition::from_row(2, 2, "gte", 100),
        Some(BadgeCondition {
            badge_id: 2,
            event_type: ProgressionEventType::CaticsBalanceCheck,
            operation: BadgeOperation::GreaterOrEqual,
            required_count: 100,
        })
    );
    assert_eq!(BadgeCondition::from_row(2, 9, "gte", 100), None);
    assert_eq!(BadgeCondition::from_row(2, 2, "lt", 100), None);
}

#[test]
fn total_score_sums_the_held_badges() {
    let scores = vec![
        BadgeScore { badge_id: 1, score: 10 },
        BadgeScore { badge_id: 2, score: 25 },
        BadgeScore { badge_id: 3, score: 100 },
        BadgeScore { badge_id: 2, score: 999 },
    ];
    assert_eq!(score_of(&scores, 2), 25);
    assert_eq!(score_of(&scores, 8), 0);
    let mut awards = BadgeAwards::new();
    assert_eq!(awards.total_score(&scores, 1), 0);
    awards.award(1, 1, 5);
    awards.award(1, 3, 6);
    awards.award(2, 2, 7);
    awards.award(1, 8, 8);
    assert_eq!(awards.total_score(&scores, 1), 110);
    assert_eq!(awards.total_score(&scores, 2), 25);
    assert_eq!(awards.total_score(&scores, 3), 0);
}

#[test]
fn total_score_stays_in_range() {
    let scores = vec![
        BadgeScore { badge_id: 1, score: i32::MAX },
        BadgeScore { badge_id: 2, score: i32::MAX },
        BadgeScore { badge_id: 3, score: i32::MIN },
        BadgeScore { badge_id: 4, score: i32::MIN },
    ];
    let mut awards = BadgeAwards::new();
    awards.award(1, 1, 0);
    awards.award(1, 2, 0);
    assert_eq!(awards.total_score(&scores, 1), i32::MAX);
    awards.award(2, 3, 0);
    awards.award(2, 4, 0);
    assert_eq!(awards.total_score(&scores, 2), i32::MIN);
    awards.award(1, 3, 0);
    assert_eq!(awards.total_score(&scores, 1), i32::MAX - 1);
}

#[test]
fn grants_are_listed_per_user_in_order() {
    let mut awards = BadgeAwards::new();
    awards.award(1, 5, 10);
    awards.award(2, 5, 11);
    awards.award(1, 3, 12);
    let held: Vec<(i32, i64)> = awards
        .awards_of(1)
        .into_iter()
        .map(|a| (a.badge_id, a.awarded_at))
        .collect();
    assert_eq!(held, vec![(5, 10), (3, 12)]);
    assert!(awards.awards_of(9).is_empty());
}
