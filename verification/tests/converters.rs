use catalytics_core::adapters::http::app_error_impl::error_response;
use catalytics_core::adapters::http::routes::badge::{
    assemble_badge_responses, BadgeGroupResponse, UserProgressionResponse,
};
use catalytics_core::adapters::persistence::badge::{convert_to_badges, BadgeDb};
use catalytics_core::adapters::persistence::badge_group::{convert_to_badge_groups, BadgeGroupDb};
use catalytics_core::adapters::persistence::beta_applicant_badge::BetaApplicantBadgeDb;
use catalytics_core::adapters::persistence::cat::{convert_to_cats, CatDb, CatLevelDb};
use catalytics_core::adapters::persistence::store_error::{
    insert_recovery, store_error, InsertRecovery, StoreFailure,
};
use catalytics_core::app_error::AppError;
use catalytics_core::entities::badge::BadgeDto;
use catalytics_core::entities::badge_group::BadgeGroup;
use catalytics_core::entities::badge_requirement::{BadgeRequirement, BadgeRequirementDto};
use catalytics_core::entities::user_progression::UserProgressionDto;

fn stored_badge(id: i32, score: i32) -> BadgeDb {
    BadgeDb {
        id,
        title: format!("Badge {}", id),
        description: format!("Description {}", id),
        score,
        created_at: 1000 + id as i64,
    }
}

#[test]
fn badges_are_joined_with_groups_and_grants() {
    let badges = vec![stored_badge(1, 10), stored_badge(2, 20), stored_badge(3, 30)];
    let groups = vec![(1, 100), (2, 200), (1, 101)];
    let earned = vec![
        BetaApplicantBadgeDb { badge_id: 2, created_at: 555 },
        BetaApplicantBadgeDb { badge_id: 9, created_at: 1 },
    ];
    let shown = convert_to_badges(badges, groups, earned).unwrap();
    assert_eq!(shown.len(), 3);
    assert_eq!(shown[0].id, 1);
    assert_eq!(shown[0].title, "Badge 1");
    assert_eq!(shown[0].description, "Description 1");
    assert_eq!(shown[0].score, 10);
    assert_eq!(shown[0].created_at, 1001);
    assert!(!shown[0].is_unlocked);
    assert_eq!(shown[0].unlocked_at, None);
    assert_eq!(shown[0].badge_group_id, 101);
    assert!(shown[1].is_unlocked);
    assert_eq!(shown[1].unlocked_at, Some(555));
    assert_eq!(shown[1].badge_group_id, 200);
    assert!(!shown[2].is_unlocked);
    assert_eq!(shown[2].badge_group_id, 0);
    let dto = BadgeDto::from(shown.into_iter().nth(1).unwrap());
    assert_eq!(dto.id, 2);
    assert_eq!(dto.unlocked_at, Some(555));
    assert_eq!(dto.badge_group_id, 200);
}

#[test]
fn later_grant_row_counts() {
    let earned = vec![
        BetaApplicantBadgeDb { badge_id: 1, created_at: 5 },
        BetaApplicantBadgeDb { badge_id: 1, created_at: 9 },
    ];
    let shown = convert_to_badges(vec![stored_badge(1, 10)], Vec::new(), earned).unwrap();
    assert_eq!(shown[0].unlocked_at, Some(9));
    assert!(convert_to_badges(Vec::new(), vec![(1, 1)], Vec::new()).unwrap().is_empty());
}

#[test]
fn badge_groups_are_converted_in_order() {
    let rows = vec![
        BadgeGroupDb { id: 2, title: String::from("B"), description: String::from("b"), created_at: 20 },
        BadgeGroupDb { id: 1, title: String::from("A"), description: String::from("a"), created_at: 10 },
    ];
    let groups = convert_to_badge_groups(rows).unwrap();
    assert_eq!(groups.len(), 2);
    assert_eq!(groups[0].id, 2);
    assert_eq!(groups[0].title, "B");
    assert_eq!(groups[1].description, "a");
    assert_eq!(groups[1].created_at, 10);
    let shown = BadgeGroupResponse::from_group(BadgeGroup {
        id: 4,
        title: String::from("T"),
        description: String::from("D"),
        created_at: 1,
    });
    assert_eq!(shown.id, 4);
    assert_eq!(shown.title, "T");
    assert_eq!(shown.description, "D");
}

fn stored_level(cat_id: i32, level: i32, damage: i64) -> CatLevelDb {
    CatLevelDb {
        cat_id,
        level,
        damage,
        critical_chance: 5,
        critical_multiplier: 150,
        cost: 100 * level as i64,
    }
}

fn stored_cat(id: i32) -> CatDb {
    CatDb {
        id,
        name: format!("Cat {}", id),
        description: String::from("a cat"),
        sprite_idle: String::from("idle.png"),
        sprite_mining: String::from("mining.png"),
        is_starter: id == 1,
        created_at: 77,
    }
}

#[test]
fn cats_get_their_levels_in_level_order() {
    let levels = vec![
        stored_level(1, 3, 30),
        stored_level(2, 1, 11),
        stored_level(1, 1, 10),
        stored_level(1, 2, 20),
        stored_level(1, 2, 21),
        stored_level(9, 1, 99),
    ];
    let cats = convert_to_cats(vec![stored_cat(2), stored_cat(1), stored_cat(3)], levels).unwrap();
    assert_eq!(cats.len(), 3);
    assert_eq!(cats[0].id, 2);
    assert_eq!(cats[0].name, "Cat 2");
    assert!(!cats[0].is_starter);
    assert_eq!(cats[0].levels.len(), 1);
    assert_eq!(cats[0].levels[0].damage, 11);
    assert!(cats[1].is_starter);
    let seen: Vec<(i32, i64)> = cats[1].levels.iter().map(|l| (l.level, l.damage)).collect();
    assert_eq!(seen, vec![(1, 10), (2, 20), (2, 21), (3, 30)]);
    assert_eq!(cats[1].levels[3].cost, 300);
    assert_eq!(cats[1].levels[0].critical_multiplier, 150);
    assert!(cats[2].levels.is_empty());
    assert_eq!(cats[2].sprite_idle, "idle.png");
    assert_eq!(cats[2].created_at, 77);
}

#[test]
fn store_failures_become_errors() {
    assert_eq!(
        store_error(StoreFailure::RowNotFound, String::from("no rows returned")),
        AppError::NotFound(String::from("Resource not found"))
    );
    assert_eq!(
        store_error(StoreFailure::ConstraintViolation, String::from("duplicate key")),
        AppError::Database(String::from("duplicate key"))
    );
    assert_eq!(
        store_error(StoreFailure::Other, String::from("connection reset")),
        AppError::Database(String::from("connection reset"))
    );
    assert_eq!(
        insert_recovery(StoreFailure::ConstraintViolation),
        InsertRecovery::ReadExisting
    );
    assert_eq!(insert_recovery(StoreFailure::RowNotFound), InsertRecovery::Fail);
    assert_eq!(insert_recovery(StoreFailure::Other), InsertRecovery::Fail);
}

#[test]
fn error_message_is_the_text_of_the_error() {
    assert_eq!(AppError::not_found().message(), "Resource not found");
    assert_eq!(AppError::Database(String::from("d")).message(), "d");
    assert_eq!(AppError::Internal(String::from("i")).message(), "i");
    assert_eq!(AppError::Mailchimp(String::from("m")).message(), "m");
}

#[test]
fn errors_are_answered_without_their_inside() {
    let response = error_response(AppError::Database(String::from("password=hunter2")));
    assert_eq!(response.status, 500);
    assert_eq!(response.message, "Database exception");
    let response = error_response(AppError::Internal(String::from("stack")));
    assert_eq!(response.status, 500);
    assert_eq!(response.message, "Internal server error");
    let response = error_response(AppError::NotFound(String::from("Resource not found")));
    assert_eq!(response.status, 404);
    assert_eq!(response.message, "Resource not found");
    let response = error_response(AppError::Mailchimp(String::from("looks fake")));
    assert_eq!(response.status, 502);
    assert_eq!(response.message, "looks fake");
}

fn shown_badge(id: i32) -> BadgeDto {
    BadgeDto {
        id,
        title: format!("Badge {}", id),
        description: String::from("d"),
        score: 5,
        is_unlocked: id == 2,
        unlocked_at: if id == 2 { Some(9) } else { None },
        created_at: 1,
        badge_group_id: 3,
    }
}

#[test]
fn badges_are_shown_with_their_rules() {
    let requirements = vec![
        BadgeRequirementDto::from(BadgeRequirement {
            badge_id: 1,
            progression_event_type: String::from("BETA_APPLICANT_CREATED"),
            operation: String::from("eq"),
            required_count: 1,
        }),
        BadgeRequirementDto {
            badge_id: 2,
            progression_event_type: String::from("CATICS_BALANCE_CHECK"),
            operation: String::from("gte"),
            required_count: 100,
        },
        BadgeRequirementDto {
            badge_id: 1,
            progression_event_type: String::from("REFERRAL_CREATED"),
            operation: String::from("gte"),
            required_count: 3,
        },
    ];
    let responses =
        assemble_badge_responses(vec![shown_badge(2), shown_badge(1), shown_badge(7)], requirements);
    assert_eq!(responses.len(), 3);
    assert_eq!(responses[0].id, 2);
    assert_eq!(responses[0].title, "Badge 2");
    assert!(responses[0].is_unlocked);
    assert_eq!(responses[0].unlocked_at, Some(9));
    assert_eq!(responses[0].badge_group_id, 3);
    assert_eq!(responses[0].progression_event_type, "CATICS_BALANCE_CHECK");
    assert_eq!(responses[0].operation, "gte");
    assert_eq!(responses[0].required_count, 100);
    assert_eq!(responses[1].progression_event_type, "REFERRAL_CREATED");
    assert_eq!(responses[1].required_count, 3);
    assert_eq!(responses[2].progression_event_type, "");
    assert_eq!(responses[2].operation, "");
    assert_eq!(responses[2].required_count, 0);
    assert_eq!(responses[2].score, 5);
}

#[test]
fn counter_is_shown_as_it_is() {
    let shown = UserProgressionResponse::from_dto(UserProgressionDto {
        progression_event_type: String::from("JUP_STAKED"),
        current_progress: 12,
    });
    assert_eq!(shown.progression_event_type, "JUP_STAKED");
    assert_eq!(shown.current_progress, 12);
}
