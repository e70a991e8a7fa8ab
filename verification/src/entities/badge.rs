use vstd::prelude::*;

verus! {

/// A badge of the catalogue as one user sees it: with whether and when they
/// unlocked it, and the group it is shown in.
#[derive(Debug)]
pub struct Badge {
    pub id: i32,
    pub title: String,
    pub description: String,
    pub score: i32,
    pub is_unlocked: bool,
    pub unlocked_at: Option<i64>,
    pub created_at: i64,
    pub badge_group_id: i32,
}

#[derive(Debug, Clone)]
pub struct BadgeDto {
    pub id: i32,
    pub title: String,
    pub description: String,
    pub score: i32,
    pub is_unlocked: bool,
    pub unlocked_at: Option<i64>,
    pub created_at: i64,
    pub badge_group_id: i32,
}

impl From<Badge> for BadgeDto {
    fn from(badge: Badge) -> (dto: BadgeDto) {
        BadgeDto {
            id: badge.id,
            title: badge.title,
            description: badge.description,
            score: badge.score,
            is_unlocked: badge.is_unlocked,
            unlocked_at: badge.unlocked_at,
            created_at: badge.created_at,
            badge_group_id: badge.badge_group_id,
        }
    }
}

impl vstd::std_specs::convert::FromSpecImpl<Badge> for BadgeDto {
    open spec fn obeys_from_spec() -> bool {
        true
    }

    open spec fn from_spec(badge: Badge) -> BadgeDto {
        BadgeDto {
            id: badge.id,
            title: badge.title,
            description: badge.description,
            score: badge.score,
            is_unlocked: badge.is_unlocked,
            unlocked_at: badge.unlocked_at,
            created_at: badge.created_at,
            badge_group_id: badge.badge_group_id,
        }
    }
}

} // verus!
