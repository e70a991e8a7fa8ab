use std::collections::HashMap;
use vstd::prelude::*;
use crate::adapters::persistence::beta_applicant_badge::BetaApplicantBadgeDb;
use crate::app_error::AppResult;
use crate::entities::badge::Badge;

verus! {

broadcast use vstd::std_specs::hash::group_hash_axioms;

/// A badge of the catalogue as it is stored.
#[derive(Debug)]
pub struct BadgeDb {
    pub id: i32,
    pub title: String,
    pub description: String,
    pub score: i32,
    pub created_at: i64,
}

/// The group of each badge by the pairs of badge and group; of two pairs for
/// one badge the later one counts.
pub open spec fn group_by_badge(badge_groups: Seq<(i32, i32)>) -> Map<i32, i32>
    decreases badge_groups.len(),
{
    if badge_groups.len() == 0 {
        Map::empty()
    } else {
        group_by_badge(badge_groups.drop_last()).insert(
            badge_groups.last().0,
            badge_groups.last().1,
        )
    }
}

/// The time of the grant of each badge that was earned; of two grants of one
/// badge the later row counts.
pub open spec fn grant_by_badge(badges_earned: Seq<BetaApplicantBadgeDb>) -> Map<i32, i64>
    decreases badges_earned.len(),
{
    if badges_earned.len() == 0 {
        Map::empty()
    } else {
        grant_by_badge(badges_earned.drop_last()).insert(
            badges_earned.last().badge_id,
            badges_earned.last().created_at,
        )
    }
}

/// Whether `badge` is the stored `row` as its holder sees it: unlocked
/// exactly if a grant is known, at the time of that grant, and in the group
/// that is known for it, or in group 0 where none is.
pub open spec fn is_badge_of(
    badge: Badge,
    row: BadgeDb,
    groups: Map<i32, i32>,
    grants: Map<i32, i64>,
) -> bool {
    &&& badge.id == row.id
    &&& badge.title@ == row.title@
    &&& badge.description@ == row.description@
    &&& badge.score == row.score
    &&& badge.created_at == row.created_at
    &&& badge.is_unlocked == grants.contains_key(row.id)
    &&& badge.unlocked_at == if grants.contains_key(row.id) {
        Some(grants[row.id])
    } else {
        None
    }
    &&& badge.badge_group_id == if groups.contains_key(row.id) {
        groups[row.id]
    } else {
        0
    }
}

/// Puts the catalogue together with the groups of the badges and with what
/// one applicant has earned, one badge for each stored badge and in order.
pub fn convert_to_badges(
    badges: Vec<BadgeDb>,
    badge_groups: Vec<(i32, i32)>,
    badges_earned: Vec<BetaApplicantBadgeDb>,
) -> (result: AppResult<Vec<Badge>>)
    ensures
        result matches Ok(shown) && shown@.len() == badges@.len() && forall|i: int|
            0 <= i < shown@.len() ==> is_badge_of(
                #[trigger] shown@[i],
                badges@[i],
                group_by_badge(badge_groups@),
                grant_by_badge(badges_earned@),
            ),
{
    let mut group_map: HashMap<i32, i32> = HashMap::new();
    let mut g: usize = 0;
    while g < badge_groups.len()
        invariant
            g <= badge_groups.len(),
            group_map@ == group_by_badge(badge_groups@.take(g as int)),
        decreases badge_groups.len() - g,
    {
        assert(badge_groups@.take(g + 1).drop_last() == badge_groups@.take(g as int));
        group_map.insert(badge_groups[g].0, badge_groups[g].1);
        g = g + 1;
    }
    assert(badge_groups@.take(g as int) == badge_groups@);
    let mut earned_map: HashMap<i32, i64> = HashMap::new();
    let mut e: usize = 0;
    while e < badges_earned.len()
        invariant
            e <= badges_earned.len(),
            earned_map@ == grant_by_badge(badges_earned@.take(e as int)),
        decreases badges_earned.len() - e,
    {
        assert(badges_earned@.take(e + 1).drop_last() == badges_earned@.take(e as int));
        earned_map.insert(badges_earned[e].badge_id, badges_earned[e].created_at);
        e = e + 1;
    }
    assert(badges_earned@.take(e as int) == badges_earned@);
    let mut shown: Vec<Badge> = Vec::new();
    let mut i: usize = 0;
    while i < badges.len()
        invariant
            i <= badges.len(),
            shown@.len() == i,
            group_map@ == group_by_badge(badge_groups@),
            earned_map@ == grant_by_badge(badges_earned@),
            forall|k: int|
                0 <= k < i ==> is_badge_of(
                    #[trigger] shown@[k],
                    badges@[k],
                    group_by_badge(badge_groups@),
                    grant_by_badge(badges_earned@),
                ),
        decreases badges.len() - i,
    {
        let row = &badges[i];
        let unlocked_at = match earned_map.get(&row.id) {
            Some(at) => Some(*at),
            None => None,
        };
        let badge_group_id = match group_map.get(&row.id) {
            Some(group) => *group,
            None => 0,
        };
        shown.push(
            Badge {
                id: row.id,
                title: row.title.clone(),
                description: row.description.clone(),
                score: row.score,
                is_unlocked: unlocked_at.is_some(),
                unlocked_at,
                created_at: row.created_at,
                badge_group_id,
            },
        );
        i = i + 1;
    }
    Ok(shown)
}

} // verus!
