use std::collections::HashMap;
use vstd::prelude::*;
use crate::entities::badge::BadgeDto;
use crate::entities::badge_group::BadgeGroup;
use crate::entities::badge_requirement::BadgeRequirementDto;
use crate::entities::user_progression::UserProgressionDto;

verus! {

broadcast use vstd::std_specs::hash::group_hash_axioms;

/// A badge as it is shown: with the rule that grants it.
#[derive(Debug)]
pub struct BadgeResponse {
    pub id: i32,
    pub title: String,
    pub description: String,
    pub score: i32,
    pub is_unlocked: bool,
    pub unlocked_at: Option<i64>,
    pub badge_group_id: i32,
    pub progression_event_type: String,
    pub operation: String,
    pub required_count: i32,
}

/// A badge group as it is shown.
#[derive(Debug)]
pub struct BadgeGroupResponse {
    pub id: i32,
    pub title: String,
    pub description: String,
}

/// A counter as it is shown.
#[derive(Debug)]
pub struct UserProgressionResponse {
    pub progression_event_type: String,
    pub current_progress: i32,
}

/// All that the badge page shows.
#[derive(Debug)]
pub struct GetBadgesResponse {
    pub badges: Vec<BadgeResponse>,
    pub badge_groups: Vec<BadgeGroupResponse>,
    pub user_progressions: Vec<UserProgressionResponse>,
}

/// The place of the rule that is shown for `badge_id`: the last one for that
/// badge, if there is any.
pub open spec fn shown_requirement(requirements: Seq<BadgeRequirementDto>, badge_id: i32) -> Option<
    int,
>
    decreases requirements.len(),
{
    if requirements.len() == 0 {
        None
    } else if requirements.last().badge_id == badge_id {
        Some(requirements.len() - 1)
    } else {
        shown_requirement(requirements.drop_last(), badge_id)
    }
}

/// Whether `shown` is `badge` with the rule that is shown for it; a badge
/// without a rule is shown with empty texts and the count 0.
pub open spec fn is_response_of(
    shown: BadgeResponse,
    badge: BadgeDto,
    requirements: Seq<BadgeRequirementDto>,
) -> bool {
    &&& shown.id == badge.id
    &&& shown.title@ == badge.title@
    &&& shown.description@ == badge.description@
    &&& shown.score == badge.score
    &&& shown.is_unlocked == badge.is_unlocked
    &&& shown.unlocked_at == badge.unlocked_at
    &&& shown.badge_group_id == badge.badge_group_id
    &&& match shown_requirement(requirements, badge.id) {
        Some(at) => {
            &&& 0 <= at < requirements.len()
            &&& shown.progression_event_type@ == requirements[at].progression_event_type@
            &&& shown.operation@ == requirements[at].operation@
            &&& shown.required_count == requirements[at].required_count
        },
        None => {
            &&& shown.progression_event_type@ == Seq::<char>::empty()
            &&& shown.operation@ == Seq::<char>::empty()
            &&& shown.required_count == 0
        },
    }
}

/// The place of the rule that is shown for a badge is a place among the
/// rules, and the rule there is one of that badge.
pub proof fn lemma_shown_requirement(requirements: Seq<BadgeRequirementDto>, badge_id: i32)
    ensures
        shown_requirement(requirements, badge_id) matches Some(at) ==> 0 <= at
            < requirements.len() && requirements[at].badge_id == badge_id,
    decreases requirements.len(),
{
    if requirements.len() > 0 && requirements.last().badge_id != badge_id {
        lemma_shown_requirement(requirements.drop_last(), badge_id);
    }
}

/// Whether `by_badge` gives, for every badge, the place of the rule that is
/// shown for it among `requirements`.
spec fn maps_shown_requirements(
    by_badge: Map<i32, usize>,
    requirements: Seq<BadgeRequirementDto>,
) -> bool {
    forall|badge_id: i32|
        match #[trigger] shown_requirement(requirements, badge_id) {
            Some(at) => by_badge.contains_key(badge_id) && by_badge[badge_id] == at,
            None => !by_badge.contains_key(badge_id),
        }
}

fn index_requirements(requirements: &Vec<BadgeRequirementDto>) -> (by_badge: HashMap<i32, usize>)
    ensures
        maps_shown_requirements(by_badge@, requirements@),
{
    let mut by_badge: HashMap<i32, usize> = HashMap::new();
    let mut r: usize = 0;
    while r < requirements.len()
        invariant
            r <= requirements.len(),
            maps_shown_requirements(by_badge@, requirements@.take(r as int)),
        decreases requirements.len() - r,
    {
        let ghost before = by_badge@;
        by_badge.insert(requirements[r].badge_id, r);
        proof {
            let shorter = requirements@.take(r as int);
            let longer = requirements@.take(r + 1);
            assert(longer.drop_last() == shorter);
            assert(longer.last() == requirements@[r as int]);
            assert forall|badge_id: i32|
                match #[trigger] shown_requirement(longer, badge_id) {
                    Some(at) => by_badge@.contains_key(badge_id) && by_badge@[badge_id] == at,
                    None => !by_badge@.contains_key(badge_id),
                } by {
                if requirements@[r as int].badge_id != badge_id {
                    assert(shown_requirement(longer, badge_id) == shown_requirement(
                        shorter,
                        badge_id,
                    ));
                }
            }
        }
        r = r + 1;
    }
    assert(requirements@.take(r as int) == requirements@);
    by_badge
}

/// Shows every badge with the rule that grants it, in the order of the
/// badges.
pub fn assemble_badge_responses(
    badge_dtos: Vec<BadgeDto>,
    requirement_dtos: Vec<BadgeRequirementDto>,
) -> (responses: Vec<BadgeResponse>)
    ensures
        responses@.len() == badge_dtos@.len(),
        forall|k: int|
            0 <= k < responses@.len() ==> is_response_of(
                #[trigger] responses@[k],
                badge_dtos@[k],
                requirement_dtos@,
            ),
{
    let requirements_map = index_requirements(&requirement_dtos);
    let mut responses: Vec<BadgeResponse> = Vec::new();
    let mut k: usize = 0;
    while k < badge_dtos.len()
        invariant
            k <= badge_dtos.len(),
            responses@.len() == k,
            maps_shown_requirements(requirements_map@, requirement_dtos@),
            forall|m: int|
                0 <= m < k ==> is_response_of(
                    #[trigger] responses@[m],
                    badge_dtos@[m],
                    requirement_dtos@,
                ),
        decreases badge_dtos.len() - k,
    {
        let badge = &badge_dtos[k];
        proof {
            lemma_shown_requirement(requirement_dtos@, badge.id);
            assert(match shown_requirement(requirement_dtos@, badge.id) {
                Some(at) => requirements_map@.contains_key(badge.id) && requirements_map@[badge.id]
                    == at,
                None => !requirements_map@.contains_key(badge.id),
            });
        }
        let (progression_event_type, operation, required_count) = match requirements_map.get(
            &badge.id,
        ) {
            Some(at) => (
                requirement_dtos[*at].progression_event_type.clone(),
                requirement_dtos[*at].operation.clone(),
                requirement_dtos[*at].required_count,
            ),
            None => (String::new(), String::new(), 0),
        };
        responses.push(
            BadgeResponse {
                id: badge.id,
                title: badge.title.clone(),
                description: badge.description.clone(),
                score: badge.score,
                is_unlocked: badge.is_unlocked,
                unlocked_at: badge.unlocked_at,
                badge_group_id: badge.badge_group_id,
                progression_event_type,
                operation,
                required_count,
            },
        );
        k = k + 1;
    }
    responses
}

impl BadgeGroupResponse {
    /// Shows a badge group.
    pub fn from_group(badge_group: BadgeGroup) -> (shown: BadgeGroupResponse)
        ensures
            shown.id == badge_group.id,
            shown.title@ == badge_group.title@,
            shown.description@ == badge_group.description@,
    {
        BadgeGroupResponse {
            id: badge_group.id,
            title: badge_group.title,
            description: badge_group.description,
        }
    }
}

impl UserProgressionResponse {
    /// Shows a counter.
    pub fn from_dto(progression: UserProgressionDto) -> (shown: UserProgressionResponse)
        ensures
            shown.progression_event_type@ == progression.progression_event_type@,
            shown.current_progress == progression.current_progress,
    {
        UserProgressionResponse {
            progression_event_type: progression.progression_event_type,
            current_progress: progression.current_progress,
        }
    }
}

} // verus!
