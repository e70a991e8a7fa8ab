use vstd::prelude::*;

verus! {

/// A rule of the badge configuration as it is read for display: the kind of
/// event by its name and the operation by its code.
#[derive(Debug)]
pub struct BadgeRequirement {
    pub badge_id: i32,
    pub progression_event_type: String,
    pub operation: String,
    pub required_count: i32,
}

#[derive(Debug, Clone)]
pub struct BadgeRequirementDto {
    pub badge_id: i32,
    pub progression_event_type: String,
    pub operation: String,
    pub required_count: i32,
}

impl From<BadgeRequirement> for BadgeRequirementDto {
    fn from(requirement: BadgeRequirement) -> (dto: BadgeRequirementDto) {
        BadgeRequirementDto {
            badge_id: requirement.badge_id,
            progression_event_type: requirement.progression_event_type,
            operation: requirement.operation,
            required_count: requirement.required_count,
        }
    }
}

impl vstd::std_specs::convert::FromSpecImpl<BadgeRequirement> for BadgeRequirementDto {
    open spec fn obeys_from_spec() -> bool {
        true
    }

    open spec fn from_spec(requirement: BadgeRequirement) -> BadgeRequirementDto {
        BadgeRequirementDto {
            badge_id: requirement.badge_id,
            progression_event_type: requirement.progression_event_type,
            operation: requirement.operation,
            required_count: requirement.required_count,
        }
    }
}

} // verus!
