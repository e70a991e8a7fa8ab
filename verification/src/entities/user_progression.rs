use vstd::prelude::*;

verus! {

/// The progress of one user for one kind of event, the kind by its name.
#[derive(Debug)]
pub struct UserProgression {
    pub progression_event_type: String,
    pub current_progress: i32,
}

#[derive(Debug, Clone)]
pub struct UserProgressionDto {
    pub progression_event_type: String,
    pub current_progress: i32,
}

impl From<UserProgression> for UserProgressionDto {
    fn from(progression: UserProgression) -> (dto: UserProgressionDto) {
        UserProgressionDto {
            progression_event_type: progression.progression_event_type,
            current_progress: progression.current_progress,
        }
    }
}

impl vstd::std_specs::convert::FromSpecImpl<UserProgression> for UserProgressionDto {
    open spec fn obeys_from_spec() -> bool {
        true
    }

    open spec fn from_spec(progression: UserProgression) -> UserProgressionDto {
        UserProgressionDto {
            progression_event_type: progression.progression_event_type,
            current_progress: progression.current_progress,
        }
    }
}

} // verus!
