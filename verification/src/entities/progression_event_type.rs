use vstd::prelude::*;

verus! {

/// The kinds of progression signal. The integer identifier of each kind is part
/// of the external contract: identifiers are only ever appended, never reused.
#[derive(Debug, Clone, Copy, PartialEq, Eq, Structural)]
pub enum ProgressionEventType {
    BetaApplicantCreated,
    CaticsBalanceCheck,
    MineSeason0,
    CatLevelUp,
    JupStaked,
    ReferralCreated,
}

impl ProgressionEventType {
    /// The stable identifier of the kind.
    pub open spec fn spec_id(self) -> int {
        match self {
            ProgressionEventType::BetaApplicantCreated => 1,
            ProgressionEventType::CaticsBalanceCheck => 2,
            ProgressionEventType::MineSeason0 => 3,
            ProgressionEventType::CatLevelUp => 4,
            ProgressionEventType::JupStaked => 5,
            ProgressionEventType::ReferralCreated => 6,
        }
    }

    /// The kind that carries `id`, if any does.
    pub open spec fn spec_from_id(id: int) -> Option<ProgressionEventType> {
        if id == 1 {
            Some(ProgressionEventType::BetaApplicantCreated)
        } else if id == 2 {
            Some(ProgressionEventType::CaticsBalanceCheck)
        } else if id == 3 {
            Some(ProgressionEventType::MineSeason0)
        } else if id == 4 {
            Some(ProgressionEventType::CatLevelUp)
        } else if id == 5 {
            Some(ProgressionEventType::JupStaked)
        } else if id == 6 {
            Some(ProgressionEventType::ReferralCreated)
        } else {
            None
        }
    }

    pub fn id(&self) -> (id: i32)
        ensures
            id == self.spec_id(),
    {
        match self {
            ProgressionEventType::BetaApplicantCreated => 1,
            ProgressionEventType::CaticsBalanceCheck => 2,
            ProgressionEventType::MineSeason0 => 3,
            ProgressionEventType::CatLevelUp => 4,
            ProgressionEventType::JupStaked => 5,
            ProgressionEventType::ReferralCreated => 6,
        }
    }

    /// Looks a kind up by its stable identifier.
    pub fn from_id(id: i32) -> (kind: Option<ProgressionEventType>)
        ensures
            kind == Self::spec_from_id(id as int),
    {
        if id == 1 {
            Some(ProgressionEventType::BetaApplicantCreated)
        } else if id == 2 {
            Some(ProgressionEventType::CaticsBalanceCheck)
        } else if id == 3 {
            Some(ProgressionEventType::MineSeason0)
        } else if id == 4 {
            Some(ProgressionEventType::CatLevelUp)
        } else if id == 5 {
            Some(ProgressionEventType::JupStaked)
        } else if id == 6 {
            Some(ProgressionEventType::ReferralCreated)
        } else {
            None
        }
    }

    /// Identifiers and kinds correspond one to one: every kind is found again
    /// under its identifier, an identifier names at most one kind, and the
    /// identifiers in use are exactly 1 to 6.
    pub proof fn lemma_id_is_stable_key(a: ProgressionEventType, b: ProgressionEventType, id: int)
        ensures
            Self::spec_from_id(a.spec_id()) == Some(a),
            a.spec_id() == b.spec_id() ==> a == b,
            1 <= a.spec_id() <= 6,
            Self::spec_from_id(id) is Some <==> 1 <= id <= 6,
            Self::spec_from_id(id) is Some ==> Self::spec_from_id(id)->0.spec_id() == id,
    {
    }
}

} // verus!
