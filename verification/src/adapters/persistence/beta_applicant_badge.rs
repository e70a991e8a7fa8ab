use vstd::prelude::*;

verus! {

/// A badge that an applicant holds, as it is stored: the badge and the time
/// of the grant.
#[derive(Debug, Clone, Copy, PartialEq, Eq, Structural)]
pub struct BetaApplicantBadgeDb {
    pub badge_id: i32,
    pub created_at: i64,
}

} // verus!
