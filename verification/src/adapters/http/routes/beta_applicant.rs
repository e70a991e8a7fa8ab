use vstd::prelude::*;
use crate::entities::beta_applicant::{optional_text, BetaApplicant};

verus! {

/// An applicant as it is shown to themselves.
#[derive(Debug)]
pub struct BetaApplicantResponse {
    pub public_key: String,
    pub email: Option<String>,
    pub registered_since: i64,
    pub referral_code: String,
    pub referred_by: Option<String>,
    pub referral_count: i64,
    pub current_rank: u32,
}

/// The number of applicants as it is shown.
#[derive(Debug, Clone, Copy, PartialEq, Eq, Structural)]
pub struct BetaApplicantsCountResponse {
    pub count: i64,
}

impl BetaApplicantResponse {
    /// Shows an applicant with the number of their referrals and their rank.
    pub fn from_applicant_with_rank(applicant: BetaApplicant, referral_count: i64, rank: u32) -> (shown:
        BetaApplicantResponse)
        ensures
            shown.public_key@ == applicant.public_key@,
            optional_text(shown.email) == optional_text(applicant.email),
            shown.registered_since == applicant.created_at,
            shown.referral_code@ == applicant.referral_code@,
            optional_text(shown.referred_by) == optional_text(applicant.referred_by),
            shown.referral_count == referral_count,
            shown.current_rank == rank,
    {
        BetaApplicantResponse {
            public_key: applicant.public_key,
            email: applicant.email,
            registered_since: applicant.created_at,
            referral_code: applicant.referral_code,
            referred_by: applicant.referred_by,
            referral_count,
            current_rank: rank,
        }
    }
}

} // verus!
