use vstd::prelude::*;

verus! {

/// An applicant as the rest of the system sees them. `referred_by` is the
/// masked key of the applicant whose referral code was used, if one was.
#[derive(Debug)]
pub struct BetaApplicant {
    pub id: i32,
    pub public_key: String,
    pub email: Option<String>,
    pub created_at: i64,
    pub referral_code: String,
    pub referred_by: Option<String>,
}

/// An applicant as a mathematical value.
pub struct BetaApplicantView {
    pub id: int,
    pub public_key: Seq<char>,
    pub email: Option<Seq<char>>,
    pub created_at: int,
    pub referral_code: Seq<char>,
    pub referred_by: Option<Seq<char>>,
}

/// The characters of an optional string.
pub open spec fn optional_text(text: Option<String>) -> Option<Seq<char>> {
    match text {
        Some(s) => Some(s@),
        None => None,
    }
}

impl View for BetaApplicant {
    type V = BetaApplicantView;

    open spec fn view(&self) -> BetaApplicantView {
        BetaApplicantView {
            id: self.id as int,
            public_key: self.public_key@,
            email: optional_text(self.email),
            created_at: self.created_at as int,
            referral_code: self.referral_code@,
            referred_by: optional_text(self.referred_by),
        }
    }
}

} // verus!
