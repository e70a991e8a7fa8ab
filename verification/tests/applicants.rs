use catalytics_core::adapters::http::routes::beta_applicant::BetaApplicantResponse;
use catalytics_core::app_error::AppError;
use catalytics_core::use_cases::beta_applicant::{generate_referral_code, Applicants};

#[test]
fn referral_code_has_six_letters_or_digits() {
    for _ in 0..200 {
        let code = generate_referral_code();
        assert_eq!(code.chars().count(), 6);
        assert!(code.chars().all(|c| c.is_ascii_alphanumeric()));
    }
}

#[test]
fn referral_codes_vary() {
    let first = generate_referral_code();
    let mut differs = false;
    for _ in 0..50 {
        if generate_referral_code() != first {
            differs = true;
        }
    }
    assert!(differs);
}

#[test]
fn applicant_without_referral_is_created() {
    let mut applicants = Applicants::new();
    let created = applicants
        .create_beta_applicant("wallet-of-alice-000001", None, String::from("AAAAAA"), 500)
        .unwrap();
    assert_eq!(created.id, 1);
    assert_eq!(created.public_key, "wallet-of-alice-000001");
    assert_eq!(created.email, None);
    assert_eq!(created.created_at, 500);
    assert_eq!(created.referral_code, "AAAAAA");
    assert_eq!(created.referred_by, None);
    assert_eq!(applicants.count_beta_applicants(), 1);
}

#[test]
fn referral_code_resolves_to_the_referrer() {
    let mut applicants = Applicants::new();
    applicants
        .create_beta_applicant("wallet-of-alice-000001", None, String::from("AAAAAA"), 500)
        .unwrap();
    let referred = applicants
        .create_beta_applicant("bob", Some("AAAAAA"), String::from("BBBBBB"), 600)
        .unwrap();
    assert_eq!(referred.id, 2);
    assert_eq!(referred.referred_by, Some(String::from("wall...0001")));
    let third = applicants
        .create_beta_applicant("carol", Some("BBBBBB"), String::from("CCCCCC"), 700)
        .unwrap();
    assert_eq!(third.referred_by, Some(String::from("bob")));
    assert_eq!(applicants.count_referrals(1), 1);
    assert_eq!(applicants.count_referrals(2), 1);
    assert_eq!(applicants.count_referrals(3), 0);
    assert_eq!(applicants.count_referrals(44), 0);
}

#[test]
fn unknown_referral_code_is_not_found() {
    let mut applicants = Applicants::new();
    applicants
        .create_beta_applicant("alice", None, String::from("AAAAAA"), 500)
        .unwrap();
    let result = applicants.create_beta_applicant("bob", Some("ZZZZZZ"), String::from("BBBBBB"), 600);
    assert_eq!(
        result.err(),
        Some(AppError::NotFound(String::from("Resource not found")))
    );
    assert_eq!(applicants.count_beta_applicants(), 1);
    assert!(applicants.read_beta_applicant_by_public_key("bob").is_err());
}

#[test]
fn creating_an_existing_key_reads_the_applicant() {
    let mut applicants = Applicants::new();
    applicants
        .create_beta_applicant("alice", None, String::from("AAAAAA"), 500)
        .unwrap();
    let again = applicants
        .create_beta_applicant("alice", None, String::from("QQQQQQ"), 900)
        .unwrap();
    assert_eq!(again.id, 1);
    assert_eq!(again.referral_code, "AAAAAA");
    assert_eq!(again.created_at, 500);
    assert_eq!(applicants.count_beta_applicants(), 1);
}

#[test]
fn colliding_fresh_code_finds_nobody_to_read() {
    let mut applicants = Applicants::new();
    applicants
        .create_beta_applicant("alice", None, String::from("AAAAAA"), 500)
        .unwrap();
    let result = applicants.create_beta_applicant("bob", None, String::from("AAAAAA"), 600);
    assert_eq!(result.err(), Some(AppError::not_found()));
    assert_eq!(applicants.count_beta_applicants(), 1);
}

#[test]
fn applicants_are_read_by_id_key_and_code() {
    let mut applicants = Applicants::new();
    applicants
        .create_beta_applicant("alice", None, String::from("AAAAAA"), 500)
        .unwrap();
    applicants
        .create_beta_applicant("bob", Some("AAAAAA"), String::from("BBBBBB"), 600)
        .unwrap();
    assert_eq!(applicants.read_beta_applicant_by_id(2).unwrap().public_key, "bob");
    assert_eq!(
        applicants.read_beta_applicant_by_public_key("alice").unwrap().id,
        1
    );
    assert_eq!(
        applicants.read_beta_applicant_by_referral_code("BBBBBB").unwrap().id,
        2
    );
    assert!(matches!(
        applicants.read_beta_applicant_by_id(0),
        Err(AppError::NotFound(_))
    ));
    assert!(matches!(
        applicants.read_beta_applicant_by_id(3),
        Err(AppError::NotFound(_))
    ));
    assert!(matches!(
        applicants.read_beta_applicant_by_public_key("carol"),
        Err(AppError::NotFound(_))
    ));
    assert!(matches!(
        applicants.read_beta_applicant_by_referral_code("bbbbbb"),
        Err(AppError::NotFound(_))
    ));
}

#[test]
fn email_is_updated() {
    let mut applicants = Applicants::new();
    applicants
        .create_beta_applicant("alice", None, String::from("AAAAAA"), 500)
        .unwrap();
    let updated = applicants.update_beta_applicant("alice", "alice@example.com").unwrap();
    assert_eq!(updated.email, Some(String::from("alice@example.com")));
    assert_eq!(updated.referral_code, "AAAAAA");
    assert_eq!(
        applicants.read_beta_applicant_by_id(1).unwrap().email,
        Some(String::from("alice@example.com"))
    );
    assert!(matches!(
        applicants.update_beta_applicant("bob", "bob@example.com"),
        Err(AppError::NotFound(_))
    ));
}

#[test]
fn referrer_wallet_is_masked() {
    let mut applicants = Applicants::new();
    applicants
        .create_beta_applicant("123456789", None, String::from("AAAAAA"), 500)
        .unwrap();
    applicants
        .create_beta_applicant("12345678", None, String::from("BBBBBB"), 500)
        .unwrap();
    assert_eq!(applicants.get_referrer_wallet(Some(1)), Some(String::from("1234...6789")));
    assert_eq!(applicants.get_referrer_wallet(Some(2)), Some(String::from("12345678")));
    assert_eq!(applicants.get_referrer_wallet(Some(3)), None);
    assert_eq!(applicants.get_referrer_wallet(Some(0)), None);
    assert_eq!(applicants.get_referrer_wallet(None), None);
}

#[test]
fn create_with_referral_draws_a_code() {
    let mut applicants = Applicants::new();
    let alice = applicants.create_with_referral("alice", None, 500).unwrap();
    assert_eq!(alice.referral_code.chars().count(), 6);
    assert!(alice.referral_code.chars().all(|c| c.is_ascii_alphanumeric()));
    let bob = applicants
        .create_with_referral("bob", Some(alice.referral_code.as_str()), 600)
        .unwrap();
    assert_eq!(bob.referred_by, Some(String::from("alice")));
    assert!(matches!(
        applicants.create_with_referral("carol", Some("not a code"), 700),
        Err(AppError::NotFound(_))
    ));
    let again = applicants.create_with_referral("alice", None, 800).unwrap();
    assert_eq!(again.referral_code, alice.referral_code);
    assert_eq!(applicants.count_beta_applicants(), 2);
}

#[test]
fn applicant_is_shown_with_count_and_rank() {
    let mut applicants = Applicants::new();
    let alice = applicants
        .create_beta_applicant("alice", None, String::from("AAAAAA"), 500)
        .unwrap();
    let shown = BetaApplicantResponse::from_applicant_with_rank(alice, 4, 2);
    assert_eq!(shown.public_key, "alice");
    assert_eq!(shown.email, None);
    assert_eq!(shown.registered_since, 500);
    assert_eq!(shown.referral_code, "AAAAAA");
    assert_eq!(shown.referred_by, None);
    assert_eq!(shown.referral_count, 4);
    assert_eq!(shown.current_rank, 2);
}
