use catalytics_core::entities::progression_event_type::ProgressionEventType;

#[test]
fn identifiers_are_the_fixed_ones() {
    assert_eq!(ProgressionEventType::BetaApplicantCreated.id(), 1);
    assert_eq!(ProgressionEventType::CaticsBalanceCheck.id(), 2);
    assert_eq!(ProgressionEventType::MineSeason0.id(), 3);
    assert_eq!(ProgressionEventType::CatLevelUp.id(), 4);
    assert_eq!(ProgressionEventType::JupStaked.id(), 5);
    assert_eq!(ProgressionEventType::ReferralCreated.id(), 6);
}

#[test]
fn kinds_are_found_by_identifier() {
    for id in 1..=6 {
        let kind = ProgressionEventType::from_id(id);
        assert!(kind.is_some());
        assert_eq!(kind.unwrap().id(), id);
    }
    assert_eq!(
        ProgressionEventType::from_id(5),
        Some(ProgressionEventType::JupStaked)
    );
}

#[test]
fn other_identifiers_name_no_kind() {
    assert_eq!(ProgressionEventType::from_id(0), None);
    assert_eq!(ProgressionEventType::from_id(7), None);
    assert_eq!(ProgressionEventType::from_id(-1), None);
    assert_eq!(ProgressionEventType::from_id(i32::MAX), None);
}
