use catalytics_core::adapters::http::routes::leaderboard::LeaderboardEntryResponse;
use catalytics_core::entities::leaderboard_entry::{LeaderboardEntry, LeaderboardEntryDto};
use catalytics_core::entities::mailchimp::truncate_public_key;

#[test]
fn short_identifier_is_unchanged() {
    assert_eq!(truncate_public_key("abcd1234"), "abcd1234");
    assert_eq!(truncate_public_key("abc"), "abc");
    assert_eq!(truncate_public_key(""), "");
}

#[test]
fn long_identifier_keeps_first_and_last_four() {
    assert_eq!(truncate_public_key("abcd12345"), "abcd...2345");
    assert_eq!(
        truncate_public_key("7xKXtg2CW87d97TXJSDpbD5jBkheTqA83TZRuJosgAsU"),
        "7xKX...gAsU"
    );
}

#[test]
fn masking_counts_characters() {
    assert_eq!(truncate_public_key("äöüßäöüß"), "äöüßäöüß");
    assert_eq!(truncate_public_key("äöüß12345éèêë"), "äöüß...éèêë");
}

#[test]
fn masking_is_deterministic_and_leaves_the_key_alone() {
    let key = String::from("So11111111111111111111111111111111111111112");
    let first = truncate_public_key(&key);
    let second = truncate_public_key(&key);
    assert_eq!(first, second);
    assert_eq!(first, "So11...1112");
    assert_eq!(key, "So11111111111111111111111111111111111111112");
}

#[test]
fn shown_entry_is_masked_and_the_dto_is_not() {
    let entry = LeaderboardEntry {
        user_id: 3,
        public_key: String::from("9WzDXwBbmkg8ZTbNMqUxvQRAyrZzDsGYdLVL9zYtAWWM"),
        total_score: 40,
        rank: 2,
        previous_rank: 5,
        created_at: 1_700_000_000,
    };
    let dto = LeaderboardEntryDto::from(entry);
    assert_eq!(dto.public_key, "9WzDXwBbmkg8ZTbNMqUxvQRAyrZzDsGYdLVL9zYtAWWM");
    assert_eq!(dto.total_score, 40);
    assert_eq!(dto.rank, 2);
    let shown = LeaderboardEntryResponse::from_dto(dto);
    assert_eq!(shown.public_key, "9WzD...AWWM");
    assert_eq!(shown.rank, 2);
    assert_eq!(shown.total_score, 40);
}
