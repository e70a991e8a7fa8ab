use vstd::prelude::*;

verus! {

/// One user's standing: the persisted rank beside what the rank is computed
/// from.
#[derive(Debug)]
pub struct LeaderboardEntry {
    pub user_id: i32,
    pub public_key: String,
    pub total_score: i32,
    pub rank: u32,
    pub previous_rank: u32,
    pub created_at: i64,
}

/// A leaderboard entry as a mathematical value.
pub struct LeaderboardEntryView {
    pub user_id: int,
    pub public_key: Seq<char>,
    pub total_score: int,
    pub rank: nat,
    pub previous_rank: nat,
    pub created_at: int,
}

impl View for LeaderboardEntry {
    type V = LeaderboardEntryView;

    open spec fn view(&self) -> LeaderboardEntryView {
        LeaderboardEntryView {
            user_id: self.user_id as int,
            public_key: self.public_key@,
            total_score: self.total_score as int,
            rank: self.rank as nat,
            previous_rank: self.previous_rank as nat,
            created_at: self.created_at as int,
        }
    }
}

impl LeaderboardEntry {
    /// A copy of the entry.
    pub fn duplicate(&self) -> (copy: LeaderboardEntry)
        ensures
            copy@ == self@,
    {
        LeaderboardEntry {
            user_id: self.user_id,
            public_key: self.public_key.clone(),
            total_score: self.total_score,
            rank: self.rank,
            previous_rank: self.previous_rank,
            created_at: self.created_at,
        }
    }
}

/// A leaderboard entry as it is handed to the presentation layer.
#[derive(Debug, Clone)]
pub struct LeaderboardEntryDto {
    pub public_key: String,
    pub total_score: i32,
    pub rank: u32,
}

impl From<LeaderboardEntry> for LeaderboardEntryDto {
    fn from(entry: LeaderboardEntry) -> (dto: LeaderboardEntryDto) {
        LeaderboardEntryDto {
            public_key: entry.public_key,
            total_score: entry.total_score,
            rank: entry.rank,
        }
    }
}

impl vstd::std_specs::convert::FromSpecImpl<LeaderboardEntry> for LeaderboardEntryDto {
    open spec fn obeys_from_spec() -> bool {
        true
    }

    open spec fn from_spec(entry: LeaderboardEntry) -> LeaderboardEntryDto {
        LeaderboardEntryDto {
            public_key: entry.public_key,
            total_score: entry.total_score,
            rank: entry.rank,
        }
    }
}

} // verus!
