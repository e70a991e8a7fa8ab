use vstd::prelude::*;
use crate::entities::leaderboard_entry::LeaderboardEntry;

verus! {

/// A row of the stored ranking, in the order of the ranking.
#[derive(Debug)]
pub struct LeaderboardEntryDb {
    pub id: i32,
    pub public_key: String,
    pub total_score: i32,
    pub created_at: i64,
}

/// Gives the rows of one window of the stored ranking their ranks: the row
/// at place `k` of a window that leaves out `offset` rows has rank
/// `offset + k + 1`.
pub fn rank_entries(rows: Vec<LeaderboardEntryDb>, offset: u32) -> (entries: Vec<LeaderboardEntry>)
    requires
        offset + rows@.len() <= u32::MAX,
    ensures
        entries@.len() == rows@.len(),
        forall|k: int|
            0 <= k < entries@.len() ==> {
                let entry = #[trigger] entries@[k];
                &&& entry.user_id == rows@[k].id
                &&& entry.public_key@ == rows@[k].public_key@
                &&& entry.total_score == rows@[k].total_score
                &&& entry.created_at == rows@[k].created_at
                &&& entry.rank == offset + k + 1
                &&& entry.previous_rank == entry.rank
            },
{
    let mut entries: Vec<LeaderboardEntry> = Vec::new();
    let mut k: usize = 0;
    while k < rows.len()
        invariant
            k <= rows.len(),
            offset + rows@.len() <= u32::MAX,
            entries@.len() == k,
            forall|m: int|
                0 <= m < k ==> {
                    let entry = #[trigger] entries@[m];
                    &&& entry.user_id == rows@[m].id
                    &&& entry.public_key@ == rows@[m].public_key@
                    &&& entry.total_score == rows@[m].total_score
                    &&& entry.created_at == rows@[m].created_at
                    &&& entry.rank == offset + m + 1
                    &&& entry.previous_rank == entry.rank
                },
        decreases rows.len() - k,
    {
        let row = &rows[k];
        let rank: u32 = offset + (k as u32) + 1;
        entries.push(
            LeaderboardEntry {
                user_id: row.id,
                public_key: row.public_key.clone(),
                total_score: row.total_score,
                rank,
                previous_rank: rank,
                created_at: row.created_at,
            },
        );
        k = k + 1;
    }
    entries
}

} // verus!
