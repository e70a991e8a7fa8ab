use vstd::prelude::*;
use crate::entities::leaderboard_entry::LeaderboardEntryDto;
use crate::entities::mailchimp::{masked, truncate_public_key};

verus! {

/// The most entries that one page may hold.
pub const MAX_LIMIT: u32 = 100;

/// The page that is shown where none is asked for.
pub fn default_page() -> (page: u32)
    ensures
        page == 1,
{
    1
}

/// The number of entries on a page where none is asked for.
pub fn default_limit() -> (limit: u32)
    ensures
        limit == 10,
{
    10
}

/// The page and the size of a page as a request asks for them.
#[derive(Debug, Clone, Copy, PartialEq, Eq, Structural)]
pub struct LeaderboardQueryParams {
    pub page: u32,
    pub limit: u32,
}

/// The page that is shown for a request: page 0 counts as page 1.
pub open spec fn shown_page(page: u32) -> u32 {
    if page == 0 {
        1
    } else {
        page
    }
}

/// The size of a page that is used for a request: 10 where the request asks
/// for none or for more than 100.
pub open spec fn shown_limit(limit: u32) -> u32 {
    if limit == 0 || limit > MAX_LIMIT {
        10
    } else {
        limit
    }
}

impl LeaderboardQueryParams {
    /// The parameters that a request is answered with.
    pub fn normalized(&self) -> (params: LeaderboardQueryParams)
        ensures
            params.page == shown_page(self.page),
            params.limit == shown_limit(self.limit),
            params.page >= 1,
            1 <= params.limit <= MAX_LIMIT,
    {
        let page = if self.page == 0 {
            default_page()
        } else {
            self.page
        };
        let limit = if self.limit == 0 || self.limit > MAX_LIMIT {
            default_limit()
        } else {
            self.limit
        };
        LeaderboardQueryParams { page, limit }
    }
}

/// An entry of the leaderboard as it is shown: the key masked.
#[derive(Debug)]
pub struct LeaderboardEntryResponse {
    pub public_key: String,
    pub rank: u32,
    pub total_score: i32,
}

impl LeaderboardEntryResponse {
    /// Shows an entry. The key is masked; rank and score are as they are.
    pub fn from_dto(entry: LeaderboardEntryDto) -> (shown: LeaderboardEntryResponse)
        ensures
            shown.public_key@ == masked(entry.public_key@),
            shown.rank == entry.rank,
            shown.total_score == entry.total_score,
    {
        LeaderboardEntryResponse {
            public_key: truncate_public_key(entry.public_key.as_str()),
            rank: entry.rank,
            total_score: entry.total_score,
        }
    }
}

/// Where a page stands in the whole.
#[derive(Debug, Clone, Copy, PartialEq, Eq, Structural)]
pub struct PaginationResponse {
    pub page: u32,
    pub limit: u32,
    pub total: u32,
}

/// One page of the leaderboard as it is shown.
#[derive(Debug)]
pub struct LeaderboardResponse {
    pub leaderboard: Vec<LeaderboardEntryResponse>,
    pub pagination: PaginationResponse,
}

/// Puts the answer to a request for a page together: every entry masked, in
/// the order given, with the parameters that were used and the total.
pub fn leaderboard_response(
    entries: Vec<LeaderboardEntryDto>,
    params: LeaderboardQueryParams,
    total: u32,
) -> (response: LeaderboardResponse)
    ensures
        response.pagination == (PaginationResponse { page: params.page, limit: params.limit, total }),
        response.leaderboard@.len() == entries@.len(),
        forall|k: int|
            0 <= k < entries@.len() ==> (#[trigger] response.leaderboard@[k]).public_key@
                == masked(entries@[k].public_key@) && response.leaderboard@[k].rank
                == entries@[k].rank && response.leaderboard@[k].total_score
                == entries@[k].total_score,
{
    let mut leaderboard: Vec<LeaderboardEntryResponse> = Vec::new();
    let mut k: usize = 0;
    while k < entries.len()
        invariant
            k <= entries.len(),
            leaderboard@.len() == k,
            forall|m: int|
                0 <= m < k ==> (#[trigger] leaderboard@[m]).public_key@ == masked(
                    entries@[m].public_key@,
                ) && leaderboard@[m].rank == entries@[m].rank && leaderboard@[m].total_score
                    == entries@[m].total_score,
        decreases entries.len() - k,
    {
        let entry = &entries[k];
        leaderboard.push(
            LeaderboardEntryResponse {
                public_key: truncate_public_key(entry.public_key.as_str()),
                rank: entry.rank,
                total_score: entry.total_score,
            },
        );
        k = k + 1;
    }
    LeaderboardResponse {
        leaderboard,
        pagination: PaginationResponse { page: params.page, limit: params.limit, total },
    }
}

} // verus!
