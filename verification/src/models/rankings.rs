//! Rankings data models.

use crate::error::Error;
use crate::text::{decimal, u64_to_decimal};
use vstd::prelude::*;
use vstd::string::*;

verus! {

/// Sort criteria for rankings queries.
#[derive(Debug, Clone, Copy, PartialEq, Eq, Hash, Structural)]
#[non_exhaustive]
pub enum SortBy {
    /// Sort by monthly votes rank.
    MonthlyVotes,
    /// Sort by total votes rank.
    TotalVotes,
    /// Sort by server count rank.
    ServerCount,
}

impl SortBy {
    /// The API query parameter value for this sort criteria.
    pub open spec fn text(self) -> Seq<char> {
        match self {
            SortBy::MonthlyVotes => "monthly_votes_rank"@,
            SortBy::TotalVotes => "total_votes_rank"@,
            SortBy::ServerCount => "server_count_rank"@,
        }
    }

    /// Returns the API query parameter value for this sort criteria.
    pub fn as_str(self) -> (res: &'static str)
        ensures
            res@ == self.text(),
    {
        match self {
            SortBy::MonthlyVotes => "monthly_votes_rank",
            SortBy::TotalVotes => "total_votes_rank",
            SortBy::ServerCount => "server_count_rank",
        }
    }
}

impl Default for SortBy {
    /// Sort by monthly votes rank.
    fn default() -> (res: Self)
        ensures
            res == SortBy::MonthlyVotes,
    {
        SortBy::MonthlyVotes
    }
}

/// Sort order for rankings queries.
#[derive(Debug, Clone, Copy, PartialEq, Eq, Hash, Structural)]
#[non_exhaustive]
pub enum SortOrder {
    /// Ascending order (lowest rank first = best).
    Ascending,
    /// Descending order (highest rank first = worst).
    Descending,
}

impl SortOrder {
    /// The API query parameter value for this sort order.
    pub open spec fn text(self) -> Seq<char> {
        match self {
            SortOrder::Ascending => "asc"@,
            SortOrder::Descending => "desc"@,
        }
    }

    /// Returns the API query parameter value for this sort order.
    pub fn as_str(self) -> (res: &'static str)
        ensures
            res@ == self.text(),
    {
        match self {
            SortOrder::Ascending => "asc",
            SortOrder::Descending => "desc",
        }
    }
}

impl Default for SortOrder {
    /// Ascending order.
    fn default() -> (res: Self)
        ensures
            res == SortOrder::Ascending,
    {
        SortOrder::Ascending
    }
}

/// A bot entry in the rankings.
#[derive(Debug, Clone, PartialEq, Eq)]
pub struct RankedBot {
    /// The bot's Discord ID.
    pub id: String,
    /// The bot's display name.
    pub name: String,
    /// Current monthly vote count.
    pub monthly_votes: i64,
    /// Rank by monthly votes.
    pub monthly_votes_rank: i64,
    /// Number of servers the bot is in.
    pub server_count: Option<i64>,
    /// Rank by server count.
    pub server_count_rank: Option<i64>,
    /// Total vote count.
    pub total_votes: i64,
    /// Rank by total votes.
    pub total_votes_rank: i64,
    /// Number of reviews.
    pub review_count: Option<i64>,
    /// Change in monthly votes rank since last update.
    pub monthly_votes_rank_change: Option<i64>,
    /// Change in server count rank since last update.
    pub server_count_rank_change: Option<i64>,
    /// Change in total votes rank since last update.
    pub total_votes_rank_change: Option<i64>,
}

/// Response from the rankings endpoint.
#[derive(Debug, Clone, PartialEq, Eq)]
pub struct RankingsResponse {
    /// Total number of bots tracked.
    pub total_bot_count: i64,
    /// Array of ranked bots.
    pub data: Vec<RankedBot>,
}

/// Builder for rankings query parameters.
#[derive(Debug, Clone)]
pub struct RankingsQuery {
    /// Maximum number of results (1-500).
    pub limit: Option<u16>,
    /// Offset for pagination.
    pub offset: Option<u32>,
    /// Sort criteria.
    pub sort_by: SortBy,
    /// Sort order.
    pub sort_order: SortOrder,
}

/// A rankings limit is accepted when it lies between 1 and 500.
pub open spec fn limit_in_range(limit: Option<u16>) -> bool {
    match limit {
        Some(l) => 1 <= l <= 500,
        None => true,
    }
}

/// The message of the error for a limit outside 1..=500.
pub open spec fn limit_message(limit: u16) -> Seq<char> {
    "Rankings limit must be between 1 and 500, got "@ + decimal(limit as nat)
}

impl RankingsQuery {
    /// Creates a new rankings query with default values.
    pub fn new() -> (res: Self)
        ensures
            res == (RankingsQuery {
                limit: None,
                offset: None,
                sort_by: SortBy::MonthlyVotes,
                sort_order: SortOrder::Ascending,
            }),
    {
        RankingsQuery {
            limit: None,
            offset: None,
            sort_by: SortBy::MonthlyVotes,
            sort_order: SortOrder::Ascending,
        }
    }

    /// Sets the maximum number of results (1-500).
    pub fn limit(self, limit: u16) -> (res: Self)
        ensures
            res == (RankingsQuery { limit: Some(limit), ..self }),
    {
        RankingsQuery { limit: Some(limit), ..self }
    }

    /// Sets the offset for pagination.
    pub fn offset(self, offset: u32) -> (res: Self)
        ensures
            res == (RankingsQuery { offset: Some(offset), ..self }),
    {
        RankingsQuery { offset: Some(offset), ..self }
    }

    /// Sets the sort criteria.
    pub fn sort_by(self, sort_by: SortBy) -> (res: Self)
        ensures
            res == (RankingsQuery { sort_by, ..self }),
    {
        RankingsQuery { sort_by, ..self }
    }

    /// Sets the sort order.
    pub fn sort_order(self, sort_order: SortOrder) -> (res: Self)
        ensures
            res == (RankingsQuery { sort_order, ..self }),
    {
        RankingsQuery { sort_order, ..self }
    }

    /// Validates the query parameters.
    ///
    /// # Errors
    ///
    /// Returns an error if the limit is outside the valid range (1-500).
    pub fn validate(&self) -> (res: Result<(), Error>)
        ensures
            res is Ok <==> limit_in_range(self.limit),
            res is Ok <==> (self.limit is None || (1 <= self.limit->0 && self.limit->0 <= 500)),
            res matches Err(e) ==> (e matches Error::InvalidInput(m) && m@ == limit_message(
                self.limit->0,
            )),
    {
        match self.limit {
            Some(l) => {
                if l == 0 || l > 500 {
                    let mut m = String::from_str("Rankings limit must be between 1 and 500, got ");
                    let d = u64_to_decimal(l as u64);
                    m.append(d.as_str());
                    return Err(Error::InvalidInput(m));
                }
                Ok(())
            },
            None => Ok(()),
        }
    }
}

impl Default for RankingsQuery {
    /// The query that [`RankingsQuery::new`] builds.
    fn default() -> (res: Self)
        ensures
            res == (RankingsQuery {
                limit: None,
                offset: None,
                sort_by: SortBy::MonthlyVotes,
                sort_order: SortOrder::Ascending,
            }),
    {
        RankingsQuery::new()
    }
}

/// A rankings limit is accepted exactly when it is absent or lies between 1 and 500,
/// both included.
pub proof fn law_rankings_limit_range(limit: Option<u16>)
    ensures
        limit_in_range(limit) <==> (limit is None || (1 <= limit->0 && limit->0 <= 500)),
        limit_in_range(Some(1u16)) && limit_in_range(Some(500u16)),
        !limit_in_range(Some(0u16)) && !limit_in_range(Some(501u16)),
{
}

} // verus!
