//! Bot-related models.

use crate::binary64::Binary64;
use crate::models::timestamp::utc_from_millis;
use crate::models::timestamp::Timestamp;
use vstd::prelude::*;

verus! {

/// Full bot data from the `TopStats` API.
#[derive(Debug, Clone, PartialEq)]
pub struct Bot {
    /// The bot's Discord ID.
    pub id: u64,
    /// The bot's Top.gg ID (may differ from Discord ID).
    pub topgg_id: Option<u64>,
    /// Array of owner Discord IDs.
    pub owners: Vec<u64>,
    /// Whether the bot has been deleted from Top.gg.
    pub deleted: bool,
    /// The bot's display name.
    pub name: String,
    /// Default avatar identifier.
    pub default_avatar: Option<String>,
    /// Avatar URL.
    pub avatar: Option<String>,
    /// Short description of the bot.
    pub short_description: String,
    /// Command prefix.
    pub prefix: String,
    /// Bot's website URL.
    pub website: Option<String>,
    /// When the bot was approved on Top.gg.
    pub approved_at: Timestamp,
    /// Bot's tags/categories.
    pub tags: Vec<String>,
    /// Current monthly vote count.
    pub monthly_votes: i64,
    /// Total vote count across all time.
    pub total_votes: i64,
    /// Number of servers the bot is in.
    pub server_count: Option<i64>,
    /// Number of reviews.
    pub review_count: Option<i64>,
    /// Average review rating.
    pub avg_review_rating: Option<Binary64>,
    /// Rank by monthly votes.
    pub monthly_votes_rank: i64,
    /// Rank by server count.
    pub server_count_rank: Option<i64>,
    /// Rank by total votes.
    pub total_votes_rank: i64,
    /// Last update timestamp.
    pub timestamp: Timestamp,
    /// Unix timestamp of last update (as string).
    pub unix_timestamp: Option<String>,
    /// Percentage changes in statistics.
    pub percentage_changes: Option<PercentageChanges>,
}


/// Percentage changes in bot statistics.
#[derive(Debug, Clone, Copy, PartialEq)]
pub struct PercentageChanges {
    /// Daily percentage change.
    pub daily: Option<Binary64>,
    /// Monthly percentage change.
    pub monthly: Option<Binary64>,
}

/// A partial bot with basic information (used in rankings and comparisons).
#[derive(Debug, Clone, PartialEq, Eq)]
pub struct PartialBot {
    /// The bot's Discord ID.
    pub id: u64,
    /// The bot's display name.
    pub name: String,
    /// Current monthly vote count.
    pub monthly_votes: i64,
    /// Total vote count.
    pub total_votes: i64,
    /// Number of servers.
    pub server_count: Option<i64>,
    /// Number of reviews.
    pub review_count: Option<i64>,
    /// Rank by monthly votes.
    pub monthly_votes_rank: i64,
    /// Rank by server count.
    pub server_count_rank: Option<i64>,
    /// Rank by total votes.
    pub total_votes_rank: i64,
}

/// The smallest 17-digit number.
pub const MIN_SNOWFLAKE: u64 = 10_000_000_000_000_000;

/// The largest 19-digit number.
pub const MAX_SNOWFLAKE: u64 = 9_999_999_999_999_999_999;

/// A Discord snowflake ID is an integer of 17 to 19 decimal digits.
pub open spec fn is_snowflake(id: u64) -> bool {
    MIN_SNOWFLAKE <= id <= MAX_SNOWFLAKE
}

impl Bot {
    /// Validates that the given value is a valid Discord snowflake ID.
    ///
    /// Discord snowflakes are 17-19 digit integers.
    pub fn validate_id(id: u64) -> (res: bool)
        ensures
            res == is_snowflake(id),
    {
        MIN_SNOWFLAKE <= id && id <= MAX_SNOWFLAKE
    }

    /// Returns the creation timestamp of this bot based on its Discord snowflake ID.
    ///
    /// Discord snowflakes encode the creation timestamp in the first 42 bits.
    pub fn created_at(&self) -> (res: Option<Timestamp>)
        ensures
            res == Some(snowflake_time(self.id)),
    {
        snowflake_to_datetime(self.id)
    }
}

impl PartialBot {
    /// Returns the creation timestamp of this bot based on its Discord snowflake ID.
    pub fn created_at(&self) -> (res: Option<Timestamp>)
        ensures
            res == Some(snowflake_time(self.id)),
    {
        snowflake_to_datetime(self.id)
    }
}

/// Discord epoch: 2015-01-01T00:00:00Z in milliseconds.
pub const DISCORD_EPOCH: i64 = 1_420_070_400_000;

/// The creation time that a snowflake encodes, in milliseconds since the UNIX epoch:
/// the ID without its 22 low bits, counted from the Discord epoch.
pub open spec fn snowflake_millis(id: u64) -> int {
    id as int / 4_194_304 + DISCORD_EPOCH
}

/// The creation time that a snowflake encodes.
pub open spec fn snowflake_time(id: u64) -> Timestamp {
    Timestamp {
        secs: (snowflake_millis(id) / 1000) as i64,
        nanos: ((snowflake_millis(id) % 1000) * 1_000_000) as u32,
    }
}

/// The creation time of a snowflake, in milliseconds since the UNIX epoch.
pub fn snowflake_timestamp_millis(id: u64) -> (ms: i64)
    ensures
        ms == snowflake_millis(id),
{
    let high: u64 = id >> 22;
    assert(high == id / 4_194_304) by (bit_vector)
        requires
            high == id >> 22,
    ;
    assert(high < 4_398_046_511_104) by (bit_vector)
        requires
            high == id >> 22,
    ;
    (high as i64) + DISCORD_EPOCH
}

/// Converts a Discord snowflake ID to a `DateTime`.
fn snowflake_to_datetime(id: u64) -> (res: Option<Timestamp>)
    ensures
        res == Some(snowflake_time(id)),
{
    let ms = snowflake_timestamp_millis(id);
    assert(0 <= ms <= 8_000_000_000_000_000) by (nonlinear_arith)
        requires
            ms == id as int / 4_194_304 + DISCORD_EPOCH,
            id <= u64::MAX,
    ;
    utc_from_millis(ms)
}

/// Later snowflakes never encode an earlier creation time.
pub proof fn law_snowflake_time_monotonic(a: u64, b: u64)
    requires
        a <= b,
    ensures
        snowflake_millis(a) <= snowflake_millis(b),
{
    assert(a as int / 4_194_304 <= b as int / 4_194_304) by (nonlinear_arith)
        requires
            a <= b,
    ;
}

} // verus!
