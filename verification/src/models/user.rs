//! User-related models.

use crate::models::timestamp::Timestamp;
use vstd::prelude::*;

verus! {

/// A bot owned by a user.
#[derive(Debug, Clone, PartialEq, Eq)]
pub struct UserBot {
    /// The bot's Discord ID.
    pub id: u64,
    /// Array of owner Discord IDs.
    pub owners: Vec<u64>,
    /// Whether the bot has been deleted from Top.gg.
    pub deleted: bool,
    /// The bot's display name.
    pub name: String,
    /// Avatar URL.
    pub avatar: Option<String>,
    /// Short description of the bot.
    pub short_description: String,
    /// Library used (deprecated).
    pub lib: Option<String>,
    /// Command prefix.
    pub prefix: String,
    /// Bot's website URL.
    pub website: Option<String>,
    /// When the bot was approved on Top.gg.
    pub approved_at: Option<Timestamp>,
    /// Current monthly vote count.
    pub monthly_votes: i64,
    /// Number of servers the bot is in.
    pub server_count: Option<i64>,
    /// Total vote count.
    pub total_votes: i64,
    /// Rank by monthly votes.
    pub monthly_votes_rank: i64,
    /// Rank by server count.
    pub server_count_rank: Option<i64>,
    /// Rank by total votes.
    pub total_votes_rank: i64,
    /// Last update timestamp.
    pub timestamp: Option<Timestamp>,
    /// Unix timestamp of last update (as string).
    pub unix_timestamp: Option<String>,
}


/// Response from the user bots endpoint.
#[derive(Debug, Clone, PartialEq, Eq)]
pub struct UserBotsResponse {
    /// List of bots owned by the user.
    pub bots: Vec<UserBot>,
}

/// The sum of the bots' monthly votes.
pub open spec fn monthly_votes_sum(bots: Seq<UserBot>) -> int
    decreases bots.len(),
{
    if bots.len() == 0 {
        0
    } else {
        monthly_votes_sum(bots.drop_last()) + bots.last().monthly_votes
    }
}

/// The sum of the bots' total votes.
pub open spec fn total_votes_sum(bots: Seq<UserBot>) -> int
    decreases bots.len(),
{
    if bots.len() == 0 {
        0
    } else {
        total_votes_sum(bots.drop_last()) + bots.last().total_votes
    }
}

/// Adding up the monthly votes bot by bot stays within the range of `i64`.
pub open spec fn monthly_votes_sum_fits(bots: Seq<UserBot>) -> bool {
    forall|k: int|
        0 <= k <= bots.len() ==> i64::MIN <= #[trigger] monthly_votes_sum(bots.take(k))
            <= i64::MAX
}

/// Adding up the total votes bot by bot stays within the range of `i64`.
pub open spec fn total_votes_sum_fits(bots: Seq<UserBot>) -> bool {
    forall|k: int|
        0 <= k <= bots.len() ==> i64::MIN <= #[trigger] total_votes_sum(bots.take(k))
            <= i64::MAX
}

impl UserBotsResponse {
    /// Returns the number of bots owned by the user.
    pub fn count(&self) -> (res: usize)
        ensures
            res == self.bots@.len(),
    {
        self.bots.len()
    }

    /// Returns `true` if the user has no bots.
    pub fn is_empty(&self) -> (res: bool)
        ensures
            res == (self.bots@.len() == 0),
    {
        self.bots.len() == 0
    }

    /// Returns an iterator over the bots.
    pub fn iter(&self) -> (res: std::slice::Iter<'_, UserBot>)
        ensures
            vstd::std_specs::iter::IteratorSpec::remaining(&res) == self.bots@.as_ref(),
    {
        let it = self.bots.as_slice().iter();
        proof {
            broadcast use vstd::std_specs::slice::axiom_spec_slice_iter;

        }
        it
    }

    /// Returns the total monthly votes across all bots.
    pub fn total_monthly_votes(&self) -> (res: i64)
        requires
            monthly_votes_sum_fits(self.bots@),
        ensures
            res == monthly_votes_sum(self.bots@),
    {
        let n = self.bots.len();
        let mut total: i64 = 0;
        let mut i: usize = 0;
        assert(self.bots@.take(0) =~= Seq::<UserBot>::empty());
        while i < n
            invariant
                n == self.bots@.len(),
                i <= n,
                monthly_votes_sum_fits(self.bots@),
                total == monthly_votes_sum(self.bots@.take(i as int)),
            decreases n - i,
        {
            assert(self.bots@.take((i + 1) as int).drop_last() =~= self.bots@.take(i as int));
            let ghost next = monthly_votes_sum(self.bots@.take((i + 1) as int));
            assert(i64::MIN <= next <= i64::MAX);
            total = total + self.bots[i].monthly_votes;
            i = i + 1;
        }
        assert(self.bots@.take(n as int) =~= self.bots@);
        total
    }

    /// Returns the total votes across all bots.
    pub fn total_votes(&self) -> (res: i64)
        requires
            total_votes_sum_fits(self.bots@),
        ensures
            res == total_votes_sum(self.bots@),
    {
        let n = self.bots.len();
        let mut total: i64 = 0;
        let mut i: usize = 0;
        assert(self.bots@.take(0) =~= Seq::<UserBot>::empty());
        while i < n
            invariant
                n == self.bots@.len(),
                i <= n,
                total_votes_sum_fits(self.bots@),
                total == total_votes_sum(self.bots@.take(i as int)),
            decreases n - i,
        {
            assert(self.bots@.take((i + 1) as int).drop_last() =~= self.bots@.take(i as int));
            let ghost next = total_votes_sum(self.bots@.take((i + 1) as int));
            assert(i64::MIN <= next <= i64::MAX);
            total = total + self.bots[i].total_votes;
            i = i + 1;
        }
        assert(self.bots@.take(n as int) =~= self.bots@);
        total
    }
}

} // verus!
