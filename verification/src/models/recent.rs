//! Recent data models.

use crate::binary64::Binary64;
use crate::models::timestamp::Timestamp;
use vstd::prelude::*;

verus! {

/// A single data point in recent bot statistics.
#[derive(Debug, Clone, PartialEq)]
pub struct RecentDataPoint {
    /// Timestamp of this data point.
    pub time: Timestamp,
    /// Monthly vote count at this time.
    pub monthly_votes: i64,
    /// Total vote count at this time.
    pub total_votes: i64,
    /// Server count at this time.
    pub server_count: Option<i64>,
    /// Review count at this time.
    pub review_count: Option<i64>,
    /// Change in monthly votes since previous data point.
    pub monthly_votes_change: Option<i64>,
    /// Percentage change in monthly votes.
    pub monthly_votes_change_perc: Option<Binary64>,
    /// Change in server count since previous data point.
    pub server_count_change: Option<i64>,
    /// Change in total votes since previous data point.
    pub total_votes_change: Option<i64>,
    /// Change in review count since previous data point.
    pub review_count_change: Option<i64>,
}


/// Response from the recent data endpoint.
///
/// Contains hourly data for the past 30 hours and daily data for the past month.
#[derive(Debug, Clone, PartialEq)]
pub struct RecentDataResponse {
    /// Hourly statistics for the past 30 hours.
    pub hourly_data: Vec<RecentDataPoint>,
    /// Daily statistics for the past month.
    pub daily_data: Vec<RecentDataPoint>,
}

/// The sum of the monthly vote changes that the points report (points without one
/// count as nothing).
pub open spec fn votes_change_sum(points: Seq<RecentDataPoint>) -> int
    decreases points.len(),
{
    if points.len() == 0 {
        0
    } else {
        votes_change_sum(points.drop_last()) + match points.last().monthly_votes_change {
            Some(c) => c as int,
            None => 0,
        }
    }
}

/// Adding up the changes point by point stays within the range of `i64`.
pub open spec fn votes_change_sum_fits(points: Seq<RecentDataPoint>) -> bool {
    forall|k: int|
        0 <= k <= points.len() ==> i64::MIN <= #[trigger] votes_change_sum(points.take(k))
            <= i64::MAX
}

/// Adds up the monthly vote changes of `points`, as `filter_map(..).sum()` does.
fn sum_votes_changes(points: &Vec<RecentDataPoint>) -> (res: i64)
    requires
        votes_change_sum_fits(points@),
    ensures
        res == votes_change_sum(points@),
{
    let n = points.len();
    let mut total: i64 = 0;
    let mut i: usize = 0;
    assert(points@.take(0) =~= Seq::<RecentDataPoint>::empty());
    while i < n
        invariant
            n == points@.len(),
            i <= n,
            votes_change_sum_fits(points@),
            total == votes_change_sum(points@.take(i as int)),
        decreases n - i,
    {
        assert(points@.take((i + 1) as int).drop_last() =~= points@.take(i as int));
        assert(points@.take((i + 1) as int).last() == points@[i as int]);
        let ghost next = votes_change_sum(points@.take((i + 1) as int));
        assert(i64::MIN <= next <= i64::MAX);
        match points[i].monthly_votes_change {
            Some(c) => {
                total = total + c;
            },
            None => {},
        }
        i = i + 1;
    }
    assert(points@.take(n as int) =~= points@);
    total
}

impl RecentDataResponse {
    /// Returns the most recent hourly data point, if available.
    pub fn latest_hourly(&self) -> (res: Option<&RecentDataPoint>)
        ensures
            self.hourly_data@.len() == 0 ==> res is None,
            self.hourly_data@.len() > 0 ==> res == Some(&self.hourly_data@[0]),
    {
        self.hourly_data.as_slice().first()
    }

    /// Returns the most recent daily data point, if available.
    pub fn latest_daily(&self) -> (res: Option<&RecentDataPoint>)
        ensures
            self.daily_data@.len() == 0 ==> res is None,
            self.daily_data@.len() > 0 ==> res == Some(&self.daily_data@[0]),
    {
        self.daily_data.as_slice().first()
    }

    /// Calculates the total change in monthly votes over the hourly period.
    pub fn total_hourly_votes_change(&self) -> (res: i64)
        requires
            votes_change_sum_fits(self.hourly_data@),
        ensures
            res == votes_change_sum(self.hourly_data@),
    {
        sum_votes_changes(&self.hourly_data)
    }

    /// Calculates the total change in monthly votes over the daily period.
    pub fn total_daily_votes_change(&self) -> (res: i64)
        requires
            votes_change_sum_fits(self.daily_data@),
        ensures
            res == votes_change_sum(self.daily_data@),
    {
        sum_votes_changes(&self.daily_data)
    }
}

} // verus!
