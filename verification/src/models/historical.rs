//! Historical data models.

use crate::models::timestamp::Timestamp;
use std::collections::HashMap;
use vstd::prelude::*;

verus! {

/// Time frame for historical data queries.
#[derive(Debug, Clone, Copy, PartialEq, Eq, Hash, Structural)]
pub enum TimeFrame {
    /// All available historical data.
    AllTime,
    /// Last 5 years.
    FiveYears,
    /// Last 3 years.
    ThreeYears,
    /// Last 1 year.
    OneYear,
    /// Last 270 days (9 months).
    NineMonths,
    /// Last 180 days (6 months).
    SixMonths,
    /// Last 90 days (3 months).
    NinetyDays,
    /// Last 30 days.
    ThirtyDays,
    /// Last 7 days.
    SevenDays,
    /// Last 3 days.
    ThreeDays,
    /// Last 1 day.
    OneDay,
    /// Last 12 hours.
    TwelveHours,
    /// Last 6 hours.
    SixHours,
}

impl TimeFrame {
    /// The API query parameter value for this time frame.
    pub open spec fn text(self) -> Seq<char> {
        match self {
            TimeFrame::AllTime => "alltime"@,
            TimeFrame::FiveYears => "5y"@,
            TimeFrame::ThreeYears => "3y"@,
            TimeFrame::OneYear => "1y"@,
            TimeFrame::NineMonths => "270d"@,
            TimeFrame::SixMonths => "180d"@,
            TimeFrame::NinetyDays => "90d"@,
            TimeFrame::ThirtyDays => "30d"@,
            TimeFrame::SevenDays => "7d"@,
            TimeFrame::ThreeDays => "3d"@,
            TimeFrame::OneDay => "1d"@,
            TimeFrame::TwelveHours => "12h"@,
            TimeFrame::SixHours => "6h"@,
        }
    }

    /// Returns the API query parameter value for this time frame.
    pub fn as_str(self) -> (res: &'static str)
        ensures
            res@ == self.text(),
    {
        match self {
            TimeFrame::AllTime => "alltime",
            TimeFrame::FiveYears => "5y",
            TimeFrame::ThreeYears => "3y",
            TimeFrame::OneYear => "1y",
            TimeFrame::NineMonths => "270d",
            TimeFrame::SixMonths => "180d",
            TimeFrame::NinetyDays => "90d",
            TimeFrame::ThirtyDays => "30d",
            TimeFrame::SevenDays => "7d",
            TimeFrame::ThreeDays => "3d",
            TimeFrame::OneDay => "1d",
            TimeFrame::TwelveHours => "12h",
            TimeFrame::SixHours => "6h",
        }
    }
}

impl Default for TimeFrame {
    /// All available historical data.
    fn default() -> (res: Self)
        ensures
            res == TimeFrame::AllTime,
    {
        TimeFrame::AllTime
    }
}

/// Type of historical data to query.
#[derive(Debug, Clone, Copy, PartialEq, Eq, Hash, Structural)]
pub enum DataType {
    /// Monthly vote count.
    MonthlyVotes,
    /// Total vote count.
    TotalVotes,
    /// Server count.
    ServerCount,
    /// Review count.
    ReviewCount,
}

impl DataType {
    /// The API query parameter value for this data type.
    pub open spec fn text(self) -> Seq<char> {
        match self {
            DataType::MonthlyVotes => "monthly_votes"@,
            DataType::TotalVotes => "total_votes"@,
            DataType::ServerCount => "server_count"@,
            DataType::ReviewCount => "review_count"@,
        }
    }

    /// Returns the API query parameter value for this data type.
    pub fn as_str(self) -> (res: &'static str)
        ensures
            res@ == self.text(),
    {
        match self {
            DataType::MonthlyVotes => "monthly_votes",
            DataType::TotalVotes => "total_votes",
            DataType::ServerCount => "server_count",
            DataType::ReviewCount => "review_count",
        }
    }
}

impl Default for DataType {
    /// Monthly vote count.
    fn default() -> (res: Self)
        ensures
            res == DataType::MonthlyVotes,
    {
        DataType::MonthlyVotes
    }
}

/// A single historical data point.
#[derive(Debug, Clone, PartialEq)]
pub struct HistoricalDataPoint {
    /// Timestamp of this data point.
    pub time: Timestamp,
    /// Bot ID this data belongs to.
    pub id: String,
    /// Monthly votes at this time (if requested).
    pub monthly_votes: Option<i64>,
    /// Total votes at this time (if requested).
    pub total_votes: Option<i64>,
    /// Server count at this time (if requested).
    pub server_count: Option<i64>,
    /// Review count at this time (if requested).
    pub review_count: Option<i64>,
}


impl HistoricalDataPoint {
    /// The value of the field that a data type names.
    pub open spec fn spec_value_for(self, data_type: DataType) -> Option<i64> {
        match data_type {
            DataType::MonthlyVotes => self.monthly_votes,
            DataType::TotalVotes => self.total_votes,
            DataType::ServerCount => self.server_count,
            DataType::ReviewCount => self.review_count,
        }
    }

    /// Returns the value for the specified data type.
    pub fn value_for(&self, data_type: DataType) -> (res: Option<i64>)
        ensures
            res == self.spec_value_for(data_type),
    {
        match data_type {
            DataType::MonthlyVotes => self.monthly_votes,
            DataType::TotalVotes => self.total_votes,
            DataType::ServerCount => self.server_count,
            DataType::ReviewCount => self.review_count,
        }
    }
}

/// Response from the historical data endpoint.
#[derive(Debug, Clone, PartialEq)]
pub struct HistoricalDataResponse {
    /// Array of historical data points.
    pub data: Vec<HistoricalDataPoint>,
}

/// Response from the compare historical endpoint.
/// Maps bot IDs to their historical data points.
#[derive(Debug, Clone, PartialEq)]
pub struct CompareHistoricalResponse {
    /// Map of bot ID to historical data points.
    pub data: HashMap<String, Vec<HistoricalDataPoint>>,
}

} // verus!
