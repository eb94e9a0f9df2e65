use topstats::binary64::Binary64;
use topstats::client::{ClientBuilder, ClientConfig, DEFAULT_MAX_RETRIES, MAX_DELAY_THRESHOLD_BITS};
use topstats::endpoints;
use topstats::error::{ApiErrorResponse, Error};
use topstats::http::{Method, Request, Response};
use topstats::models::bot::{Bot, PartialBot};
use topstats::models::historical::{DataType, HistoricalDataPoint, TimeFrame};
use topstats::models::rankings::{RankingsQuery, SortBy, SortOrder};
use topstats::models::recent::{RecentDataPoint, RecentDataResponse};
use topstats::models::timestamp::Timestamp;
use topstats::models::user::UserBotsResponse;
use topstats::rate_limiter::{RateLimiter, RateLimiterManager};
use topstats::string_map::StringMap;
use topstats::DEFAULT_BASE_URL;

use chrono::Datelike;

fn seconds(x: f64) -> Binary64 {
    Binary64 { bits: x.to_bits() }
}

fn some_time() -> Timestamp {
    let now = chrono::Utc::now();
    Timestamp {
        secs: now.timestamp(),
        nanos: now.timestamp_subsec_nanos(),
    }
}

#[test]
fn test_client_builder() {
    let builder = ClientBuilder::new()
        .token("test-token")
        .base_url("https://custom.api.com")
        .auto_retry(false)
        .max_delay_threshold(seconds(10.0));

    let client = builder.build_with_client(()).unwrap();
    let config = client.config();
    assert_eq!(config.token, "test-token");
    assert_eq!(config.base_url, "https://custom.api.com");
    assert!(!config.auto_retry);
    assert!((f64::from_bits(config.max_delay_threshold.bits) - 10.0).abs() < f64::EPSILON);
}

#[test]
fn client_test_validate_bot_id() {
    assert!(endpoints::validate_bot_id("432610292342587392").is_ok());
    assert!(endpoints::validate_bot_id("123").is_err());
    assert!(endpoints::validate_bot_id("abc").is_err());
}

#[test]
fn test_client_config_default() {
    let config = ClientConfig::default();
    assert_eq!(config.base_url, DEFAULT_BASE_URL);
    assert!(config.auto_retry);
    assert!(
        (f64::from_bits(config.max_delay_threshold.bits) - f64::from_bits(MAX_DELAY_THRESHOLD_BITS))
            .abs()
            < f64::EPSILON
    );
    assert_eq!(config.max_retries, DEFAULT_MAX_RETRIES);
}

#[test]
fn test_client_builder_max_retries() {
    let builder = ClientBuilder::new().token("test").max_retries(5);
    let client = builder.build_with_client(()).unwrap();
    assert_eq!(client.config().max_retries, 5);
}

#[test]
fn test_rate_limit_error() {
    let err = Error::RateLimited {
        retry_after: seconds(26.0),
        message: "You are being rate limited".to_string(),
    };
    assert!(err.is_rate_limited());
    assert_eq!(err.retry_after(), Some(seconds(26.0)));
}

#[test]
fn test_api_error_response_parsing() {
    // {"code": 429, "message": "Rate limited", "expiresIn": 30}
    let response = ApiErrorResponse {
        code: 429,
        message: "Rate limited".to_string(),
        expires_in: Some(seconds(30.0)),
    };
    let err: Error = response.into();
    assert!(err.is_rate_limited());
    assert_eq!(err.retry_after(), Some(seconds(30.0)));
}

#[test]
fn test_api_error_404() {
    // {"code": 404, "message": "Not found"}
    let response = ApiErrorResponse {
        code: 404,
        message: "Not found".to_string(),
        expires_in: None,
    };
    let err: Error = response.into();
    assert!(err.is_not_found());
}

#[test]
fn test_not_found_error() {
    let err = Error::NotFound {
        message: "Bot not found".to_string(),
    };
    assert!(err.is_not_found());
    assert!(!err.is_rate_limited());
    assert_eq!(err.retry_after(), None);
}

#[test]
fn test_request_builder() {
    let request = Request::get("https://api.example.com/test")
        .query("foo", "bar")
        .query("baz", "qux")
        .header("Authorization", "token123");

    assert_eq!(request.method, Method::Get);
    assert_eq!(request.url, "https://api.example.com/test");
    assert_eq!(request.query.get("foo"), Some(&"bar".to_string()));
    assert_eq!(request.query.get("baz"), Some(&"qux".to_string()));
    assert_eq!(
        request.headers.get("Authorization"),
        Some(&"token123".to_string())
    );
}

#[test]
fn test_response_status_checks() {
    let success = Response {
        status: 200,
        headers: StringMap::new(),
        body: String::new(),
    };
    assert!(success.is_success());
    assert!(!success.is_rate_limited());
    assert!(!success.is_not_found());

    let rate_limited = Response {
        status: 429,
        headers: StringMap::new(),
        body: String::new(),
    };
    assert!(!rate_limited.is_success());
    assert!(rate_limited.is_rate_limited());

    let not_found = Response {
        status: 404,
        headers: StringMap::new(),
        body: String::new(),
    };
    assert!(!not_found.is_success());
    assert!(not_found.is_not_found());
}

#[test]
fn bot_test_validate_bot_id() {
    // Valid IDs
    assert!(Bot::validate_id(432_610_292_342_587_392)); // 18 digits
    assert!(Bot::validate_id(10_000_000_000_000_000)); // 17 digits (minimum)
    assert!(Bot::validate_id(1_234_567_890_123_456_789)); // 19 digits

    // Invalid IDs
    assert!(!Bot::validate_id(123)); // Too small
    assert!(!Bot::validate_id(0)); // Zero
    assert!(!Bot::validate_id(9_999_999_999_999_999)); // 16 digits
}

#[test]
fn test_snowflake_to_datetime() {
    // Known snowflake: 432610292342587392 created around 2018-04-08
    let bot = PartialBot {
        id: 432_610_292_342_587_392,
        name: "Mudae".to_string(),
        monthly_votes: 0,
        total_votes: 0,
        server_count: None,
        review_count: None,
        monthly_votes_rank: 0,
        server_count_rank: None,
        total_votes_rank: 0,
    };
    let t = bot.created_at().unwrap();
    let dt = chrono::DateTime::from_timestamp(t.secs, t.nanos).unwrap();
    assert_eq!(dt.year(), 2018);
    assert_eq!(dt.month(), 4);
}

#[test]
fn test_time_frame_as_str() {
    assert_eq!(TimeFrame::AllTime.as_str(), "alltime");
    assert_eq!(TimeFrame::ThirtyDays.as_str(), "30d");
    assert_eq!(TimeFrame::TwelveHours.as_str(), "12h");
}

#[test]
fn test_data_type_as_str() {
    assert_eq!(DataType::MonthlyVotes.as_str(), "monthly_votes");
    assert_eq!(DataType::ServerCount.as_str(), "server_count");
}

#[test]
fn test_historical_data_point_value_for() {
    let point = HistoricalDataPoint {
        time: some_time(),
        id: "123".to_string(),
        monthly_votes: Some(100),
        total_votes: Some(500),
        server_count: None,
        review_count: Some(10),
    };

    assert_eq!(point.value_for(DataType::MonthlyVotes), Some(100));
    assert_eq!(point.value_for(DataType::TotalVotes), Some(500));
    assert_eq!(point.value_for(DataType::ServerCount), None);
    assert_eq!(point.value_for(DataType::ReviewCount), Some(10));
}

#[test]
fn test_time_frame_default() {
    assert_eq!(TimeFrame::default(), TimeFrame::AllTime);
}

#[test]
fn test_data_type_default() {
    assert_eq!(DataType::default(), DataType::MonthlyVotes);
}

#[test]
fn test_sort_by_as_str() {
    assert_eq!(SortBy::MonthlyVotes.as_str(), "monthly_votes_rank");
    assert_eq!(SortBy::TotalVotes.as_str(), "total_votes_rank");
    assert_eq!(SortBy::ServerCount.as_str(), "server_count_rank");
}

#[test]
fn test_sort_order_as_str() {
    assert_eq!(SortOrder::Ascending.as_str(), "asc");
    assert_eq!(SortOrder::Descending.as_str(), "desc");
}

#[test]
fn test_rankings_query_builder() {
    let query = RankingsQuery::new()
        .limit(100)
        .offset(50)
        .sort_by(SortBy::TotalVotes)
        .sort_order(SortOrder::Descending);

    assert_eq!(query.limit, Some(100));
    assert_eq!(query.offset, Some(50));
    assert_eq!(query.sort_by, SortBy::TotalVotes);
    assert_eq!(query.sort_order, SortOrder::Descending);
}

#[test]
fn test_rankings_query_validation() {
    let valid_query = RankingsQuery::new().limit(100);
    assert!(valid_query.validate().is_ok());

    let invalid_query_zero = RankingsQuery::new().limit(0);
    assert!(invalid_query_zero.validate().is_err());

    let invalid_query_too_large = RankingsQuery::new().limit(501);
    assert!(invalid_query_too_large.validate().is_err());
}

#[test]
fn test_defaults() {
    assert_eq!(SortBy::default(), SortBy::MonthlyVotes);
    assert_eq!(SortOrder::default(), SortOrder::Ascending);
}

fn point(monthly_votes: i64, total_votes: i64, change: Option<i64>) -> RecentDataPoint {
    RecentDataPoint {
        time: some_time(),
        monthly_votes,
        total_votes,
        server_count: None,
        review_count: None,
        monthly_votes_change: change,
        monthly_votes_change_perc: None,
        server_count_change: None,
        total_votes_change: None,
        review_count_change: None,
    }
}

#[test]
fn test_recent_data_response_helpers() {
    let response = RecentDataResponse {
        hourly_data: vec![point(100, 1000, Some(10)), point(90, 990, Some(5))],
        daily_data: vec![point(100, 1000, Some(50))],
    };

    assert_eq!(response.latest_hourly().unwrap().monthly_votes, 100);
    assert_eq!(response.latest_daily().unwrap().monthly_votes, 100);
    assert_eq!(response.total_hourly_votes_change(), 15);
    assert_eq!(response.total_daily_votes_change(), 50);
}

#[test]
fn test_empty_user_bots_response() {
    let response = UserBotsResponse { bots: vec![] };
    assert!(response.is_empty());
    assert_eq!(response.count(), 0);
    assert_eq!(response.total_monthly_votes(), 0);
}

#[test]
fn test_rate_limiter_basic() {
    let mut limiter = RateLimiter::new(10, 1_000_000_000);

    // Should be able to acquire 10 tokens
    for _ in 0..10 {
        assert!(limiter.try_acquire().is_none());
    }

    // 11th should require waiting
    assert!(limiter.try_acquire().is_some());
}

#[test]
fn test_rate_limiter_available_tokens() {
    let mut limiter = RateLimiter::new(10, 1_000_000_000);
    assert_eq!(limiter.available_tokens(), 10);

    limiter.try_acquire();
    assert_eq!(limiter.available_tokens(), 9);
}

#[test]
fn test_rate_limiter_manager_basic() {
    let mut manager = RateLimiterManager::new();

    // First request should succeed
    assert!(manager.check("test_endpoint").is_none());
}

#[test]
fn test_rate_limiter_manager_active_limit() {
    let mut manager = RateLimiterManager::new();

    // Record a rate limit
    manager.record_rate_limit("test_endpoint", 10_000_000_000);

    // Should return a wait time
    let wait = manager.check("test_endpoint");
    assert!(wait.is_some());
    assert!(wait.unwrap() <= 10_000_000_000);

    // Clear the limit
    manager.clear_rate_limit("test_endpoint");
}

#[test]
fn test_rate_limiter_refill() {
    let mut limiter = RateLimiter::new(10, 10_000_000_000);

    // Use all tokens
    for _ in 0..10 {
        limiter.try_acquire();
    }
    assert_eq!(limiter.available_tokens(), 0);
}
