use topstats::binary64::Binary64;
use topstats::client::{ApiCall, ClientBuilder, Step};
use topstats::endpoints::{build_rankings_params, build_search_params, validate_user_id};
use topstats::error::{ApiErrorResponse, Error};
use topstats::http::Request;
use topstats::models::bot::{snowflake_timestamp_millis, Bot, PartialBot, DISCORD_EPOCH};
use topstats::models::historical::{DataType, TimeFrame};
use topstats::models::rankings::{RankingsQuery, SortBy, SortOrder};
use topstats::models::recent::RecentDataResponse;
use topstats::models::timestamp::Timestamp;
use topstats::models::user::{UserBot, UserBotsResponse};
use topstats::rate_limiter::{RateLimiter, RateLimiterManager};
use topstats::string_map::StringMap;
use topstats::text::{bool_to_text, parse_u64, u64_to_decimal, ParseIntFailure};
use topstats::user_agent;

fn pairs(v: &[(&'static str, String)]) -> Vec<(String, String)> {
    v.iter().map(|(k, s)| (k.to_string(), s.clone())).collect()
}

fn owned(v: &[(&str, &str)]) -> Vec<(String, String)> {
    v.iter().map(|(k, s)| (k.to_string(), s.to_string())).collect()
}

fn client() -> topstats::client::Client<()> {
    ClientBuilder::new()
        .token("tok")
        .base_url("https://api.example")
        .build_with_client(())
        .unwrap()
}

#[test]
fn decimal_rendering() {
    assert_eq!(u64_to_decimal(0), "0");
    assert_eq!(u64_to_decimal(7), "7");
    assert_eq!(u64_to_decimal(12345), "12345");
    assert_eq!(u64_to_decimal(u64::MAX), "18446744073709551615");
    assert_eq!(bool_to_text(true), "true");
    assert_eq!(bool_to_text(false), "false");
}

#[test]
fn user_agent_text() {
    assert_eq!(
        user_agent(),
        "topstats-rust-sdk/0.1.0 (https://github.com/top-stats/rust-sdk)"
    );
}

#[test]
fn rankings_params_in_order() {
    assert_eq!(
        pairs(&build_rankings_params(&RankingsQuery::new())),
        owned(&[("sortBy", "monthly_votes_rank"), ("sortMethod", "asc")])
    );
    let q = RankingsQuery::new()
        .limit(25)
        .offset(100)
        .sort_by(SortBy::ServerCount)
        .sort_order(SortOrder::Descending);
    assert_eq!(
        pairs(&build_rankings_params(&q)),
        owned(&[
            ("sortBy", "server_count_rank"),
            ("sortMethod", "desc"),
            ("limit", "25"),
            ("offset", "100"),
        ])
    );
}

#[test]
fn search_params_in_order() {
    assert_eq!(
        pairs(&build_search_params("mudae", Some(10), None, Some(true))),
        owned(&[("query", "mudae"), ("limit", "10"), ("includeDeleted", "true")])
    );
    assert_eq!(
        pairs(&build_search_params("x", None, Some(0), Some(false))),
        owned(&[("query", "x"), ("offset", "0"), ("includeDeleted", "false")])
    );
    assert_eq!(pairs(&build_search_params("", None, None, None)), owned(&[("query", "")]));
}

#[test]
fn snowflake_validation_edges() {
    assert!(validate_user_id("10000000000000000").is_ok());
    assert!(validate_user_id("9999999999999999999").is_ok());
    assert!(validate_user_id("9999999999999999").is_err());
    assert!(validate_user_id("10000000000000000000").is_err());
    assert!(validate_user_id("4326102923425873a2").is_err());
    match validate_user_id("abc") {
        Err(Error::InvalidUserId(s)) => assert_eq!(s, "abc"),
        other => panic!("unexpected {:?}", other),
    }
    match topstats::endpoints::validate_bot_id("") {
        Err(Error::InvalidBotId(s)) => assert_eq!(s, ""),
        other => panic!("unexpected {:?}", other),
    }
    assert!(!Bot::validate_id(10_000_000_000_000_000_000));
    assert!(Bot::validate_id(9_999_999_999_999_999_999));
}

#[test]
fn query_string_on_the_wire() {
    let r = Request::get("https://x.example/y").query("q", "a b&é");
    assert_eq!(r.url_with_query(), "https://x.example/y?q=a%20b%26%C3%A9");
    let r = Request::get("https://x.example/y?k=1")
        .query("a", "1")
        .query("b", "2")
        .query("a", "3");
    assert_eq!(r.url_with_query(), "https://x.example/y?k=1&a=3&b=2");
    let r = Request::get("https://x.example/y");
    assert_eq!(r.url_with_query(), "https://x.example/y");
    let r = Request::post("https://x.example/p").body("{}");
    assert_eq!(r.body, Some("{}".to_string()));
}

#[test]
fn string_map_keeps_order_and_replaces_in_place() {
    let mut m: StringMap<u32> = StringMap::new();
    assert!(m.is_empty());
    m.insert("a".to_string(), 1);
    m.insert("b".to_string(), 2);
    m.insert("a".to_string(), 3);
    assert_eq!(m.len(), 2);
    assert_eq!(m.get("a"), Some(&3));
    let (k, v) = m.entry_at(0);
    assert_eq!((k.as_str(), *v), ("a", 3));
    assert_eq!(m.remove("a"), Some(3));
    assert_eq!(m.remove("a"), None);
    assert_eq!(m.get("b"), Some(&2));
    assert_eq!(m.len(), 1);
}

#[test]
fn prepared_bot_request() {
    let c = client();
    let req = c
        .prepare(&ApiCall::Bot { bot_id: "432610292342587392".to_string() })
        .unwrap();
    assert_eq!(req.url, "https://api.example/discord/bots/432610292342587392");
    assert_eq!(req.headers.get("Authorization"), Some(&"tok".to_string()));
    assert_eq!(req.headers.get("Content-Type"), Some(&"application/json".to_string()));
    assert_eq!(req.headers.get("User-Agent"), Some(&user_agent()));
    assert_eq!(req.query.len(), 0);
    assert_eq!(req.body, None);
}

#[test]
fn prepared_historical_request() {
    let c = client();
    let req = c
        .prepare(&ApiCall::BotHistorical {
            bot_id: "432610292342587392".to_string(),
            time_frame: TimeFrame::ThirtyDays,
            data_type: DataType::ServerCount,
        })
        .unwrap();
    assert_eq!(
        req.url_with_query(),
        "https://api.example/discord/bots/432610292342587392/historical?timeFrame=30d&type=server_count"
    );
}

#[test]
fn prepared_other_requests() {
    let c = client();
    let req = c
        .prepare(&ApiCall::CompareBotsHistorical {
            bot_ids: vec!["432610292342587392".to_string(), "646937666251915264".to_string()],
            time_frame: TimeFrame::OneDay,
            data_type: DataType::MonthlyVotes,
        })
        .unwrap();
    assert_eq!(
        req.url_with_query(),
        "https://api.example/discord/compare/historical/432610292342587392/646937666251915264?timeFrame=1d&type=monthly_votes"
    );
    let req = c
        .prepare(&ApiCall::SearchByTag {
            tag: "music".to_string(),
            limit: Some(5),
            offset: None,
            include_deleted: None,
        })
        .unwrap();
    assert_eq!(req.url_with_query(), "https://api.example/discord/tags?query=music&limit=5");
    let req = c
        .prepare(&ApiCall::Rankings { query: RankingsQuery::new().limit(10) })
        .unwrap();
    assert_eq!(
        req.url_with_query(),
        "https://api.example/discord/rankings/bots?sortBy=monthly_votes_rank&sortMethod=asc&limit=10"
    );
    let req = c
        .prepare(&ApiCall::UserBots { user_id: "205680187394752512".to_string() })
        .unwrap();
    assert_eq!(req.url, "https://api.example/discord/users/205680187394752512/bots");
    let req = c
        .prepare(&ApiCall::SearchBots {
            query: "top stats".to_string(),
            limit: None,
            offset: None,
            include_deleted: Some(false),
        })
        .unwrap();
    assert_eq!(
        req.url_with_query(),
        "https://api.example/search?query=top%20stats&includeDeleted=false"
    );
}

#[test]
fn refused_calls() {
    let c = client();
    match c.prepare(&ApiCall::CompareBots {
        bot_ids: vec![
            "432610292342587392".to_string(),
            "123".to_string(),
            "abc".to_string(),
        ],
    }) {
        Err(Error::InvalidBotId(s)) => assert_eq!(s, "123"),
        other => panic!("unexpected {:?}", other),
    }
    match c.prepare(&ApiCall::Rankings { query: RankingsQuery::new().limit(0) }) {
        Err(Error::InvalidInput(m)) => {
            assert_eq!(m, "Rankings limit must be between 1 and 500, got 0")
        }
        other => panic!("unexpected {:?}", other),
    }
    match c.prepare(&ApiCall::UserBots { user_id: "42".to_string() }) {
        Err(Error::InvalidBotId(s)) => assert_eq!(s, "42"),
        other => panic!("unexpected {:?}", other),
    }
    assert!(ClientBuilder::new().build_with_client(()).is_err());
}

fn api_error(code: u16, expires_in: Option<f64>) -> ApiErrorResponse {
    ApiErrorResponse {
        code,
        message: "msg".to_string(),
        expires_in: expires_in.map(|e| Binary64 { bits: e.to_bits() }),
    }
}

#[test]
fn api_error_classification() {
    let e: Error = api_error(429, Some(30.0)).into();
    assert!(e.is_rate_limited());
    assert_eq!(e.retry_after(), Some(Binary64 { bits: 30.0f64.to_bits() }));
    let e: Error = api_error(429, None).into();
    assert_eq!(e.retry_after(), Some(Binary64::zero()));
    let e: Error = api_error(404, None).into();
    assert!(e.is_not_found());
    let e: Error = api_error(403, None).into();
    assert!(matches!(e, Error::Forbidden { .. }));
    let e: Error = api_error(500, None).into();
    assert!(matches!(e, Error::Http { status: 500, .. }));
}

#[test]
fn retry_decision() {
    let c = client();
    let d = c.on_error_response(true, api_error(429, Some(2.5)), 3, true);
    assert_eq!(d.unwrap(), Binary64 { bits: 2.5f64.to_bits() });
    assert!(c.on_error_response(true, api_error(429, Some(2.5)), 0, true).unwrap_err().is_rate_limited());
    assert!(c.on_error_response(true, api_error(429, Some(60.0)), 3, false).is_err());
    assert!(c.on_error_response(true, api_error(429, None), 3, true).is_err());
    assert!(c.on_error_response(false, api_error(404, Some(1.0)), 3, true).unwrap_err().is_not_found());
    let no_retry = ClientBuilder::new().token("t").auto_retry(false).build_with_client(()).unwrap();
    assert!(no_retry.on_error_response(true, api_error(429, Some(1.0)), 3, true).is_err());
}

#[test]
fn snowflake_creation_time() {
    assert_eq!(DISCORD_EPOCH, 1_420_070_400_000);
    assert_eq!(snowflake_timestamp_millis(432_610_292_342_587_392), 1_523_212_731_205);
    assert_eq!(snowflake_timestamp_millis(0), DISCORD_EPOCH);
    let bot = PartialBot {
        id: 432_610_292_342_587_392,
        name: "Mudae".to_string(),
        monthly_votes: 0,
        total_votes: 0,
        server_count: None,
        review_count: None,
        monthly_votes_rank: 0,
        server_count_rank: None,
        total_votes_rank: 0,
    };
    assert_eq!(
        bot.created_at(),
        Some(Timestamp { secs: 1_523_212_731, nanos: 205_000_000 })
    );
    // Later snowflakes never encode an earlier time.
    assert!(snowflake_timestamp_millis(1 << 40) <= snowflake_timestamp_millis(1 << 41));
}

#[test]
fn bucket_with_explicit_times() {
    let mut l = RateLimiter::new(2, 1000);
    assert_eq!(l.available_tokens_at(0), 2);
    assert_eq!(l.try_acquire_at(0), None);
    assert_eq!(l.try_acquire_at(0), None);
    // Empty: one token is 1000 / 2 = 500 ns away.
    assert_eq!(l.try_acquire_at(0), Some(500));
    assert_eq!(l.try_acquire_at(100), Some(400));
    // After the wait, the token is there.
    assert_eq!(l.try_acquire_at(500), None);
    assert_eq!(l.available_tokens_at(500), 0);
    // The bucket never fills beyond its capacity.
    assert_eq!(l.available_tokens_at(1_000_000), 2);
    // A clock reading earlier than the last refill adds nothing.
    let mut l = RateLimiter::new(3, 10);
    assert_eq!(l.try_acquire_at(50), None);
    assert_eq!(l.available_tokens_at(40), 2);
}

#[test]
fn full_bucket_grants_exactly_its_capacity() {
    let mut l = RateLimiter::new(3, 900);
    for _ in 0..3 {
        assert_eq!(l.try_acquire_at(7), None);
    }
    assert_eq!(l.try_acquire_at(7), Some(300));
}

#[test]
fn manager_with_explicit_times() {
    let mut m = RateLimiterManager::new();
    m.record_rate_limit_at("/a", 100, 1000);
    assert_eq!(m.check_at("/a", 1050), Some(50));
    assert_eq!(m.check_at("/a", 1099), Some(1));
    // Other endpoints are not limited.
    assert_eq!(m.check_at("/b", 1050), None);
    // Once the limit runs out, the buckets decide.
    assert_eq!(m.check_at("/a", 1100), None);
    m.record_rate_limit_at("/a", 100, 2000);
    m.clear_rate_limit("/a");
    assert_eq!(m.check_at("/a", 2001), None);
    // Saturating end of a limit.
    m.record_rate_limit_at("/c", u64::MAX, 5);
    assert_eq!(m.check_at("/c", 5), Some(u64::MAX - 5));
}

#[test]
fn manager_endpoint_bucket_runs_out() {
    let mut m = RateLimiterManager::new();
    for _ in 0..60 {
        assert_eq!(m.check_at("/e", 0), None);
    }
    // The 61st request to the same endpoint waits one second (60 per minute).
    assert_eq!(m.check_at("/e", 0), Some(1_000_000_000));
    // The global bucket still has tokens for another endpoint.
    assert_eq!(m.check_at("/f", 0), None);
}

fn user_bot(monthly_votes: i64, total_votes: i64) -> UserBot {
    UserBot {
        id: 461_521_980_492_087_297,
        owners: vec![205_680_187_394_752_512],
        deleted: false,
        name: "Shiro".to_string(),
        avatar: None,
        short_description: "A multipurpose bot".to_string(),
        lib: None,
        prefix: "s!".to_string(),
        website: None,
        approved_at: None,
        monthly_votes,
        server_count: None,
        total_votes,
        monthly_votes_rank: 7556,
        server_count_rank: None,
        total_votes_rank: 282,
        timestamp: None,
        unix_timestamp: None,
    }
}

#[test]
fn user_bot_totals() {
    let r = UserBotsResponse { bots: vec![user_bot(3, 61387), user_bot(10, 500)] };
    assert_eq!(r.count(), 2);
    assert!(!r.is_empty());
    assert_eq!(r.total_monthly_votes(), 13);
    assert_eq!(r.total_votes(), 61887);
    assert_eq!(r.iter().count(), 2);
}

#[test]
fn empty_recent_data() {
    let r = RecentDataResponse { hourly_data: vec![], daily_data: vec![] };
    assert!(r.latest_hourly().is_none());
    assert!(r.latest_daily().is_none());
    assert_eq!(r.total_hourly_votes_change(), 0);
}

#[test]
fn parse_u64_reads_snowflakes() {
    assert_eq!(parse_u64("583807014896140293"), Ok(583_807_014_896_140_293));
    assert_eq!(parse_u64("0"), Ok(0));
    assert_eq!(parse_u64("007"), Ok(7));
    assert_eq!(parse_u64("+42"), Ok(42));
    assert_eq!(parse_u64("18446744073709551615"), Ok(u64::MAX));
}

#[test]
fn parse_u64_failures() {
    assert_eq!(parse_u64(""), Err(ParseIntFailure::Empty));
    assert_eq!(parse_u64("+"), Err(ParseIntFailure::InvalidDigit));
    assert_eq!(parse_u64("-"), Err(ParseIntFailure::InvalidDigit));
    assert_eq!(parse_u64("-5"), Err(ParseIntFailure::InvalidDigit));
    assert_eq!(parse_u64("12a"), Err(ParseIntFailure::InvalidDigit));
    assert_eq!(parse_u64(" 1"), Err(ParseIntFailure::InvalidDigit));
    assert_eq!(parse_u64("18446744073709551616"), Err(ParseIntFailure::PosOverflow));
    // Reading stops at the first digit that overflows, before the letter after it.
    assert_eq!(parse_u64("99999999999999999999x"), Err(ParseIntFailure::PosOverflow));
    assert_eq!(parse_u64("9x9999999999999999999"), Err(ParseIntFailure::InvalidDigit));
}

#[test]
fn parse_u64_agrees_with_std() {
    let cases = [
        "", "+", "-", "0", "+0", "++1", "1+", "12345678901234567890", "18446744073709551615",
        "18446744073709551616", "99999999999999999999x", "١٢", "abc", "432610292342587392",
    ];
    for case in cases {
        let ours = parse_u64(case);
        match case.parse::<u64>() {
            Ok(v) => assert_eq!(ours, Ok(v), "{case}"),
            Err(e) => {
                let failure = ours.expect_err(case);
                assert_eq!(failure.message(), e.to_string(), "{case}");
            }
        }
    }
}

#[test]
fn zero_retries_answers_like_no_auto_retry() {
    let zero = ClientBuilder::new().token("t").max_retries(0).build_with_client(()).unwrap();
    let off = ClientBuilder::new().token("t").auto_retry(false).build_with_client(()).unwrap();
    let first = zero.config().max_retries;
    let a = zero.on_error_response(true, api_error(429, Some(1.0)), first, true);
    let b = off.on_error_response(true, api_error(429, Some(1.0)), off.config().max_retries, true);
    match (a, b) {
        (
            Err(Error::RateLimited { retry_after: x, message: m }),
            Err(Error::RateLimited { retry_after: y, message: n }),
        ) => {
            assert_eq!(x, y);
            assert_eq!(m, n);
        }
        other => panic!("unexpected {other:?}"),
    }
}

#[test]
fn default_retry_threshold_is_five_seconds() {
    let config = topstats::client::ClientConfig::default();
    assert_eq!(f64::from_bits(config.max_delay_threshold.bits), 5.0);
    assert_eq!(config.max_retries, 3);
    assert!(config.auto_retry);
}

#[test]
fn retry_steps() {
    let c = client();
    assert!(matches!(c.retry_step(true, false, None, 3, false), Step::Done));
    match c.retry_step(false, true, Some(api_error(429, Some(2.0))), 3, true) {
        Step::Retry { delay, retries_remaining } => {
            assert_eq!(delay, Binary64 { bits: 2.0f64.to_bits() });
            assert_eq!(retries_remaining, 2);
        }
        other => panic!("unexpected {other:?}"),
    }
    assert!(matches!(
        c.retry_step(false, true, Some(api_error(429, Some(2.0))), 0, true),
        Step::Fail(Error::RateLimited { .. })
    ));
    assert!(matches!(
        c.retry_step(false, false, Some(api_error(404, None)), 3, true),
        Step::Fail(Error::NotFound { .. })
    ));
    // A request that starts with three retries is sent at most four times.
    let mut retries = 3;
    let mut sends = 0;
    loop {
        sends += 1;
        match c.retry_step(false, true, Some(api_error(429, Some(1.0))), retries, true) {
            Step::Retry { retries_remaining, .. } => retries = retries_remaining,
            _ => break,
        }
    }
    assert_eq!(sends, 4);
}

#[test]
fn decimal_text_round_trips() {
    for v in [0u64, 1, 9, 10, 99, 100, 583_807_014_896_140_293, u64::MAX - 1, u64::MAX] {
        assert_eq!(parse_u64(&u64_to_decimal(v)), Ok(v));
    }
    assert_eq!(parse_u64("not_a_number"), Err(ParseIntFailure::InvalidDigit));
}

#[test]
fn sixty_per_endpoint_within_a_short_time() {
    let mut m = RateLimiterManager::new();
    for i in 0..60u64 {
        assert_eq!(m.check_at("/e", i * 6_000_000), None);
    }
    let wait = m.check_at("/e", 400_000_000);
    assert!(matches!(wait, Some(d) if d > 0));
}

#[test]
fn one_hundred_twenty_in_all_within_a_short_time() {
    let mut m = RateLimiterManager::new();
    let mut granted = 0;
    for i in 0..300u64 {
        let endpoint = ["/a", "/b", "/c", "/d", "/e"][(i % 5) as usize];
        if m.check_at(endpoint, i * 1_000_000).is_none() {
            granted += 1;
        }
    }
    assert_eq!(granted, 120);
}

#[test]
fn manager_checks_on_the_clock() {
    let mut m = RateLimiterManager::new();
    let mut answers = Vec::new();
    for _ in 0..61 {
        let before = m.latest_reading();
        answers.push(m.check("/clock"));
        // The manager's time never goes back.
        assert!(m.latest_reading() >= before);
    }
    if m.latest_reading() <= 400_000_000 {
        assert!(answers[..60].iter().all(Option::is_none));
        assert!(matches!(answers[60], Some(d) if d > 0));
    }
}

#[test]
fn limiter_time_never_goes_back() {
    let mut l = RateLimiter::new(1, 1_000_000_000);
    assert_eq!(l.try_acquire_at(5_000_000_000_000), None);
    // The clock reads far less than the last refill; the limiter keeps its time.
    let wait = l.try_acquire();
    assert!(matches!(wait, Some(w) if w > 0));
    assert_eq!(l.available_tokens(), 0);
}
