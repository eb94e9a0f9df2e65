//! # `TopStats` Rust SDK
//!
//! A client library for the [TopStats.gg API](https://topstats.gg), which provides
//! statistics for Discord bots listed on Top.gg. This crate holds the parts of the
//! client that decide and compute: validating IDs and queries, building requests
//! and query strings, classifying API errors, deciding on retries after a rate
//! limit, and rate limiting with token buckets.

pub mod binary64;
pub mod client;
pub mod endpoints;
pub mod error;
pub mod http;
pub mod models;
pub mod rate_limiter;
pub mod string_map;
pub mod text;

use vstd::prelude::*;
use vstd::string::*;

verus! {

/// The default base URL for the `TopStats` API.
pub const DEFAULT_BASE_URL: &'static str = "https://api.topstats.gg";

/// The SDK version.
pub const VERSION: &'static str = "0.1.0";

/// The User-Agent string sent with requests.
pub open spec fn user_agent_text() -> Seq<char> {
    "topstats-rust-sdk/"@ + VERSION@ + " (https://github.com/top-stats/rust-sdk)"@
}

/// The User-Agent string sent with requests.
pub fn user_agent() -> (res: String)
    ensures
        res@ == user_agent_text(),
{
    let mut s = String::from_str("topstats-rust-sdk/");
    s.append(VERSION);
    s.append(" (https://github.com/top-stats/rust-sdk)");
    s
}

} // verus!
