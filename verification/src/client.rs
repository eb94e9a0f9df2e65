//! The client for the `TopStats` API: its configuration, the requests it makes for
//! each endpoint, and its answer to a failed response.
//!
//! Sending requests and sleeping between attempts are left to the caller; this
//! module decides what is sent and what a response leads to.

use crate::binary64::Binary64;
use crate::endpoints::{
    build_rankings_params, build_search_params, is_snowflake_text, params_view,
    rankings_params, search_params, validate_bot_id,
};
use crate::error::{api_error, ApiErrorResponse, Error};
use crate::http::{text_pairs, Method, Request};
use crate::models::historical::{DataType, TimeFrame};
use crate::models::rankings::{limit_in_range, limit_message, RankingsQuery};
use crate::string_map::{has_key, keys_unique, pairs_insert};
use crate::{user_agent, user_agent_text, DEFAULT_BASE_URL};
use std::sync::Arc;
use vstd::prelude::*;
use vstd::string::*;

verus! {

/// Default maximum delay threshold before returning an error: the bit pattern of
/// five seconds.
pub const MAX_DELAY_THRESHOLD_BITS: u64 = 0x4014_0000_0000_0000;

/// Default maximum number of retry attempts for rate-limited requests.
pub const DEFAULT_MAX_RETRIES: u32 = 3;

/// Configuration options for the `TopStats` client.
#[derive(Debug, Clone)]
pub struct ClientConfig {
    /// API token for authentication.
    pub token: String,
    /// Base URL for the API.
    pub base_url: String,
    /// Whether to enable automatic rate limit handling.
    pub auto_retry: bool,
    /// Maximum delay threshold before throwing an error (in seconds).
    pub max_delay_threshold: Binary64,
    /// Maximum number of retry attempts for rate-limited requests.
    pub max_retries: u32,
}

/// The default configuration: no token, the public API, automatic retries after
/// rate limits of at most five seconds, three retries.
pub open spec fn default_config(c: ClientConfig) -> bool {
    &&& c.token@ == Seq::<char>::empty()
    &&& c.base_url@ == DEFAULT_BASE_URL@
    &&& c.auto_retry
    &&& c.max_delay_threshold == Binary64 { bits: MAX_DELAY_THRESHOLD_BITS }
    &&& c.max_retries == DEFAULT_MAX_RETRIES
}

impl Default for ClientConfig {
    fn default() -> (res: Self)
        ensures
            default_config(res),
    {
        ClientConfig {
            token: String::new(),
            base_url: String::from_str(DEFAULT_BASE_URL),
            auto_retry: true,
            max_delay_threshold: Binary64 { bits: MAX_DELAY_THRESHOLD_BITS },
            max_retries: DEFAULT_MAX_RETRIES,
        }
    }
}

/// Builder for creating a [`Client`].
#[derive(Debug)]
pub struct ClientBuilder {
    config: ClientConfig,
}

impl ClientBuilder {
    /// The configuration gathered so far.
    pub closed spec fn spec_config(self) -> ClientConfig {
        self.config
    }

    /// Creates a new client builder.
    pub fn new() -> (res: Self)
        ensures
            default_config(res.spec_config()),
    {
        ClientBuilder { config: ClientConfig::default() }
    }

    /// Sets the API token.
    pub fn token(self, token: &str) -> (res: Self)
        ensures
            res.spec_config().token@ == token@,
            res.spec_config().base_url == self.spec_config().base_url,
            res.spec_config().auto_retry == self.spec_config().auto_retry,
            res.spec_config().max_delay_threshold == self.spec_config().max_delay_threshold,
            res.spec_config().max_retries == self.spec_config().max_retries,
    {
        let mut res = self;
        res.config.token = String::from_str(token);
        res
    }

    /// Sets the base URL for the API.
    pub fn base_url(self, base_url: &str) -> (res: Self)
        ensures
            res.spec_config().base_url@ == base_url@,
            res.spec_config().token == self.spec_config().token,
            res.spec_config().auto_retry == self.spec_config().auto_retry,
            res.spec_config().max_delay_threshold == self.spec_config().max_delay_threshold,
            res.spec_config().max_retries == self.spec_config().max_retries,
    {
        let mut res = self;
        res.config.base_url = String::from_str(base_url);
        res
    }

    /// Enables or disables automatic rate limit handling.
    pub fn auto_retry(self, enabled: bool) -> (res: Self)
        ensures
            res.spec_config() == (ClientConfig { auto_retry: enabled, ..self.spec_config() }),
    {
        let mut res = self;
        res.config.auto_retry = enabled;
        res
    }

    /// Sets the maximum delay threshold before throwing an error.
    pub fn max_delay_threshold(self, seconds: Binary64) -> (res: Self)
        ensures
            res.spec_config() == (ClientConfig {
                max_delay_threshold: seconds,
                ..self.spec_config()
            }),
    {
        let mut res = self;
        res.config.max_delay_threshold = seconds;
        res
    }

    /// Sets the maximum number of retry attempts for rate-limited requests.
    ///
    /// Default is 3. Set to 0 to disable retries entirely (equivalent to `auto_retry(false)`).
    pub fn max_retries(self, retries: u32) -> (res: Self)
        ensures
            res.spec_config() == (ClientConfig { max_retries: retries, ..self.spec_config() }),
    {
        let mut res = self;
        res.config.max_retries = retries;
        res
    }

    /// Builds the client with a custom HTTP client.
    ///
    /// # Errors
    ///
    /// Returns an error if the token is empty.
    pub fn build_with_client<H>(self, http_client: H) -> (res: Result<Client<H>, Error>)
        ensures
            res is Err <==> self.spec_config().token@.len() == 0,
            res matches Err(e) ==> e is InvalidToken,
            res matches Ok(c) ==> c.spec_config() == self.spec_config() && c.spec_http_client()
                == http_client,
    {
        if self.config.token.as_str().unicode_len() == 0 {
            return Err(Error::InvalidToken);
        }
        Ok(Client { config: self.config, http_client: Arc::new(http_client) })
    }
}

impl Default for ClientBuilder {
    fn default() -> (res: Self)
        ensures
            default_config(res.spec_config()),
    {
        ClientBuilder::new()
    }
}

/// The main client for interacting with the `TopStats` API.
///
/// It holds the configuration and a shared HTTP client; the endpoint calls are made
/// by the caller with the requests that [`Client::prepare`] builds.
#[derive(Debug)]
pub struct Client<H> {
    config: ClientConfig,
    http_client: Arc<H>,
}

/// `Arc::clone`: another handle to the same HTTP client.
#[verifier::external_body]
fn share<H>(arc: &Arc<H>) -> (res: Arc<H>)
    ensures
        res == *arc,
{
    Arc::clone(arc)
}

impl<H> Clone for Client<H> {
    fn clone(&self) -> (res: Self)
        ensures
            res.spec_http_client() == self.spec_http_client(),
            res.spec_config().token@ == self.spec_config().token@,
            res.spec_config().base_url@ == self.spec_config().base_url@,
            res.spec_config().auto_retry == self.spec_config().auto_retry,
            res.spec_config().max_delay_threshold == self.spec_config().max_delay_threshold,
            res.spec_config().max_retries == self.spec_config().max_retries,
    {
        Client {
            config: ClientConfig {
                token: self.config.token.clone(),
                base_url: self.config.base_url.clone(),
                auto_retry: self.config.auto_retry,
                max_delay_threshold: self.config.max_delay_threshold,
                max_retries: self.config.max_retries,
            },
            http_client: share(&self.http_client),
        }
    }
}

/// One call of the `TopStats` API with its arguments.
#[derive(Debug, Clone)]
#[allow(inconsistent_fields)]
pub enum ApiCall {
    /// Information about a bot.
    Bot { bot_id: String },
    /// Historical data for a bot.
    BotHistorical { bot_id: String, time_frame: TimeFrame, data_type: DataType },
    /// Recent statistics for a bot.
    BotRecent { bot_id: String },
    /// The bot rankings.
    Rankings { query: RankingsQuery },
    /// A search for bots by name.
    SearchBots {
        query: String,
        limit: Option<u32>,
        offset: Option<u32>,
        include_deleted: Option<bool>,
    },
    /// A search for bots by tag.
    SearchByTag {
        tag: String,
        limit: Option<u32>,
        offset: Option<u32>,
        include_deleted: Option<bool>,
    },
    /// A comparison of one or more bots.
    CompareBots { bot_ids: Vec<String> },
    /// A comparison of historical data of one or more bots.
    CompareBotsHistorical { bot_ids: Vec<String>, time_frame: TimeFrame, data_type: DataType },
    /// All bots owned by a user (user IDs are snowflakes too).
    UserBots { user_id: String },
}

/// Texts joined with a separator.
pub open spec fn seq_join(parts: Seq<Seq<char>>, sep: Seq<char>) -> Seq<char>
    decreases parts.len(),
{
    if parts.len() == 0 {
        Seq::empty()
    } else if parts.len() == 1 {
        parts[0]
    } else {
        seq_join(parts.drop_last(), sep) + sep + parts.last()
    }
}

/// Strings by their text.
pub open spec fn texts(strings: Seq<String>) -> Seq<Seq<char>> {
    strings.map_values(|s: String| s@)
}

/// The path of the endpoint that a call goes to.
pub open spec fn call_path(call: ApiCall) -> Seq<char> {
    match call {
        ApiCall::Bot { bot_id } => "/discord/bots/"@ + bot_id@,
        ApiCall::BotHistorical { bot_id, .. } => "/discord/bots/"@ + bot_id@ + "/historical"@,
        ApiCall::BotRecent { bot_id } => "/discord/bots/"@ + bot_id@ + "/recent"@,
        ApiCall::Rankings { .. } => "/discord/rankings/bots"@,
        ApiCall::SearchBots { .. } => "/search"@,
        ApiCall::SearchByTag { .. } => "/discord/tags"@,
        ApiCall::CompareBots { bot_ids } => "/discord/compare/"@ + seq_join(
            texts(bot_ids@),
            "/"@,
        ),
        ApiCall::CompareBotsHistorical { bot_ids, .. } => "/discord/compare/historical/"@
            + seq_join(texts(bot_ids@), "/"@),
        ApiCall::UserBots { user_id } => "/discord/users/"@ + user_id@ + "/bots"@,
    }
}

/// Each call goes to its own endpoint under the base URL: a bot's information to
/// `/discord/bots/{id}`, its historical data to `/discord/bots/{id}/historical`, its
/// recent statistics to `/discord/bots/{id}/recent`, the rankings to
/// `/discord/rankings/bots`, a search by name to `/search`, a search by tag to
/// `/discord/tags`, a comparison to `/discord/compare/{ids}` and a historical one to
/// `/discord/compare/historical/{ids}` (the IDs joined with `/`), and a user's bots
/// to `/discord/users/{id}/bots`.
pub proof fn law_endpoint_paths(call: ApiCall)
    ensures
        call matches ApiCall::Bot { bot_id } ==> call_path(call) == "/discord/bots/"@ + bot_id@,
        call matches ApiCall::BotHistorical { bot_id, .. } ==> call_path(call) == "/discord/bots/"@
            + bot_id@ + "/historical"@,
        call matches ApiCall::BotRecent { bot_id } ==> call_path(call) == "/discord/bots/"@
            + bot_id@ + "/recent"@,
        call is Rankings ==> call_path(call) == "/discord/rankings/bots"@,
        call is SearchBots ==> call_path(call) == "/search"@,
        call is SearchByTag ==> call_path(call) == "/discord/tags"@,
        call matches ApiCall::CompareBots { bot_ids } ==> call_path(call) == "/discord/compare/"@
            + seq_join(texts(bot_ids@), "/"@),
        call matches ApiCall::CompareBotsHistorical { bot_ids, .. } ==> call_path(call)
            == "/discord/compare/historical/"@ + seq_join(texts(bot_ids@), "/"@),
        call matches ApiCall::UserBots { user_id } ==> call_path(call) == "/discord/users/"@
            + user_id@ + "/bots"@,
{
}

/// The time frame and data type parameters of a historical call.
pub open spec fn historical_params(time_frame: TimeFrame, data_type: DataType) -> Seq<
    (Seq<char>, Seq<char>),
> {
    seq![("timeFrame"@, time_frame.text()), ("type"@, data_type.text())]
}

/// The query parameters of a call.
pub open spec fn call_params(call: ApiCall) -> Seq<(Seq<char>, Seq<char>)> {
    match call {
        ApiCall::BotHistorical { time_frame, data_type, .. } => historical_params(
            time_frame,
            data_type,
        ),
        ApiCall::CompareBotsHistorical { time_frame, data_type, .. } => historical_params(
            time_frame,
            data_type,
        ),
        ApiCall::Rankings { query } => rankings_params(query),
        ApiCall::SearchBots { query, limit, offset, include_deleted } => search_params(
            query@,
            limit,
            offset,
            include_deleted,
        ),
        ApiCall::SearchByTag { tag, limit, offset, include_deleted } => search_params(
            tag@,
            limit,
            offset,
            include_deleted,
        ),
        _ => Seq::empty(),
    }
}

/// The IDs that a call checks before anything is sent, in order.
pub open spec fn call_ids(call: ApiCall) -> Seq<Seq<char>> {
    match call {
        ApiCall::Bot { bot_id } => seq![bot_id@],
        ApiCall::BotHistorical { bot_id, .. } => seq![bot_id@],
        ApiCall::BotRecent { bot_id } => seq![bot_id@],
        ApiCall::CompareBots { bot_ids } => texts(bot_ids@),
        ApiCall::CompareBotsHistorical { bot_ids, .. } => texts(bot_ids@),
        ApiCall::UserBots { user_id } => seq![user_id@],
        _ => Seq::empty(),
    }
}

/// A call is sent when all its IDs are snowflakes and, for rankings, the limit lies
/// between 1 and 500.
pub open spec fn call_valid(call: ApiCall) -> bool {
    &&& forall|i: int| 0 <= i < call_ids(call).len() ==> is_snowflake_text(#[trigger] call_ids(call)[i])
    &&& (call matches ApiCall::Rankings { query } ==> limit_in_range(query.limit))
}

/// The error with which a call is refused: the limit message for rankings, else the
/// first ID that is not a snowflake.
pub open spec fn refusal(call: ApiCall, e: Error) -> bool {
    match call {
        ApiCall::Rankings { query } => e matches Error::InvalidInput(m) && m@ == limit_message(
            query.limit->0,
        ),
        _ => e matches Error::InvalidBotId(s) && exists|k: int|
            0 <= k < call_ids(call).len() && s@ == #[trigger] call_ids(call)[k]
                && !is_snowflake_text(call_ids(call)[k]) && forall|j: int|
                0 <= j < k ==> is_snowflake_text(#[trigger] call_ids(call)[j]),
    }
}

/// The headers of every request: the token, the content type and the user agent.
pub open spec fn standard_headers(token: Seq<char>) -> Seq<(Seq<char>, Seq<char>)> {
    seq![
        ("Authorization"@, token),
        ("Content-Type"@, "application/json"@),
        ("User-Agent"@, user_agent_text()),
    ]
}

/// Parameters inserted one after the other into a parameter map.
pub open spec fn insert_all(
    pairs: Seq<(Seq<char>, Seq<char>)>,
    params: Seq<(Seq<char>, Seq<char>)>,
) -> Seq<(Seq<char>, Seq<char>)>
    decreases params.len(),
{
    if params.len() == 0 {
        pairs
    } else {
        pairs_insert(insert_all(pairs, params.drop_last()), params.last().0, params.last().1)
    }
}

/// Inserting parameters with distinct names into an empty map keeps them all, in order.
pub proof fn lemma_insert_all_distinct(params: Seq<(Seq<char>, Seq<char>)>)
    requires
        keys_unique(params),
    ensures
        insert_all(Seq::empty(), params) == params,
    decreases params.len(),
{
    if params.len() > 0 {
        let init = params.drop_last();
        assert(keys_unique(init)) by {
            assert forall|a: int, b: int|
                0 <= a < init.len() && 0 <= b < init.len() && a != b implies #[trigger] init[a].0
                != #[trigger] init[b].0 by {
                assert(init[a] == params[a]);
                assert(init[b] == params[b]);
            }
        }
        lemma_insert_all_distinct(init);
        let k = params.last().0;
        if has_key(init, k) {
            let i = choose|i: int| 0 <= i < init.len() && #[trigger] init[i].0 == k;
            assert(params[i].0 == params[params.len() - 1].0);
        }
        assert(init.push(params.last()) =~= params);
    }
}

/// A request that a client with token `token` and base URL `base` sends to `path`
/// with the query parameters `params`.
pub open spec fn is_request_for(
    req: Request,
    base: Seq<char>,
    token: Seq<char>,
    path: Seq<char>,
    params: Seq<(Seq<char>, Seq<char>)>,
) -> bool {
    &&& req.method == Method::Get
    &&& req.url@ == base + path
    &&& text_pairs(req.query.pairs()) == params
    &&& text_pairs(req.headers.pairs()) == standard_headers(token)
    &&& req.body is None
}

impl<H> Client<H> {
    /// The client's configuration.
    pub closed spec fn spec_config(self) -> ClientConfig {
        self.config
    }

    /// The client's HTTP client.
    pub closed spec fn spec_http_client(self) -> H {
        *self.http_client
    }

    /// Returns the current configuration.
    pub fn config(&self) -> (res: &ClientConfig)
        ensures
            *res == self.spec_config(),
    {
        &self.config
    }

    /// The HTTP client that sends the requests.
    pub fn http_client(&self) -> (res: &Arc<H>)
        ensures
            **res == self.spec_http_client(),
    {
        &self.http_client
    }

    /// Builds the authenticated GET request for `endpoint` with the query parameters
    /// `params`, inserted in order.
    pub fn build_request(&self, endpoint: &str, params: &Vec<(&'static str, String)>) -> (res:
        Request)
        ensures
            res.method == Method::Get,
            res.url@ == self.spec_config().base_url@ + endpoint@,
            text_pairs(res.query.pairs()) == insert_all(Seq::empty(), params_view(params@)),
            text_pairs(res.headers.pairs()) == standard_headers(self.spec_config().token@),
            res.body is None,
    {
        let mut url = self.config.base_url.clone();
        url.append(endpoint);
        let ua = user_agent();
        let base = Request::get(url.as_str());
        proof {
            assert(text_pairs(base.headers.pairs()) =~= Seq::<(Seq<char>, Seq<char>)>::empty());
            lemma_standard_headers_distinct(self.config.token@);
        }
        let r1 = base.header("Authorization", self.config.token.as_str());
        let ghost h = standard_headers(self.config.token@);
        proof {
            assert(text_pairs(r1.headers.pairs()) =~= h.take(1));
        }
        let r2 = r1.header("Content-Type", "application/json");
        proof {
            assert(h.take(1)[0].0 != h[1].0);
            assert(!has_key(h.take(1), "Content-Type"@));
            assert(text_pairs(r2.headers.pairs()) =~= h.take(2));
        }
        let mut request = r2.header("User-Agent", ua.as_str());
        proof {
            assert(!has_key(h.take(2), "User-Agent"@)) by {
                assert forall|i: int| 0 <= i < 2 implies #[trigger] h.take(2)[i].0
                    != "User-Agent"@ by {
                    assert(h[i].0 != h[2].0);
                }
            }
            assert(text_pairs(request.headers.pairs()) =~= h);
        }
        let ghost pv = params_view(params@);
        let n = params.len();
        let mut i: usize = 0;
        assert(pv.take(0) =~= Seq::<(Seq<char>, Seq<char>)>::empty());
        while i < n
            invariant
                n == params@.len(),
                pv == params_view(params@),
                i <= n,
                request.method == Method::Get,
                request.url@ == self.spec_config().base_url@ + endpoint@,
                text_pairs(request.query.pairs()) == insert_all(Seq::empty(), pv.take(i as int)),
                text_pairs(request.headers.pairs()) == standard_headers(self.spec_config().token@),
                request.body is None,
            decreases n - i,
        {
            let p = &params[i];
            request = request.query(p.0, p.1.as_str());
            proof {
                assert(pv.take((i + 1) as int).drop_last() =~= pv.take(i as int));
                assert(pv.take((i + 1) as int).last() == pv[i as int]);
            }
            i = i + 1;
        }
        assert(pv.take(n as int) =~= pv);
        request
    }

    /// The request that a call sends, or the error with which it is refused before
    /// anything is sent.
    ///
    /// # Errors
    ///
    /// Returns an error if an ID is not a snowflake or the rankings query is invalid.
    pub fn prepare(&self, call: &ApiCall) -> (res: Result<Request, Error>)
        ensures
            res is Ok <==> call_valid(*call),
            res matches Ok(req) ==> is_request_for(
                req,
                self.spec_config().base_url@,
                self.spec_config().token@,
                call_path(*call),
                call_params(*call),
            ),
            res matches Err(e) ==> refusal(*call, e),
    {
        match call {
            ApiCall::Bot { bot_id } => {
                let checked = validate_bot_id(bot_id.as_str());
                assert(call_ids(*call)[0] == bot_id@);
                if let Err(e) = checked {
                    return Err(e);
                }
                let path = concat2("/discord/bots/", bot_id.as_str());
                Ok(self.request_with_params(path.as_str(), &no_params(), Ghost(Seq::empty())))
            },
            ApiCall::BotHistorical { bot_id, time_frame, data_type } => {
                let checked = validate_bot_id(bot_id.as_str());
                assert(call_ids(*call)[0] == bot_id@);
                if let Err(e) = checked {
                    return Err(e);
                }
                let mut path = concat2("/discord/bots/", bot_id.as_str());
                path.append("/historical");
                let params = historical_query(*time_frame, *data_type);
                Ok(
                    self.request_with_params(
                        path.as_str(),
                        &params,
                        Ghost(historical_params(*time_frame, *data_type)),
                    ),
                )
            },
            ApiCall::BotRecent { bot_id } => {
                let checked = validate_bot_id(bot_id.as_str());
                assert(call_ids(*call)[0] == bot_id@);
                if let Err(e) = checked {
                    return Err(e);
                }
                let mut path = concat2("/discord/bots/", bot_id.as_str());
                path.append("/recent");
                Ok(self.request_with_params(path.as_str(), &no_params(), Ghost(Seq::empty())))
            },
            ApiCall::Rankings { query } => {
                if let Err(e) = query.validate() {
                    return Err(e);
                }
                let params = build_rankings_params(query);
                proof {
                    lemma_rankings_params_distinct(*query);
                }
                Ok(
                    self.request_with_params(
                        "/discord/rankings/bots",
                        &params,
                        Ghost(rankings_params(*query)),
                    ),
                )
            },
            ApiCall::SearchBots { query, limit, offset, include_deleted } => {
                let params = build_search_params(
                    query.as_str(),
                    *limit,
                    *offset,
                    *include_deleted,
                );
                proof {
                    lemma_search_params_distinct(query@, *limit, *offset, *include_deleted);
                }
                Ok(
                    self.request_with_params(
                        "/search",
                        &params,
                        Ghost(search_params(query@, *limit, *offset, *include_deleted)),
                    ),
                )
            },
            ApiCall::SearchByTag { tag, limit, offset, include_deleted } => {
                let params = build_search_params(tag.as_str(), *limit, *offset, *include_deleted);
                proof {
                    lemma_search_params_distinct(tag@, *limit, *offset, *include_deleted);
                }
                Ok(
                    self.request_with_params(
                        "/discord/tags",
                        &params,
                        Ghost(search_params(tag@, *limit, *offset, *include_deleted)),
                    ),
                )
            },
            ApiCall::CompareBots { bot_ids } => {
                let checked = validate_all(bot_ids);
                assert(call_ids(*call) == texts(bot_ids@));
                if let Err(e) = checked {
                    return Err(e);
                }
                let joined = join_ids(bot_ids);
                let path = concat2("/discord/compare/", joined.as_str());
                Ok(self.request_with_params(path.as_str(), &no_params(), Ghost(Seq::empty())))
            },
            ApiCall::CompareBotsHistorical { bot_ids, time_frame, data_type } => {
                let checked = validate_all(bot_ids);
                assert(call_ids(*call) == texts(bot_ids@));
                if let Err(e) = checked {
                    return Err(e);
                }
                let joined = join_ids(bot_ids);
                let path = concat2("/discord/compare/historical/", joined.as_str());
                let params = historical_query(*time_frame, *data_type);
                Ok(
                    self.request_with_params(
                        path.as_str(),
                        &params,
                        Ghost(historical_params(*time_frame, *data_type)),
                    ),
                )
            },
            ApiCall::UserBots { user_id } => {
                let checked = validate_bot_id(user_id.as_str());
                assert(call_ids(*call)[0] == user_id@);
                if let Err(e) = checked {
                    return Err(e);
                }
                let mut path = concat2("/discord/users/", user_id.as_str());
                path.append("/bots");
                Ok(self.request_with_params(path.as_str(), &no_params(), Ghost(Seq::empty())))
            },
        }
    }

    /// [`Client::build_request`] for parameters with distinct names.
    fn request_with_params(
        &self,
        endpoint: &str,
        params: &Vec<(&'static str, String)>,
        Ghost(expected): Ghost<Seq<(Seq<char>, Seq<char>)>>,
    ) -> (res: Request)
        requires
            params_view(params@) == expected,
            keys_unique(expected),
        ensures
            is_request_for(
                res,
                self.spec_config().base_url@,
                self.spec_config().token@,
                endpoint@,
                expected,
            ),
    {
        proof {
            lemma_insert_all_distinct(expected);
        }
        self.build_request(endpoint, params)
    }

    /// What a failed response leads to: a retry after the delay that the API gives, or
    /// the error that the response stands for.
    ///
    /// The client retries when the response is a rate limit (`rate_limited`), the API
    /// gives a delay, automatic retries are enabled, retries remain, and the delay is
    /// within the configured threshold (`delay_acceptable`, which the caller works out
    /// from the delay and [`ClientConfig::max_delay_threshold`]). Each retry is made
    /// with one retry less remaining, so a request is sent at most
    /// `max_retries + 1` times.
    pub fn on_error_response(
        &self,
        rate_limited: bool,
        error: ApiErrorResponse,
        retries_remaining: u32,
        delay_acceptable: bool,
    ) -> (res: Result<Binary64, Error>)
        ensures
            res == retry_decision(
                self.spec_config(),
                rate_limited,
                error,
                retries_remaining,
                delay_acceptable,
            ),
    {
        if rate_limited && self.config.auto_retry && retries_remaining > 0 && delay_acceptable {
            if let Some(expires_in) = error.expires_in {
                return Ok(expires_in);
            }
        }
        Err(Error::from(error))
    }

    /// The step that follows a response: a successful response is the answer;
    /// after a failed one, whose API error is `error`, the request is retried with
    /// one retry less, or the call fails, as [`retry_decision`] says. Since every
    /// retry leaves one retry less, a request that starts with `n` retries is sent
    /// at most `n + 1` times.
    pub fn retry_step(
        &self,
        success: bool,
        rate_limited: bool,
        error: Option<ApiErrorResponse>,
        retries_remaining: u32,
        delay_acceptable: bool,
    ) -> (res: Step)
        requires
            success || error is Some,
        ensures
            success ==> res is Done,
            !success ==> match retry_decision(
                self.spec_config(),
                rate_limited,
                error->0,
                retries_remaining,
                delay_acceptable,
            ) {
                Ok(d) => res == (Step::Retry { delay: d, retries_remaining: (retries_remaining - 1) as u32 }),
                Err(e) => res == Step::Fail(e),
            },
            res matches Step::Retry { retries_remaining: r, .. } ==> r + 1 == retries_remaining,
    {
        if success {
            return Step::Done;
        }
        let error = error.unwrap();
        match self.on_error_response(rate_limited, error, retries_remaining, delay_acceptable) {
            Ok(delay) => Step::Retry { delay, retries_remaining: retries_remaining - 1 },
            Err(err) => Step::Fail(err),
        }
    }
}

/// What a failed response leads to under the configuration `config`: a retry after
/// the response's delay when the response is a rate limit that gives a delay,
/// automatic retries are enabled, retries remain and the delay is acceptable;
/// otherwise the error that the response stands for.
pub open spec fn retry_decision(
    config: ClientConfig,
    rate_limited: bool,
    error: ApiErrorResponse,
    retries_remaining: u32,
    delay_acceptable: bool,
) -> Result<Binary64, Error> {
    if rate_limited && error.expires_in is Some && config.auto_retry && retries_remaining > 0
        && delay_acceptable {
        Ok(error.expires_in->0)
    } else {
        Err(api_error(error))
    }
}

/// Setting the number of retries to zero disables retries entirely, as disabling
/// automatic retries does: a client's first request, which has all its configured
/// retries remaining, is answered alike under either setting, with the error that
/// the response stands for.
pub proof fn law_zero_retries_is_no_auto_retry(
    config: ClientConfig,
    rate_limited: bool,
    error: ApiErrorResponse,
    delay_acceptable: bool,
)
    ensures
        retry_decision(
            ClientConfig { max_retries: 0, ..config },
            rate_limited,
            error,
            0,
            delay_acceptable,
        ) == retry_decision(
            ClientConfig { auto_retry: false, ..config },
            rate_limited,
            error,
            config.max_retries,
            delay_acceptable,
        ),
        retry_decision(
            ClientConfig { max_retries: 0, ..config },
            rate_limited,
            error,
            0,
            delay_acceptable,
        ) == Err::<Binary64, Error>(api_error(error)),
{
}

/// A retry is only ever decided with retries remaining, so a request that starts
/// with `n` retries is retried at most `n` times.
pub proof fn law_retry_needs_retries_left(
    config: ClientConfig,
    rate_limited: bool,
    error: ApiErrorResponse,
    retries_remaining: u32,
    delay_acceptable: bool,
)
    ensures
        retry_decision(config, rate_limited, error, retries_remaining, delay_acceptable) is Ok
            ==> retries_remaining > 0 && rate_limited && config.auto_retry,
        retry_decision(config, rate_limited, error, retries_remaining, delay_acceptable) matches Ok(
            d,
        ) ==> error.expires_in == Some(d),
{
}

/// What the client does after a response.
#[derive(Debug)]
pub enum Step {
    /// The request succeeded: the response is the answer.
    Done,
    /// The request is sent again after `delay` seconds, with `retries_remaining`
    /// retries left.
    Retry { delay: Binary64, retries_remaining: u32 },
    /// The call fails with this error.
    Fail(Error),
}

/// An empty parameter list.
fn no_params() -> (res: Vec<(&'static str, String)>)
    ensures
        params_view(res@) == Seq::<(Seq<char>, Seq<char>)>::empty(),
{
    let res: Vec<(&'static str, String)> = Vec::new();
    assert(params_view(res@) =~= Seq::<(Seq<char>, Seq<char>)>::empty());
    res
}

/// The concatenation of two texts.
fn concat2(a: &str, b: &str) -> (res: String)
    ensures
        res@ == a@ + b@,
{
    let mut s = String::from_str(a);
    s.append(b);
    s
}

/// The time frame and data type parameters.
fn historical_query(time_frame: TimeFrame, data_type: DataType) -> (res: Vec<
    (&'static str, String),
>)
    ensures
        params_view(res@) == historical_params(time_frame, data_type),
        keys_unique(historical_params(time_frame, data_type)),
{
    let mut params: Vec<(&'static str, String)> = Vec::new();
    params.push(("timeFrame", String::from_str(time_frame.as_str())));
    params.push(("type", String::from_str(data_type.as_str())));
    proof {
        reveal_strlit("timeFrame");
        reveal_strlit("type");
        assert(params_view(params@) =~= historical_params(time_frame, data_type));
        assert("timeFrame"@.len() == 9);
        assert("type"@.len() == 4);
    }
    params
}

/// Checks each ID in order; the first one that is not a snowflake is the error.
fn validate_all(ids: &Vec<String>) -> (res: Result<(), Error>)
    ensures
        res is Ok <==> forall|i: int| 0 <= i < ids@.len() ==> is_snowflake_text(#[trigger] texts(ids@)[i]),
        res matches Err(e) ==> e matches Error::InvalidBotId(s) && exists|k: int|
            0 <= k < ids@.len() && s@ == #[trigger] texts(ids@)[k] && !is_snowflake_text(
                texts(ids@)[k],
            ) && forall|j: int| 0 <= j < k ==> is_snowflake_text(#[trigger] texts(ids@)[j]),
{
    let n = ids.len();
    let mut i: usize = 0;
    while i < n
        invariant
            n == ids@.len(),
            i <= n,
            forall|j: int| 0 <= j < i ==> is_snowflake_text(#[trigger] texts(ids@)[j]),
        decreases n - i,
    {
        let r = validate_bot_id(ids[i].as_str());
        if r.is_err() {
            assert(texts(ids@)[i as int] == ids@[i as int]@);
            return r;
        }
        i = i + 1;
    }
    Ok(())
}

/// The IDs joined with `/`.
fn join_ids(ids: &Vec<String>) -> (res: String)
    ensures
        res@ == seq_join(texts(ids@), "/"@),
{
    let n = ids.len();
    let mut s = String::new();
    let ghost t = texts(ids@);
    let mut i: usize = 0;
    assert(t.take(0) =~= Seq::<Seq<char>>::empty());
    while i < n
        invariant
            n == ids@.len(),
            t == texts(ids@),
            i <= n,
            s@ == seq_join(t.take(i as int), "/"@),
        decreases n - i,
    {
        proof {
            assert(t.take((i + 1) as int).drop_last() =~= t.take(i as int));
            assert(t.take((i + 1) as int).last() == ids@[i as int]@);
        }
        if i > 0 {
            s.append("/");
        }
        s.append(ids[i].as_str());
        proof {
            if i == 0 {
                assert(s@ =~= ids@[0]@);
            }
        }
        i = i + 1;
    }
    assert(t.take(n as int) =~= t);
    s
}

/// The three standard headers have distinct names.
proof fn lemma_standard_headers_distinct(token: Seq<char>)
    ensures
        keys_unique(standard_headers(token)),
{
    reveal_strlit("Authorization");
    reveal_strlit("Content-Type");
    reveal_strlit("User-Agent");
    let h = standard_headers(token);
    assert(h[0].0.len() == 13);
    assert(h[1].0.len() == 12);
    assert(h[2].0.len() == 10);
}

/// The parameters of a rankings request have distinct names.
proof fn lemma_rankings_params_distinct(query: RankingsQuery)
    ensures
        keys_unique(rankings_params(query)),
{
    reveal_strlit("sortBy");
    reveal_strlit("sortMethod");
    reveal_strlit("limit");
    reveal_strlit("offset");
    let p = rankings_params(query);
    assert forall|a: int, b: int|
        0 <= a < p.len() && 0 <= b < p.len() && a != b implies #[trigger] p[a].0 != #[trigger] p[b].0 by {
        assert(p[a].0 == "sortBy"@ || p[a].0 == "sortMethod"@ || p[a].0 == "limit"@ || p[a].0
            == "offset"@);
        if p[a].0 == p[b].0 {
            assert(p[a].0[0] == p[b].0[0]);
        }
    }
}

/// The parameters of a search request have distinct names.
proof fn lemma_search_params_distinct(
    query: Seq<char>,
    limit: Option<u32>,
    offset: Option<u32>,
    include_deleted: Option<bool>,
)
    ensures
        keys_unique(search_params(query, limit, offset, include_deleted)),
{
    reveal_strlit("query");
    reveal_strlit("limit");
    reveal_strlit("offset");
    reveal_strlit("includeDeleted");
    let p = search_params(query, limit, offset, include_deleted);
    assert forall|a: int, b: int|
        0 <= a < p.len() && 0 <= b < p.len() && a != b implies #[trigger] p[a].0 != #[trigger] p[b].0 by {
        if p[a].0 == p[b].0 {
            assert(p[a].0[0] == p[b].0[0]);
        }
    }
}

} // verus!
