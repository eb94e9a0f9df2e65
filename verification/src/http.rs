//! HTTP request and response values, and the query string that goes on the wire.

use crate::error::Error;
use crate::string_map::{has_key, pairs_insert, StringMap};
use crate::text::str_contains_char;
use vstd::prelude::*;
use vstd::string::*;
use vstd::utf8::encode_utf8;

verus! {

/// HTTP request method.
#[derive(Debug, Clone, Copy, PartialEq, Eq, Structural)]
pub enum Method {
    /// HTTP GET method.
    Get,
    /// HTTP POST method.
    Post,
}

/// The entries of a string-valued map with the values by their text.
pub open spec fn text_pairs(pairs: Seq<(Seq<char>, String)>) -> Seq<(Seq<char>, Seq<char>)> {
    pairs.map_values(|e: (Seq<char>, String)| (e.0, e.1@))
}

/// Taking values by their text commutes with inserting.
pub proof fn lemma_text_pairs_insert(pairs: Seq<(Seq<char>, String)>, k: Seq<char>, v: String)
    ensures
        text_pairs(pairs_insert(pairs, k, v)) == pairs_insert(text_pairs(pairs), k, v@),
{
    let t = text_pairs(pairs);
    if has_key(pairs, k) {
        let i = choose|i: int| 0 <= i < pairs.len() && #[trigger] pairs[i].0 == k;
        assert(t[i].0 == k);
        assert(has_key(t, k));
    }
    if has_key(t, k) {
        let i = choose|i: int| 0 <= i < t.len() && #[trigger] t[i].0 == k;
        assert(pairs[i].0 == k);
    }
    assert(text_pairs(pairs_insert(pairs, k, v)) =~= pairs_insert(text_pairs(pairs), k, v@));
}

/// An HTTP request.
#[derive(Debug, Clone)]
pub struct Request {
    /// The HTTP method.
    pub method: Method,
    /// The full URL.
    pub url: String,
    /// Query parameters.
    pub query: StringMap<String>,
    /// Request headers.
    pub headers: StringMap<String>,
    /// Request body (for POST requests).
    pub body: Option<String>,
}

impl Request {
    /// Creates a new GET request.
    pub fn get(url: &str) -> (res: Self)
        ensures
            res.method == Method::Get,
            res.url@ == url@,
            res.query.pairs().len() == 0,
            res.query@ == Map::<Seq<char>, String>::empty(),
            res.headers.pairs().len() == 0,
            res.headers@ == Map::<Seq<char>, String>::empty(),
            res.body is None,
    {
        Request {
            method: Method::Get,
            url: String::from_str(url),
            query: StringMap::new(),
            headers: StringMap::new(),
            body: None,
        }
    }

    /// Creates a new POST request.
    pub fn post(url: &str) -> (res: Self)
        ensures
            res.method == Method::Post,
            res.url@ == url@,
            res.query.pairs().len() == 0,
            res.query@ == Map::<Seq<char>, String>::empty(),
            res.headers.pairs().len() == 0,
            res.headers@ == Map::<Seq<char>, String>::empty(),
            res.body is None,
    {
        Request {
            method: Method::Post,
            url: String::from_str(url),
            query: StringMap::new(),
            headers: StringMap::new(),
            body: None,
        }
    }

    /// Adds a query parameter; a parameter of the same name is replaced.
    pub fn query(self, key: &str, value: &str) -> (res: Self)
        ensures
            res.query@ == self.query@.insert(key@, res.query@[key@]),
            res.query@[key@]@ == value@,
            text_pairs(res.query.pairs()) == pairs_insert(
                text_pairs(self.query.pairs()),
                key@,
                value@,
            ),
            res.method == self.method,
            res.url == self.url,
            res.headers == self.headers,
            res.body == self.body,
    {
        let mut res = self;
        let v = String::from_str(value);
        proof {
            lemma_text_pairs_insert(res.query.pairs(), key@, v);
        }
        res.query.insert(String::from_str(key), v);
        res
    }

    /// Adds a header; a header of the same name is replaced.
    pub fn header(self, key: &str, value: &str) -> (res: Self)
        ensures
            res.headers@ == self.headers@.insert(key@, res.headers@[key@]),
            res.headers@[key@]@ == value@,
            text_pairs(res.headers.pairs()) == pairs_insert(
                text_pairs(self.headers.pairs()),
                key@,
                value@,
            ),
            res.method == self.method,
            res.url == self.url,
            res.query == self.query,
            res.body == self.body,
    {
        let mut res = self;
        let v = String::from_str(value);
        proof {
            lemma_text_pairs_insert(res.headers.pairs(), key@, v);
        }
        res.headers.insert(String::from_str(key), v);
        res
    }

    /// Sets the request body.
    pub fn body(self, body: &str) -> (res: Self)
        ensures
            res.body matches Some(b) && b@ == body@,
            res.method == self.method,
            res.url == self.url,
            res.query == self.query,
            res.headers == self.headers,
    {
        let mut res = self;
        res.body = Some(String::from_str(body));
        res
    }

    /// The URL that goes on the wire: the request's URL followed by its query
    /// parameters, percent-encoded, in the order in which they were first added.
    pub fn url_with_query(&self) -> (res: String)
        ensures
            res@ == url_with_query(self.url@, text_pairs(self.query.pairs())),
    {
        let mut url = self.url.clone();
        let n = self.query.len();
        if n == 0 {
            return url;
        }
        let mut qs = String::new();
        let ghost pairs = text_pairs(self.query.pairs());
        let mut i: usize = 0;
        while i < n
            invariant
                n == self.query.pairs().len(),
                pairs == text_pairs(self.query.pairs()),
                0 < n,
                i <= n,
                qs@ == query_string(pairs.take(i as int)),
            decreases n - i,
        {
            let (k, v) = self.query.entry_at(i);
            let ek = url_encode(k.as_str());
            let ev = url_encode(v.as_str());
            proof {
                assert(pairs.take((i + 1) as int).drop_last() =~= pairs.take(i as int));
                assert(pairs.take((i + 1) as int).last() == pairs[i as int]);
            }
            if i > 0 {
                qs.append("&");
            }
            qs.append(ek.as_str());
            qs.append("=");
            qs.append(ev.as_str());
            proof {
                if i == 0 {
                    assert(pairs.take(1).len() == 1);
                    assert(qs@ =~= encoded_pair(pairs[0]));
                } else {
                    assert(qs@ =~= query_string(pairs.take(i as int)) + "&"@ + encoded_pair(
                        pairs[i as int],
                    ));
                }
            }
            i = i + 1;
        }
        assert(pairs.take(n as int) =~= pairs);
        if str_contains_char(url.as_str(), '?') {
            url.append("&");
        } else {
            url.append("?");
        }
        url.append(qs.as_str());
        url
    }
}

/// An HTTP response.
#[derive(Debug, Clone)]
pub struct Response {
    /// The HTTP status code.
    pub status: u16,
    /// Response headers.
    pub headers: StringMap<String>,
    /// Response body.
    pub body: String,
}

impl Response {
    /// Returns `true` if the response status is successful (2xx).
    pub fn is_success(&self) -> (res: bool)
        ensures
            res == (200 <= self.status < 300),
    {
        self.status >= 200 && self.status < 300
    }

    /// Returns `true` if the response status indicates a rate limit (429).
    pub fn is_rate_limited(&self) -> (res: bool)
        ensures
            res == (self.status == 429),
    {
        self.status == 429
    }

    /// Returns `true` if the response status indicates not found (404).
    pub fn is_not_found(&self) -> (res: bool)
        ensures
            res == (self.status == 404),
    {
        self.status == 404
    }
}

/// A blocking HTTP client: sends a request and waits for its response.
///
/// Applications implement it for the HTTP client they use; the library implements
/// it for no type and states nothing of what `send` returns, which depends on the
/// network and the server.
pub trait BlockingHttpClient: Send + Sync {
    /// Sends an HTTP request and returns the response.
    fn send(&self, request: Request) -> Result<Response, Error>;
}

/// A rate-limited or not-found response is never a successful one.
pub proof fn law_status_classes_disjoint(status: u16)
    ensures
        status == 429 ==> !(200 <= status < 300),
        status == 404 ==> !(200 <= status < 300),
{
}

/// A byte that percent-encoding leaves as it is: an ASCII letter or digit, or one of
/// `-`, `.`, `_`, `~`.
pub open spec fn unreserved(b: u8) -> bool {
    (48 <= b <= 57) || (65 <= b <= 90) || (97 <= b <= 122) || b == 45 || b == 46 || b == 95 || b
        == 126
}

/// The upper-case hexadecimal digit of `d` (`d < 16`).
pub open spec fn hex_digit(d: u8) -> char {
    if d < 10 {
        (48 + d) as char
    } else {
        (55 + d) as char
    }
}

/// Percent-encoding of a byte string: unreserved bytes stay, every other byte
/// becomes `%` and its two upper-case hexadecimal digits.
pub open spec fn percent_encode(bytes: Seq<u8>) -> Seq<char>
    decreases bytes.len(),
{
    if bytes.len() == 0 {
        Seq::empty()
    } else {
        let b = bytes[0];
        let head = if unreserved(b) {
            seq![b as char]
        } else {
            seq!['%', hex_digit(b / 16), hex_digit(b % 16)]
        };
        head + percent_encode(bytes.drop_first())
    }
}

/// The percent-encoding of the UTF-8 bytes of a text.
pub open spec fn url_encoded(s: Seq<char>) -> Seq<char> {
    percent_encode(encode_utf8(s))
}

/// One query parameter as it goes on the wire: `key=value`, both encoded.
pub open spec fn encoded_pair(p: (Seq<char>, Seq<char>)) -> Seq<char> {
    url_encoded(p.0) + "="@ + url_encoded(p.1)
}

/// Query parameters joined with `&`.
pub open spec fn query_string(pairs: Seq<(Seq<char>, Seq<char>)>) -> Seq<char>
    decreases pairs.len(),
{
    if pairs.len() == 0 {
        Seq::empty()
    } else if pairs.len() == 1 {
        encoded_pair(pairs[0])
    } else {
        query_string(pairs.drop_last()) + "&"@ + encoded_pair(pairs.last())
    }
}

/// A URL with query parameters: unchanged when there are none; otherwise followed by
/// `?` (or `&` where the URL already holds a `?`) and the query string.
pub open spec fn url_with_query(url: Seq<char>, pairs: Seq<(Seq<char>, Seq<char>)>) -> Seq<char> {
    if pairs.len() == 0 {
        url
    } else {
        url + (if url.contains('?') {
            "&"@
        } else {
            "?"@
        }) + query_string(pairs)
    }
}

/// `urlencoding::encode`, which percent-encodes every byte of the UTF-8 encoding of
/// `s` except ASCII letters and digits and `-`, `.`, `_`, `~`; the contract states
/// exactly that.
#[verifier::external_body]
fn url_encode(s: &str) -> (res: String)
    ensures
        res@ == url_encoded(s@),
{
    urlencoding::encode(s).into_owned()
}

} // verus!
