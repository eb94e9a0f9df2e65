//! Shared endpoint logic and helper functions.
//!
//! This module contains validation functions and response types shared
//! between the async and blocking clients.

use crate::error::Error;
use crate::models::bot::{is_snowflake, Bot};
use crate::models::rankings::{RankedBot, RankingsQuery};
use crate::text::{
    all_digits, bool_text, bool_to_text, decimal, lemma_decimal_digits, lemma_decimal_len,
    pow10, str_all_digits, u64_to_decimal,
};
use vstd::prelude::*;
use vstd::string::*;

verus! {

/// A Discord snowflake ID as text: 17 to 19 ASCII decimal digits.
pub open spec fn is_snowflake_text(id: Seq<char>) -> bool {
    17 <= id.len() <= 19 && all_digits(id)
}

/// Whether `id` is written as a snowflake (17 to 19 ASCII decimal digits).
fn snowflake_text(id: &str) -> (res: bool)
    ensures
        res == is_snowflake_text(id@),
{
    let n = id.unicode_len();
    if n < 17 || n > 19 {
        return false;
    }
    str_all_digits(id)
}

/// Validates a Discord bot ID format (17-19 digit snowflake).
pub fn validate_bot_id(id: &str) -> (res: Result<(), Error>)
    ensures
        res is Ok <==> is_snowflake_text(id@),
        res matches Err(e) ==> (e matches Error::InvalidBotId(s) && s@ == id@),
{
    if snowflake_text(id) {
        Ok(())
    } else {
        Err(Error::InvalidBotId(String::from_str(id)))
    }
}

/// Validates a Discord user ID format (17-19 digit snowflake).
pub fn validate_user_id(id: &str) -> (res: Result<(), Error>)
    ensures
        res is Ok <==> is_snowflake_text(id@),
        res matches Err(e) ==> (e matches Error::InvalidUserId(s) && s@ == id@),
{
    if snowflake_text(id) {
        Ok(())
    } else {
        Err(Error::InvalidUserId(String::from_str(id)))
    }
}

/// The decimal text of a number is a valid snowflake text exactly when the number is
/// a valid snowflake ID: the text and the numeric checks agree.
pub proof fn law_snowflake_text_matches_number(id: u64)
    ensures
        is_snowflake_text(decimal(id as nat)) <==> is_snowflake(id),
{
    lemma_decimal_digits(id as nat);
    lemma_decimal_len(id as nat, 17);
    lemma_decimal_len(id as nat, 18);
    lemma_decimal_len(id as nat, 19);
    assert(pow10(16) == 10_000_000_000_000_000) by {
        reveal_with_fuel(pow10, 17);
    }
    assert(pow10(17) == 100_000_000_000_000_000) by {
        reveal_with_fuel(pow10, 18);
    }
    assert(pow10(18) == 1_000_000_000_000_000_000) by {
        reveal_with_fuel(pow10, 19);
    }
    assert(pow10(19) == 10_000_000_000_000_000_000) by {
        reveal_with_fuel(pow10, 20);
    }
    if 17 <= decimal(id as nat).len() <= 19 {
        let k = decimal(id as nat).len();
        if k == 17 {
        } else if k == 18 {
        } else {
        }
    }
}

/// Response wrapper for tag search.
#[derive(Debug, Clone)]
pub struct TagResponse {
    /// Tag data containing results.
    pub data: TagData,
}

/// Tag data containing bot results.
#[derive(Debug, Clone)]
pub struct TagData {
    /// List of bots matching the tag.
    pub results: Vec<Bot>,
}

/// Response wrapper for bot comparison.
#[derive(Debug, Clone)]
pub struct CompareResponse {
    /// List of compared bots.
    pub data: Vec<RankedBot>,
}

/// A query parameter list, with names and values by their text.
pub open spec fn params_view(params: Seq<(&'static str, String)>) -> Seq<(Seq<char>, Seq<char>)> {
    params.map_values(|p: (&'static str, String)| (p.0@, p.1@))
}

/// One parameter where a value is given, none otherwise.
pub open spec fn optional_param(name: Seq<char>, value: Option<Seq<char>>) -> Seq<
    (Seq<char>, Seq<char>),
> {
    match value {
        Some(v) => seq![(name, v)],
        None => Seq::empty(),
    }
}

/// The decimal text of an optional number.
pub open spec fn optional_decimal(n: Option<nat>) -> Option<Seq<char>> {
    match n {
        Some(v) => Some(decimal(v)),
        None => None,
    }
}

/// The query parameters of a rankings request: sort criteria and order, then the
/// limit and the offset where they are set.
pub open spec fn rankings_params(query: RankingsQuery) -> Seq<(Seq<char>, Seq<char>)> {
    seq![("sortBy"@, query.sort_by.text()), ("sortMethod"@, query.sort_order.text())]
        + optional_param(
        "limit"@,
        optional_decimal(
            match query.limit {
                Some(l) => Some(l as nat),
                None => None,
            },
        ),
    ) + optional_param(
        "offset"@,
        optional_decimal(
            match query.offset {
                Some(o) => Some(o as nat),
                None => None,
            },
        ),
    )
}

/// The query parameters of a search request: the query, then the limit, the offset
/// and whether to include deleted bots, where they are given.
pub open spec fn search_params(
    query: Seq<char>,
    limit: Option<u32>,
    offset: Option<u32>,
    include_deleted: Option<bool>,
) -> Seq<(Seq<char>, Seq<char>)> {
    seq![("query"@, query)] + optional_param(
        "limit"@,
        optional_decimal(
            match limit {
                Some(l) => Some(l as nat),
                None => None,
            },
        ),
    ) + optional_param(
        "offset"@,
        optional_decimal(
            match offset {
                Some(o) => Some(o as nat),
                None => None,
            },
        ),
    ) + optional_param(
        "includeDeleted"@,
        match include_deleted {
            Some(b) => Some(bool_text(b)),
            None => None,
        },
    )
}

/// Appends `(name, value)` to a parameter list.
fn push_param(params: &mut Vec<(&'static str, String)>, name: &'static str, value: String)
    ensures
        params_view(final(params)@) == params_view(old(params)@) + seq![(name@, value@)],
{
    let ghost before = params@;
    params.push((name, value));
    assert(params_view(params@) =~= params_view(before) + seq![(name@, value@)]);
}

/// Builds query parameters for rankings requests.
pub fn build_rankings_params(query: &RankingsQuery) -> (res: Vec<(&'static str, String)>)
    ensures
        params_view(res@) == rankings_params(*query),
{
    let mut params: Vec<(&'static str, String)> = Vec::new();
    push_param(&mut params, "sortBy", String::from_str(query.sort_by.as_str()));
    push_param(&mut params, "sortMethod", String::from_str(query.sort_order.as_str()));
    let ghost base = params_view(params@);
    if let Some(limit) = query.limit {
        push_param(&mut params, "limit", u64_to_decimal(limit as u64));
    }
    let ghost with_limit = params_view(params@);
    if let Some(offset) = query.offset {
        push_param(&mut params, "offset", u64_to_decimal(offset as u64));
    }
    proof {
        let a = optional_param(
            "limit"@,
            optional_decimal(
                match query.limit {
                    Some(l) => Some(l as nat),
                    None => None,
                },
            ),
        );
        let b = optional_param(
            "offset"@,
            optional_decimal(
                match query.offset {
                    Some(o) => Some(o as nat),
                    None => None,
                },
            ),
        );
        assert(base =~= seq![
            ("sortBy"@, query.sort_by.text()),
            ("sortMethod"@, query.sort_order.text()),
        ]);
        assert(with_limit =~= base + a);
        assert(params_view(params@) =~= with_limit + b);
    }
    params
}

/// Builds query parameters for search requests.
pub fn build_search_params(
    query: &str,
    limit: Option<u32>,
    offset: Option<u32>,
    include_deleted: Option<bool>,
) -> (res: Vec<(&'static str, String)>)
    ensures
        params_view(res@) == search_params(query@, limit, offset, include_deleted),
{
    let mut params: Vec<(&'static str, String)> = Vec::new();
    push_param(&mut params, "query", String::from_str(query));
    let ghost p0 = params_view(params@);
    if let Some(limit) = limit {
        push_param(&mut params, "limit", u64_to_decimal(limit as u64));
    }
    let ghost p1 = params_view(params@);
    if let Some(offset) = offset {
        push_param(&mut params, "offset", u64_to_decimal(offset as u64));
    }
    let ghost p2 = params_view(params@);
    if let Some(include_deleted) = include_deleted {
        push_param(&mut params, "includeDeleted", bool_to_text(include_deleted));
    }
    proof {
        let a = optional_param(
            "limit"@,
            optional_decimal(
                match limit {
                    Some(l) => Some(l as nat),
                    None => None,
                },
            ),
        );
        let b = optional_param(
            "offset"@,
            optional_decimal(
                match offset {
                    Some(o) => Some(o as nat),
                    None => None,
                },
            ),
        );
        let c = optional_param(
            "includeDeleted"@,
            match include_deleted {
                Some(x) => Some(bool_text(x)),
                None => None,
            },
        );
        assert(p0 =~= seq![("query"@, query@)]);
        assert(p1 =~= p0 + a);
        assert(p2 =~= p1 + b);
        assert(params_view(params@) =~= p2 + c);
    }
    params
}

/// The names of the search and rankings parameters are distinct texts.
proof fn lemma_param_names_distinct()
    ensures
        "query"@ != "limit"@,
        "query"@ != "offset"@,
        "query"@ != "includeDeleted"@,
        "limit"@ != "offset"@,
        "limit"@ != "includeDeleted"@,
        "offset"@ != "includeDeleted"@,
        "sortBy"@ != "limit"@,
        "sortBy"@ != "offset"@,
        "sortMethod"@ != "limit"@,
        "sortMethod"@ != "offset"@,
{
    reveal_strlit("query");
    reveal_strlit("limit");
    reveal_strlit("offset");
    reveal_strlit("includeDeleted");
    reveal_strlit("sortBy");
    reveal_strlit("sortMethod");
    assert("query"@[0] != "limit"@[0]);
    assert("query"@[0] != "offset"@[0]);
    assert("query"@[0] != "includeDeleted"@[0]);
    assert("limit"@[0] != "offset"@[0]);
    assert("limit"@[0] != "includeDeleted"@[0]);
    assert("offset"@[0] != "includeDeleted"@[0]);
    assert("sortBy"@[0] != "limit"@[0]);
    assert("sortBy"@[0] != "offset"@[0]);
    assert("sortMethod"@[0] != "limit"@[0]);
    assert("sortMethod"@[0] != "offset"@[0]);
}

/// Whether a parameter list names `name`.
pub open spec fn names(params: Seq<(Seq<char>, Seq<char>)>, name: Seq<char>) -> bool {
    exists|i: int| 0 <= i < params.len() && (#[trigger] params[i]).0 == name
}

/// A search request carries the query first, and each option exactly when it is
/// given, independently of the others: the limit and the offset as decimal
/// numbers, and whether to include deleted bots as `true` or `false`.
pub proof fn law_search_params_options(
    query: Seq<char>,
    limit: Option<u32>,
    offset: Option<u32>,
    include_deleted: Option<bool>,
)
    ensures
        ({
            let p = search_params(query, limit, offset, include_deleted);
            &&& p.len() >= 1 && p[0] == ("query"@, query)
            &&& names(p, "limit"@) <==> limit is Some
            &&& names(p, "offset"@) <==> offset is Some
            &&& names(p, "includeDeleted"@) <==> include_deleted is Some
            &&& (limit matches Some(l) ==> p.contains(("limit"@, decimal(l as nat))))
            &&& (offset matches Some(o) ==> p.contains(("offset"@, decimal(o as nat))))
            &&& (include_deleted == Some(true) ==> p.contains(("includeDeleted"@, "true"@)))
            &&& (include_deleted == Some(false) ==> p.contains(("includeDeleted"@, "false"@)))
        }),
{
    lemma_param_names_distinct();
    let p = search_params(query, limit, offset, include_deleted);
    let a = optional_param(
        "limit"@,
        optional_decimal(
            match limit {
                Some(l) => Some(l as nat),
                None => None,
            },
        ),
    );
    let b = optional_param(
        "offset"@,
        optional_decimal(
            match offset {
                Some(o) => Some(o as nat),
                None => None,
            },
        ),
    );
    let c = optional_param(
        "includeDeleted"@,
        match include_deleted {
            Some(x) => Some(bool_text(x)),
            None => None,
        },
    );
    let q = seq![("query"@, query)];
    assert(p == q + a + b + c);
    let ia = 1int;
    let ib: int = 1 + a.len() as int;
    let ic: int = 1 + a.len() as int + b.len() as int;
    assert forall|i: int| 0 <= i < p.len() implies {
        &&& (p[i].0 == "limit"@ ==> i == ia && a.len() == 1)
        &&& (p[i].0 == "offset"@ ==> i == ib && b.len() == 1)
        &&& (p[i].0 == "includeDeleted"@ ==> i == ic && c.len() == 1)
    } by {
        if i == 0 {
            assert(p[i] == q[0]);
        } else if i < ib {
            assert(p[i] == a[i - 1]);
        } else if i < ic {
            assert(p[i] == b[i - ib]);
        } else {
            assert(p[i] == c[i - ic]);
        }
    }
    if limit is Some {
        assert(p[ia] == a[0]);
    }
    if offset is Some {
        assert(p[ib] == b[0]);
    }
    if include_deleted is Some {
        assert(p[ic] == c[0]);
    }
}

/// A rankings request carries the sort criteria and order first, then the limit
/// and the offset exactly when each is given, independently of the other, as
/// decimal numbers.
pub proof fn law_rankings_params_options(query: RankingsQuery)
    ensures
        ({
            let p = rankings_params(query);
            &&& p.len() >= 2 && p[0] == ("sortBy"@, query.sort_by.text())
            &&& p[1] == ("sortMethod"@, query.sort_order.text())
            &&& names(p, "limit"@) <==> query.limit is Some
            &&& names(p, "offset"@) <==> query.offset is Some
            &&& (query.limit matches Some(l) ==> p.contains(("limit"@, decimal(l as nat))))
            &&& (query.offset matches Some(o) ==> p.contains(("offset"@, decimal(o as nat))))
        }),
{
    lemma_param_names_distinct();
    let p = rankings_params(query);
    let a = optional_param(
        "limit"@,
        optional_decimal(
            match query.limit {
                Some(l) => Some(l as nat),
                None => None,
            },
        ),
    );
    let b = optional_param(
        "offset"@,
        optional_decimal(
            match query.offset {
                Some(o) => Some(o as nat),
                None => None,
            },
        ),
    );
    let q = seq![("sortBy"@, query.sort_by.text()), ("sortMethod"@, query.sort_order.text())];
    assert(p == q + a + b);
    let ib: int = 2 + a.len() as int;
    assert forall|i: int| 0 <= i < p.len() implies {
        &&& (p[i].0 == "limit"@ ==> i == 2 && a.len() == 1)
        &&& (p[i].0 == "offset"@ ==> i == ib && b.len() == 1)
    } by {
        if i < 2 {
            assert(p[i] == q[i]);
        } else if i < ib {
            assert(p[i] == a[i - 2]);
        } else {
            assert(p[i] == b[i - ib]);
        }
    }
    if query.limit is Some {
        assert(p[2] == a[0]);
    }
    if query.offset is Some {
        assert(p[ib] == b[0]);
    }
}

} // verus!
