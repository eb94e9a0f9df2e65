# topstats

A client for the [TopStats.gg API](https://topstats.gg), which serves statistics
for Discord bots listed on Top.gg, written in Verus.

## Layout

- `src/` is the verified library. It holds what the client decides and computes:
  ID and query validation, the requests that each API call sends (URL, query
  parameters, headers), query-string encoding, the classification of API errors,
  the retry decision after a rate limit, the token-bucket rate limiter and the
  per-endpoint limit manager, the models of the API's documents, and decimal
  text conversions. Each public function states its result in its contract; the
  properties that span several functions are stated and proved as `law_*` proof
  functions.
- `app/` is ordinary Rust around the library: the reqwest (async) and ureq
  (blocking) HTTP backends, the request loops that send, sleep before retries
  and decode JSON, the serde copies of the models, the `thiserror` error type
  with its messages, and an async-shareable rate limiter handle.
- `tests/` runs the library on concrete values.

Fractional numbers (retry delays, ratings, percentage changes) are carried by
the library as IEEE 754 bit patterns (`Binary64`); points in time as seconds and
nanoseconds since the UNIX epoch (`Timestamp`).
