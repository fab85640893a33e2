# order_service

A gRPC order service for framed-photo orders, as a verified Verus library
(`src/`) and the program around it (`app/`).

- `src/auth.rs` — bearer-token authentication, decided step by step while the
  token is decoded and the blacklist consulted outside.
- `src/service.rs` — which order requests are accepted, and the order a create
  request yields.
- `src/orders.rs`, `src/json.rs` — order messages and the stored row, whose
  image URLs are JSON text written and read with `serde_json`.
- `src/repository.rs` — paging of a user's orders.
- `src/cache.rs` — blacklist keys and the cache commands that write and read them.
- `src/settings.rs` — settings and the cache, database and listen addresses.
- `src/text.rs` — whitespace, trimming, prefixes, decimal text.
- `app/` — configuration loading, the Redis and MySQL connections and queries,
  JWT decoding, the interceptor and the gRPC handlers.
