# armature-ratelimit

Rate limiting with a token bucket, a sliding window log or a fixed window, over a store in memory or
on a Redis server, verified with [Verus](https://github.com/verus-lang/verus).

- `src/` is the library: the logic, with contracts that Verus proves.
  - `algorithms/`: the three algorithms, each as a limiter of its own, and the laws of their runs
    and rates.
  - `stores/`: the store in memory with its cleanup, what is said to a Redis server, and the laws of
    both.
  - `limiter.rs`, `config.rs`: the limiter, what it tells a client, and the builder.
  - `extractor.rs`, `request.rs`, `middleware.rs`: keys, addresses, and answers to requests.
  - `table.rs`, `time.rs`, `text.rs`, `tokens.rs`, `json.rs`: what the others stand on. The functions
    of other crates that are trusted are declared in `table.rs` (`dashmap`, sorting), `time.rs`
    (clocks and spans), `text.rs` (Unicode) and `json.rs` (`serde_json`).
- `app/` is the asynchronous part: floating-point arithmetic, addresses, the task that cleans up, the
  Redis connection and the middleware that awaits.
- `tests/` runs the library.

Laws are public proof functions whose names start with `law_`.
