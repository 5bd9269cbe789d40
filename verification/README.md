# zeroclaw (verified core)

The decision-making core of the ZeroClaw runtime, written in Verus and
proved against its contracts.

- `src/breaker.rs` — per-provider circuit breakers: failure counting,
  open checks with cooldowns and trip counters, success and reset, with
  proof functions for the breaker's laws.
- `src/mempalace.rs` — the Mempalace memory backend: its configuration,
  the rule for consulting Mempalace, the merge without repeats of
  local and Mempalace hits, the search command's arguments, and the mapping
  of search hits to memory entries.
- `src/contemplation.rs` — the contemplation bridge: whether and how to run
  the command, the JSON request, and how its answer becomes the message.
- `src/personality.rs` — personality settings and the onboarding wizard as a
  step machine.
- `src/gateway.rs` — the desktop gateway's address, command line, boot
  window and window scripts.
- `src/text.rs`, `src/assoc.rs`, `src/clock.rs` — text helpers, string-keyed
  association lists, and a clock read from `std::time::Instant`.

`app/` holds the I/O around the library: processes, the terminal wizard,
JSON decoding of replies, and the shared registry.  `tests/` exercises the
library on concrete values.
