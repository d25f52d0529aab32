# girlfriend_lib

A verified library for scoring lists of forwarded Telegram messages (the
"girlfriend score"), for the decisions of the bot that collects them, and for
the steps of the service that proves a score.

- `src/` is the library, verified with Verus.
  - `message`, `keywords`, `dates`, `score` and `order` check a list of
    messages and tally its score terms: the squared changes between
    neighbouring gaps of the sorted dates of the scored messages.
  - `bot` and `route` decide what the bot does with each incoming message.
  - `prove` decides each step of a proving request: prove the request's
    messages, store the proof, call the contract, answer with a status.
- `app/` is the bot program around the library (Telegram I/O with teloxide).
  It also holds the JSON form of messages and
  `messages::verify_messages(input: Vec<u8>) -> u64`, which parses the JSON,
  runs the library's checks, takes the floating-point square root of the
  tally and averages it; nothing in the bot program calls it.
- `tests/` runs the library on concrete values.

Not part of this repository's programs: the proving service's HTTP server,
its prover and its chain client, and the zkVM program that runs the score.
Their decisions are in `src/prove.rs`; the crates they need (axum, sp1-sdk,
sp1-zkvm, alloy) are not dependencies here. So on `/verify` the bot prints the
chat's proofs as JSON instead of sending them to that service.

`Cargo.toml` names `takecell` although nothing uses it directly: teloxide-core
depends on it, and its newest release needs a newer rustc than the one used
here, so the direct entry holds it to an older release.
