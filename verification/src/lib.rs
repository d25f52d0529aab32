//! Scoring of forwarded chat messages, and the decisions of the chat bot that
//! collects them.
//!
//! - `message`: the messages and their origins, and when two are equal.
//! - `keywords`: the love keywords a scored message must carry.
//! - `dates`: sorting dates and summing how their gaps vary.
//! - `score`: the checks on a list of messages and its tally.
//! - `order`: the outcome of a list does not depend on the order of its messages.
//! - `bot`: the bot's data and what each handler does to it.
//! - `route`: which handler an incoming message goes to.
//! - `prove`: the steps of the proving service, from request to answer.
//! - `laws`: what the operations are for, stated over their inputs and results.
pub mod bot;
pub mod dates;
pub mod keywords;
pub mod laws;
pub mod message;
pub mod order;
pub mod prove;
pub mod route;
pub mod score;
