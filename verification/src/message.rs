//! Forwarded chat messages, reduced to the fields that scoring reads.
//!
//! The shapes follow the Telegram Bot API objects `Message`, `MessageOrigin`
//! and `User`; only the fields used by the scoring rules are kept.
use vstd::prelude::*;

verus! {

/// A Telegram user, as far as the scoring rules look at one.
pub struct User {
    pub id: i64,
    pub is_bot: bool,
}

/// Where a forwarded message came from.
///
/// Other origins (chats, channels) never count: a girlfriend is a person.
pub enum MessageOrigin {
    /// The original sender is a known user.
    MessageOriginUser { date: u64, sender_user: User },
    /// The original sender hides their account; only a name is known.
    MessageOriginHiddenUser { date: u64, sender_user_name: String },
}

/// A forwarded message: its text, if any, and its origin, if it was forwarded.
pub struct Message {
    pub text: Option<String>,
    pub forward_origin: Option<MessageOrigin>,
}

/// Two origins name the same sender: two known users with the same id, or two
/// hidden users with the same name. Dates are not compared.
pub open spec fn origin_eq(a: MessageOrigin, b: MessageOrigin) -> bool {
    match (a, b) {
        (
            MessageOrigin::MessageOriginUser { sender_user: x, .. },
            MessageOrigin::MessageOriginUser { sender_user: y, .. },
        ) => x.id == y.id,
        (
            MessageOrigin::MessageOriginHiddenUser { sender_user_name: x, .. },
            MessageOrigin::MessageOriginHiddenUser { sender_user_name: y, .. },
        ) => x@ == y@,
        _ => false,
    }
}

/// Equality of optional origins: both absent, or both present and equal.
pub open spec fn opt_origin_eq(a: Option<MessageOrigin>, b: Option<MessageOrigin>) -> bool {
    match (a, b) {
        (None, None) => true,
        (Some(x), Some(y)) => origin_eq(x, y),
        _ => false,
    }
}

/// Equality of optional texts, character by character.
pub open spec fn opt_text_eq(a: Option<String>, b: Option<String>) -> bool {
    match (a, b) {
        (None, None) => true,
        (Some(x), Some(y)) => x@ == y@,
        _ => false,
    }
}

/// Two messages are equal when their texts are equal and their origins name
/// the same sender.
pub open spec fn message_eq(a: Message, b: Message) -> bool {
    opt_text_eq(a.text, b.text) && opt_origin_eq(a.forward_origin, b.forward_origin)
}

/// The date of an origin, whichever kind it is.
pub open spec fn origin_date(o: MessageOrigin) -> u64 {
    match o {
        MessageOrigin::MessageOriginUser { date, .. } => date,
        MessageOrigin::MessageOriginHiddenUser { date, .. } => date,
    }
}

/// An origin counts unless it is a bot account.
pub open spec fn origin_valid(o: MessageOrigin) -> bool {
    match o {
        MessageOrigin::MessageOriginUser { sender_user, .. } => !sender_user.is_bot,
        MessageOrigin::MessageOriginHiddenUser { .. } => true,
    }
}

impl User {
    /// A user with the given id and bot flag.
    pub fn new(id: i64, is_bot: bool) -> (u: User)
        ensures
            u.id == id,
            u.is_bot == is_bot,
    {
        User { id, is_bot }
    }
}

impl Message {
    /// A message with the given text and origin.
    pub fn new(text: Option<String>, forward_origin: Option<MessageOrigin>) -> (m: Message)
        ensures
            m.text == text,
            m.forward_origin == forward_origin,
    {
        Message { text, forward_origin }
    }
}

impl MessageOrigin {
    /// The date at which the original message was sent.
    pub fn date(&self) -> (d: u64)
        ensures
            d == origin_date(*self),
    {
        match self {
            MessageOrigin::MessageOriginUser { date, .. } => *date,
            MessageOrigin::MessageOriginHiddenUser { date, .. } => *date,
        }
    }

    /// Whether the origin counts: every hidden user does, a known user only
    /// when it is not a bot.
    pub fn valid(&self) -> (b: bool)
        ensures
            b == origin_valid(*self),
    {
        match self {
            MessageOrigin::MessageOriginUser { sender_user, .. } => !sender_user.is_bot,
            MessageOrigin::MessageOriginHiddenUser { .. } => true,
        }
    }
}

impl PartialEq for MessageOrigin {
    fn eq(&self, other: &Self) -> (r: bool) {
        match (self, other) {
            (
                MessageOrigin::MessageOriginUser { sender_user: a, .. },
                MessageOrigin::MessageOriginUser { sender_user: b, .. },
            ) => a.id == b.id,
            (
                MessageOrigin::MessageOriginHiddenUser { sender_user_name: a, .. },
                MessageOrigin::MessageOriginHiddenUser { sender_user_name: b, .. },
            ) => a.eq(b),
            _ => false,
        }
    }
}

impl vstd::std_specs::cmp::PartialEqSpecImpl for MessageOrigin {
    open spec fn obeys_eq_spec() -> bool {
        true
    }

    open spec fn eq_spec(&self, other: &MessageOrigin) -> bool {
        origin_eq(*self, *other)
    }
}

/// Exec equality of optional origins, as `Option`'s `==` computes it.
fn opt_origin_equal(a: &Option<MessageOrigin>, b: &Option<MessageOrigin>) -> (r: bool)
    ensures
        r == opt_origin_eq(*a, *b),
{
    match (a, b) {
        (None, None) => true,
        (Some(x), Some(y)) => x == y,
        _ => false,
    }
}

/// Exec equality of optional texts, as `Option`'s `==` computes it.
fn opt_text_equal(a: &Option<String>, b: &Option<String>) -> (r: bool)
    ensures
        r == opt_text_eq(*a, *b),
{
    match (a, b) {
        (None, None) => true,
        (Some(x), Some(y)) => x.eq(y),
        _ => false,
    }
}

impl PartialEq for Message {
    fn eq(&self, other: &Self) -> (r: bool) {
        opt_text_equal(&self.text, &other.text) && opt_origin_equal(
            &self.forward_origin,
            &other.forward_origin,
        )
    }
}

impl vstd::std_specs::cmp::PartialEqSpecImpl for Message {
    open spec fn obeys_eq_spec() -> bool {
        true
    }

    open spec fn eq_spec(&self, other: &Message) -> bool {
        message_eq(*self, *other)
    }
}

/// Origin equality is reflexive: every origin names the same sender as itself.
pub proof fn lemma_origin_eq_reflexive(a: MessageOrigin)
    ensures
        origin_eq(a, a),
{
}

/// Origin equality is symmetric.
pub proof fn lemma_origin_eq_symmetric(a: MessageOrigin, b: MessageOrigin)
    ensures
        origin_eq(a, b) == origin_eq(b, a),
{
}

/// Origin equality is transitive.
pub proof fn lemma_origin_eq_transitive(a: MessageOrigin, b: MessageOrigin, c: MessageOrigin)
    requires
        origin_eq(a, b),
        origin_eq(b, c),
    ensures
        origin_eq(a, c),
{
}

/// Message equality is reflexive: every message is equal to itself.
pub proof fn lemma_message_eq_reflexive(m: Message)
    ensures
        message_eq(m, m),
{
}

/// Message equality is symmetric.
pub proof fn lemma_message_eq_symmetric(a: Message, b: Message)
    ensures
        message_eq(a, b) == message_eq(b, a),
{
}

/// Message equality is transitive.
pub proof fn lemma_message_eq_transitive(a: Message, b: Message, c: Message)
    requires
        message_eq(a, b),
        message_eq(b, c),
    ensures
        message_eq(a, c),
{
}

} // verus!
