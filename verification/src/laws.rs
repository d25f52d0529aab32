//! What the operations of the library are for, stated over their inputs and
//! results: who counts as the same sender, when two messages are equal, which
//! texts carry a love keyword, when the bot refuses a sender, and where an
//! incoming command is routed.
use vstd::prelude::*;

use crate::bot::{respond_post, Data, Reply};
use crate::keywords::love_keyword_in;
use crate::route::{first_token, is_white_space, route_of, token_len, Command, Route};
use crate::message::{message_eq, origin_date, origin_eq, origin_valid, Message, MessageOrigin, User};
use crate::dates::{by_date, gap_variation_total};
use crate::prove::{step_holds, CallArg, ProveAction, ProveEvent, ProveStage};
use crate::score::{average_outcome, scored, scored_dates, verify_outcome, VerifyError};

verus! {

// ---------------------------------------------------------------------------
// Senders and message equality
/// Two origins of known users name the same sender exactly when the users'
/// ids are the same, whatever the dates and bot flags.
pub proof fn law_user_origins_same_iff_same_id(d1: u64, u1: User, d2: u64, u2: User)
    ensures
        origin_eq(
            MessageOrigin::MessageOriginUser { date: d1, sender_user: u1 },
            MessageOrigin::MessageOriginUser { date: d2, sender_user: u2 },
        ) <==> u1.id == u2.id,
{
}

/// Two origins of hidden users name the same sender exactly when the names
/// are the same character sequence.
pub proof fn law_hidden_origins_same_iff_same_name(d1: u64, n1: String, d2: u64, n2: String)
    ensures
        origin_eq(
            MessageOrigin::MessageOriginHiddenUser { date: d1, sender_user_name: n1 },
            MessageOrigin::MessageOriginHiddenUser { date: d2, sender_user_name: n2 },
        ) <==> n1@ == n2@,
{
}

/// A known user and a hidden user are never the same sender.
pub proof fn law_known_and_hidden_differ(d1: u64, u: User, d2: u64, n: String)
    ensures
        !origin_eq(
            MessageOrigin::MessageOriginUser { date: d1, sender_user: u },
            MessageOrigin::MessageOriginHiddenUser { date: d2, sender_user_name: n },
        ),
        !origin_eq(
            MessageOrigin::MessageOriginHiddenUser { date: d2, sender_user_name: n },
            MessageOrigin::MessageOriginUser { date: d1, sender_user: u },
        ),
{
}

/// Two messages whose texts are both present but are different character
/// sequences are never equal.
pub proof fn law_different_texts_never_equal(a: Message, b: Message)
    requires
        a.text is Some,
        b.text is Some,
        a.text->0@ != b.text->0@,
    ensures
        !message_eq(a, b),
{
}

/// A message with a text is never equal to one without.
pub proof fn law_text_and_no_text_never_equal(a: Message, b: Message)
    requires
        a.text is Some,
        b.text is None,
    ensures
        !message_eq(a, b),
        !message_eq(b, a),
{
}

/// Two messages are equal exactly when their texts are both absent or are
/// the same character sequence, and their origins are both absent or name
/// the same sender.
pub proof fn law_message_eq_meaning(a: Message, b: Message)
    ensures
        message_eq(a, b) <==> {
            &&& (a.text is None && b.text is None) || (a.text is Some && b.text is Some
                && a.text->0@ == b.text->0@)
            &&& match (a.forward_origin, b.forward_origin) {
                (None, None) => true,
                (
                    Some(MessageOrigin::MessageOriginUser { sender_user: x, .. }),
                    Some(MessageOrigin::MessageOriginUser { sender_user: y, .. }),
                ) => x.id == y.id,
                (
                    Some(MessageOrigin::MessageOriginHiddenUser { sender_user_name: x, .. }),
                    Some(MessageOrigin::MessageOriginHiddenUser { sender_user_name: y, .. }),
                ) => x@ == y@,
                _ => false,
            }
        },
{
}

/// A list in which two consecutive messages come from known users with
/// different ids is refused for different senders.
pub proof fn law_different_users_in_a_row_refused(s: Seq<Message>, i: int)
    requires
        0 <= i < s.len() - 1,
        s[i].forward_origin matches Some(MessageOrigin::MessageOriginUser { sender_user: a, .. }),
        s[i + 1].forward_origin matches Some(MessageOrigin::MessageOriginUser { sender_user: b, .. }),
        s[i].forward_origin->0->MessageOriginUser_sender_user.id != s[i
            + 1].forward_origin->0->MessageOriginUser_sender_user.id,
    ensures
        verify_outcome(s) == Err::<crate::score::Tally, VerifyError>(VerifyError::DifferentSenders),
{
    assert(!crate::message::opt_origin_eq(s[i].forward_origin, s[i + 1].forward_origin));
}

/// A list in which two consecutive messages differ in whether they were
/// forwarded is refused for different senders.
pub proof fn law_forwarded_and_not_in_a_row_refused(s: Seq<Message>, i: int)
    requires
        0 <= i < s.len() - 1,
        s[i].forward_origin is Some != s[i + 1].forward_origin is Some,
    ensures
        verify_outcome(s) == Err::<crate::score::Tally, VerifyError>(VerifyError::DifferentSenders),
{
    assert(!crate::message::opt_origin_eq(s[i].forward_origin, s[i + 1].forward_origin));
}

/// A list of messages all forwarded from known users with one id is never
/// refused for different senders.
pub proof fn law_one_user_passes_sender_check(s: Seq<Message>, id: i64)
    requires
        forall|i: int|
            0 <= i < s.len() ==> ((#[trigger] s[i]).forward_origin matches Some(
                MessageOrigin::MessageOriginUser { sender_user: u, .. },
            ) && u.id == id),
    ensures
        verify_outcome(s) != Err::<crate::score::Tally, VerifyError>(VerifyError::DifferentSenders),
{
    assert(crate::score::same_sender_throughout(s)) by {
        assert forall|i: int| 0 <= i < s.len() - 1 implies crate::message::opt_origin_eq(
            #[trigger] s[i].forward_origin,
            s[i + 1].forward_origin,
        ) by {
            assert(s[i].forward_origin matches Some(
                MessageOrigin::MessageOriginUser { sender_user: u, .. },
            ) && u.id == id);
            assert(s[i + 1].forward_origin matches Some(
                MessageOrigin::MessageOriginUser { sender_user: u, .. },
            ) && u.id == id);
        }
    }
}

/// From one sender, two messages at different positions with the same text
/// get the list refused as holding equal messages.
pub proof fn law_repeated_text_refused(s: Seq<Message>, i: int, j: int)
    requires
        crate::score::same_sender_throughout(s),
        0 <= i < s.len(),
        0 <= j < s.len(),
        i != j,
        s[i].text is Some,
        s[j].text is Some,
        s[i].text->0@ == s[j].text->0@,
        s[i].forward_origin matches Some(MessageOrigin::MessageOriginUser { sender_user: a, .. }),
        s[j].forward_origin matches Some(MessageOrigin::MessageOriginUser { sender_user: b, .. }),
        s[i].forward_origin->0->MessageOriginUser_sender_user.id
            == s[j].forward_origin->0->MessageOriginUser_sender_user.id,
    ensures
        verify_outcome(s) == Err::<crate::score::Tally, VerifyError>(VerifyError::EqualMessages),
{
    assert(message_eq(s[i], s[j]));
}

/// Messages whose texts are all present and pairwise different are never
/// refused as holding equal messages.
pub proof fn law_distinct_texts_pass_equality_check(s: Seq<Message>)
    requires
        forall|i: int| 0 <= i < s.len() ==> (#[trigger] s[i]).text is Some,
        forall|i: int, j: int|
            0 <= i < s.len() && 0 <= j < s.len() && i != j ==> (#[trigger] s[i]).text->0@ != (
            #[trigger] s[j]).text->0@,
    ensures
        !crate::score::has_equal_pair(s),
{
    assert forall|i: int, j: int|
        0 <= i < s.len() && 0 <= j < s.len() && i != j implies !#[trigger] message_eq(
        s[i],
        s[j],
    ) by {
        assert(s[i].text->0@ != s[j].text->0@);
    }
}

// ---------------------------------------------------------------------------
// Love keywords
/// A love keyword starts at position `i` of `t`: the word "love", the red
/// heart U+2764 followed by the variation selector U+FE0F, or one of the
/// single hearts U+1F495, U+1F49E, U+1F496, U+1F498.
pub open spec fn keyword_starts_at(t: Seq<char>, i: int) -> bool {
    ||| i + 3 < t.len() && t[i] == 'l' && t[i + 1] == 'o' && t[i + 2] == 'v' && t[i + 3] == 'e'
    ||| i + 1 < t.len() && t[i] == '\u{2764}' && t[i + 1] == '\u{fe0f}'
    ||| t[i] == '\u{1f495}'
    ||| t[i] == '\u{1f49e}'
    ||| t[i] == '\u{1f496}'
    ||| t[i] == '\u{1f498}'
}

/// A text carries a love keyword exactly when a keyword starts at one of its
/// positions.
pub proof fn law_love_keyword_meaning(t: Seq<char>)
    ensures
        love_keyword_in(t) <==> exists|i: int| 0 <= i < t.len() && #[trigger] keyword_starts_at(t, i),
{
    let love = seq!['l', 'o', 'v', 'e'];
    let heart = seq!['\u{2764}', '\u{fe0f}'];
    let hearts = seq!['\u{1f495}', '\u{1f49e}', '\u{1f496}', '\u{1f498}'];
    assert(crate::keywords::love_word() == love);
    assert(crate::keywords::red_heart() == heart);
    assert(crate::keywords::heart_chars() == hearts);
    if love_keyword_in(t) {
        if crate::keywords::contains_chars(t, love) {
            let i = choose|i: int| crate::keywords::occurs_at(t, love, i);
            assert(t.subrange(i, i + 4)[0] == t[i]);
            assert(t.subrange(i, i + 4)[1] == t[i + 1]);
            assert(t.subrange(i, i + 4)[2] == t[i + 2]);
            assert(t.subrange(i, i + 4)[3] == t[i + 3]);
            assert(keyword_starts_at(t, i));
        } else if crate::keywords::contains_chars(t, heart) {
            let i = choose|i: int| crate::keywords::occurs_at(t, heart, i);
            assert(t.subrange(i, i + 2)[0] == t[i]);
            assert(t.subrange(i, i + 2)[1] == t[i + 1]);
            assert(keyword_starts_at(t, i));
        } else {
            let k = choose|k: int| 0 <= k < hearts.len() && t.contains(#[trigger] hearts[k]);
            let i = choose|i: int| 0 <= i < t.len() && t[i] == hearts[k];
            assert(keyword_starts_at(t, i));
        }
    }
    if exists|i: int| 0 <= i < t.len() && #[trigger] keyword_starts_at(t, i) {
        let i = choose|i: int| 0 <= i < t.len() && #[trigger] keyword_starts_at(t, i);
        if i + 3 < t.len() && t[i] == 'l' && t[i + 1] == 'o' && t[i + 2] == 'v' && t[i + 3] == 'e' {
            assert(t.subrange(i, i + 4) =~= love);
            assert(crate::keywords::occurs_at(t, love, i));
        } else if i + 1 < t.len() && t[i] == '\u{2764}' && t[i + 1] == '\u{fe0f}' {
            assert(t.subrange(i, i + 2) =~= heart);
            assert(crate::keywords::occurs_at(t, heart, i));
        } else if t[i] == '\u{1f495}' {
            assert(t.contains(hearts[0]));
        } else if t[i] == '\u{1f49e}' {
            assert(t.contains(hearts[1]));
        } else if t[i] == '\u{1f496}' {
            assert(t.contains(hearts[2]));
        } else {
            assert(t.contains(hearts[3]));
        }
    }
}

/// A text without the letter 'l', without the heart U+2764 and without any
/// of the four single hearts carries no love keyword, whatever else it holds
/// (other emoji with the variation selector U+FE0F included).
pub proof fn law_no_keyword_without_its_characters(t: Seq<char>)
    requires
        !t.contains('l'),
        !t.contains('\u{2764}'),
        !t.contains('\u{1f495}'),
        !t.contains('\u{1f49e}'),
        !t.contains('\u{1f496}'),
        !t.contains('\u{1f498}'),
    ensures
        !love_keyword_in(t),
{
    law_love_keyword_meaning(t);
    assert forall|i: int| 0 <= i < t.len() implies !#[trigger] keyword_starts_at(t, i) by {
        assert(t.contains(t[i]));
    }
}

/// Whatever surrounds it, the word "love" or the red heart makes a text
/// carry a love keyword.
pub proof fn law_keyword_anywhere(before: Seq<char>, after: Seq<char>)
    ensures
        love_keyword_in(before + seq!['l', 'o', 'v', 'e'] + after),
        love_keyword_in(before + seq!['\u{2764}', '\u{fe0f}'] + after),
{
    let t1 = before + seq!['l', 'o', 'v', 'e'] + after;
    let t2 = before + seq!['\u{2764}', '\u{fe0f}'] + after;
    law_love_keyword_meaning(t1);
    law_love_keyword_meaning(t2);
    let i = before.len() as int;
    assert(keyword_starts_at(t1, i));
    assert(keyword_starts_at(t2, i));
}

// ---------------------------------------------------------------------------
// The girlfriend of a chat
/// Once a chat's girlfriend is named, a message forwarded from anyone whose
/// name is a different string is refused with her name, and no proof and no
/// id changes.
pub proof fn law_other_sender_refused(
    before: Data,
    after: Data,
    chat: i64,
    sender: String,
    date: u64,
    text: String,
    r: Reply,
)
    requires
        respond_post(before, after, chat, sender, date, text, r),
        before.chat_message_girlfriend@.contains_key(chat),
        before.chat_message_girlfriend@[chat]@ != sender@,
    ensures
        r matches Reply::WrongSender { girlfriend } && girlfriend@
            == before.chat_message_girlfriend@[chat]@,
        after.chat_message_proofs@ == before.chat_message_proofs@,
        after.chat_message_ids@ == before.chat_message_ids@,
        after.chat_message_girlfriend@ == before.chat_message_girlfriend@,
{
}

/// A message is only ever kept from the chat's girlfriend: after a message
/// is accepted, the chat's girlfriend is its sender, and the new proof names
/// her.
pub proof fn law_accepted_only_from_girlfriend(
    before: Data,
    after: Data,
    chat: i64,
    sender: String,
    date: u64,
    text: String,
    r: Reply,
)
    requires
        respond_post(before, after, chat, sender, date, text, r),
        r is Accepted,
    ensures
        after.chat_message_girlfriend@.contains_key(chat),
        after.chat_message_girlfriend@[chat]@ == sender@,
        before.chat_message_girlfriend@.contains_key(chat) ==> before.chat_message_girlfriend@[chat]@
            == sender@,
        crate::bot::proofs_in(after.chat_message_proofs@, chat).last().forward_origin.sender_user.username@
            == after.chat_message_girlfriend@[chat]@,
{
}

/// The first message of a chat with no girlfriend yet names her.
pub proof fn law_first_sender_named(
    before: Data,
    after: Data,
    chat: i64,
    sender: String,
    date: u64,
    text: String,
    r: Reply,
)
    requires
        respond_post(before, after, chat, sender, date, text, r),
        !before.chat_message_girlfriend@.contains_key(chat),
    ensures
        !(r is WrongSender),
        after.chat_message_girlfriend@.contains_key(chat),
        after.chat_message_girlfriend@[chat]@ == sender@,
{
}

// ---------------------------------------------------------------------------
// Routing
/// The first word of a text made of a word without white space, then the
/// character `c`, then anything: the word itself when `c` is white space,
/// something longer that starts with the word otherwise.
proof fn lemma_first_word_then(w: Seq<char>, c: char, rest: Seq<char>)
    requires
        forall|k: int| 0 <= k < w.len() ==> !is_white_space(#[trigger] w[k]),
    ensures
        is_white_space(c) ==> token_len(w.push(c) + rest) == w.len(),
        !is_white_space(c) ==> token_len(w.push(c) + rest) > w.len(),
    decreases w.len(),
{
    let t = w.push(c) + rest;
    if w.len() == 0 {
        assert(t[0] == c);
        if !is_white_space(c) {
            assert(token_len(t) == 1 + token_len(t.drop_first()));
        }
    } else {
        let v = w.drop_first();
        assert forall|k: int| 0 <= k < v.len() implies !is_white_space(#[trigger] v[k]) by {
            assert(v[k] == w[k + 1]);
        }
        lemma_first_word_then(v, c, rest);
        assert(t.drop_first() =~= v.push(c) + rest);
        assert(t[0] == w[0]);
    }
}

/// The characters of a first word are those at the start of the text.
proof fn lemma_first_token_prefix(t: Seq<char>)
    ensures
        token_len(t) <= t.len(),
    decreases t.len(),
{
    if t.len() > 0 && !is_white_space(t[0]) {
        lemma_first_token_prefix(t.drop_first());
    }
}

/// Where a text that starts with `word`, then `c`, then anything goes.
proof fn lemma_route_word(word: Seq<char>, c: char, rest: Seq<char>, forwarded: bool)
    requires
        word.len() >= 2,
        word[0] == '/',
        forall|k: int| 0 <= k < word.len() ==> !is_white_space(#[trigger] word[k]),
    ensures
        is_white_space(c) ==> route_of(Some(word.push(c) + rest), forwarded) == match
            crate::route::command_of(word) {
            Some(cmd) => Route::Command(cmd),
            None => Route::UnknownCommand,
        },
        !is_white_space(c) ==> {
            let f = first_token(word.push(c) + rest);
            &&& f.len() > word.len()
            &&& f[1] == word[1]
            &&& route_of(Some(word.push(c) + rest), forwarded) == match crate::route::command_of(f) {
                Some(cmd) => Route::Command(cmd),
                None => Route::UnknownCommand,
            }
        },
{
    let t = word.push(c) + rest;
    lemma_first_word_then(word, c, rest);
    lemma_first_token_prefix(t);
    assert(t[0] == '/');
    if is_white_space(c) {
        assert(first_token(t) =~= word);
    } else {
        assert(first_token(t)[1] == t[1]);
    }
}

/// A text that is the word "/help", "/start" or "/verify" followed by white
/// space (any of Unicode's White_Space characters) and anything else goes to
/// that command, forwarded or not.
pub proof fn law_command_then_white_space(c: char, rest: Seq<char>, forwarded: bool)
    requires
        ('\u{9}' <= c <= '\u{d}') || c == ' ' || c == '\u{85}' || c == '\u{a0}' || c == '\u{1680}'
            || ('\u{2000}' <= c <= '\u{200a}') || c == '\u{2028}' || c == '\u{2029}' || c
            == '\u{202f}' || c == '\u{205f}' || c == '\u{3000}',
    ensures
        route_of(Some(seq!['/', 'h', 'e', 'l', 'p'].push(c) + rest), forwarded) == Route::Command(
            Command::Help,
        ),
        route_of(Some(seq!['/', 's', 't', 'a', 'r', 't'].push(c) + rest), forwarded)
            == Route::Command(Command::Start),
        route_of(Some(seq!['/', 'v', 'e', 'r', 'i', 'f', 'y'].push(c) + rest), forwarded)
            == Route::Command(Command::Verify),
{
    lemma_route_word(seq!['/', 'h', 'e', 'l', 'p'], c, rest, forwarded);
    lemma_route_word(seq!['/', 's', 't', 'a', 'r', 't'], c, rest, forwarded);
    lemma_route_word(seq!['/', 'v', 'e', 'r', 'i', 'f', 'y'], c, rest, forwarded);
}

/// A command word that goes on with a character that is not white space is
/// no command the bot knows: "/help", "/start" and "/verify" followed
/// directly by anything else get no command.
pub proof fn law_command_word_must_end(c: char, rest: Seq<char>, forwarded: bool)
    requires
        !(('\u{9}' <= c <= '\u{d}') || c == ' ' || c == '\u{85}' || c == '\u{a0}' || c == '\u{1680}'
            || ('\u{2000}' <= c <= '\u{200a}') || c == '\u{2028}' || c == '\u{2029}' || c
            == '\u{202f}' || c == '\u{205f}' || c == '\u{3000}'),
    ensures
        route_of(Some(seq!['/', 'h', 'e', 'l', 'p'].push(c) + rest), forwarded)
            == Route::UnknownCommand,
        route_of(Some(seq!['/', 's', 't', 'a', 'r', 't'].push(c) + rest), forwarded)
            == Route::UnknownCommand,
        route_of(Some(seq!['/', 'v', 'e', 'r', 'i', 'f', 'y'].push(c) + rest), forwarded)
            == Route::UnknownCommand,
{
    lemma_route_word(seq!['/', 'h', 'e', 'l', 'p'], c, rest, forwarded);
    lemma_route_word(seq!['/', 's', 't', 'a', 'r', 't'], c, rest, forwarded);
    lemma_route_word(seq!['/', 'v', 'e', 'r', 'i', 'f', 'y'], c, rest, forwarded);
}

/// The bare words "/help", "/start" and "/verify" go to their commands.
pub proof fn law_bare_command(forwarded: bool)
    ensures
        route_of(Some(seq!['/', 'h', 'e', 'l', 'p']), forwarded) == Route::Command(Command::Help),
        route_of(Some(seq!['/', 's', 't', 'a', 'r', 't']), forwarded) == Route::Command(
            Command::Start,
        ),
        route_of(Some(seq!['/', 'v', 'e', 'r', 'i', 'f', 'y']), forwarded) == Route::Command(
            Command::Verify,
        ),
{
    let h = seq!['/', 'h', 'e', 'l', 'p'];
    let s = seq!['/', 's', 't', 'a', 'r', 't'];
    let v = seq!['/', 'v', 'e', 'r', 'i', 'f', 'y'];
    lemma_bare_word(h);
    lemma_bare_word(s);
    lemma_bare_word(v);
}

/// A word without white space is its own first word.
proof fn lemma_bare_word(w: Seq<char>)
    requires
        forall|k: int| 0 <= k < w.len() ==> !is_white_space(#[trigger] w[k]),
    ensures
        token_len(w) == w.len(),
        first_token(w) == w,
    decreases w.len(),
{
    if w.len() > 0 {
        let v = w.drop_first();
        assert forall|k: int| 0 <= k < v.len() implies !is_white_space(#[trigger] v[k]) by {
            assert(v[k] == w[k + 1]);
        }
        lemma_bare_word(v);
    }
    assert(w.take(w.len() as int) =~= w);
}

/// A text that does not start with '/' is never a command: forwarded, it is
/// collected; otherwise it gets the count so far. So is a message without
/// text.
pub proof fn law_non_command_routes(t: Seq<char>, forwarded: bool)
    requires
        t.len() == 0 || t[0] != '/',
    ensures
        route_of(Some(t), forwarded) == (if forwarded {
            Route::Forwarded
        } else {
            Route::Regular
        }),
        route_of(None, forwarded) == (if forwarded {
            Route::Forwarded
        } else {
            Route::Regular
        }),
{
}

// ---------------------------------------------------------------------------
// Dates and validity
/// The date of an origin is the date it was built with.
pub proof fn law_origin_date(d: u64, u: User, n: String)
    ensures
        origin_date(MessageOrigin::MessageOriginUser { date: d, sender_user: u }) == d,
        origin_date(MessageOrigin::MessageOriginHiddenUser { date: d, sender_user_name: n }) == d,
{
}

/// A known user counts exactly when it is not a bot; a hidden user always
/// counts.
pub proof fn law_origin_valid(d: u64, u: User, n: String)
    ensures
        origin_valid(MessageOrigin::MessageOriginUser { date: d, sender_user: u }) == !u.is_bot,
        origin_valid(MessageOrigin::MessageOriginHiddenUser { date: d, sender_user_name: n }),
{
}

/// A message is scored exactly when it has a text and was forwarded from a
/// hidden user or from a known user that is not a bot.
pub proof fn law_scored_meaning(m: Message)
    ensures
        scored(m) <==> m.text is Some && match m.forward_origin {
            Some(MessageOrigin::MessageOriginUser { sender_user, .. }) => !sender_user.is_bot,
            Some(MessageOrigin::MessageOriginHiddenUser { .. }) => true,
            None => false,
        },
{
}

// ---------------------------------------------------------------------------
// Tally and score
/// The scored dates are the dates of the scored messages, in list order:
/// the list filtered by `scored`, each message taken to its date.
pub proof fn law_scored_dates_are_filtered_dates(s: Seq<Message>)
    ensures
        scored_dates(s) == s.filter(|m: Message| scored(m)).map_values(
            |m: Message| origin_date(m.forward_origin->0),
        ),
    decreases s.len(),
{
    reveal(Seq::filter);
    if s.len() > 0 {
        law_scored_dates_are_filtered_dates(s.drop_last());
        let f = s.drop_last().filter(|m: Message| scored(m));
        if scored(s.last()) {
            assert(f.push(s.last()).map_values(|m: Message| origin_date(m.forward_origin->0))
                =~= f.map_values(|m: Message| origin_date(m.forward_origin->0)).push(
                origin_date(s.last().forward_origin->0),
            ));
        }
    } else {
        assert(s.filter(|m: Message| scored(m)).map_values(
            |m: Message| origin_date(m.forward_origin->0),
        ) =~= Seq::<u64>::empty());
    }
}

/// Three dates, sorted, score the square of how much the second gap differs
/// from the first (when that fits in a `u64`).
pub proof fn law_three_dates_total(a: u64, b: u64, c: u64)
    requires
        a <= b <= c,
    ensures
        gap_variation_total(seq![a, b, c]) == (if ((c - b) - (b - a)) * ((c - b) - (b - a))
            <= u64::MAX {
            Some((((c - b) - (b - a)) * ((c - b) - (b - a))) as u64)
        } else {
            None
        }),
{
    let d = seq![a, b, c];
    assert(crate::dates::gap_pair_count(d) == 1);
    assert(crate::dates::gap(d, 0) == b - a);
    assert(crate::dates::gap(d, 1) == c - b);
    assert(crate::dates::variation_sum(d, 1) == crate::dates::variation_sum(d, 0)
        + crate::dates::variation(d, 0));
}

/// Moving every date by the same amount does not change the sum: only the
/// gaps count.
pub proof fn law_total_ignores_shift(d: Seq<u64>, e: Seq<u64>, k: int)
    requires
        d.len() == e.len(),
        forall|i: int| 0 <= i < d.len() ==> #[trigger] e[i] == d[i] + k,
    ensures
        gap_variation_total(d) == gap_variation_total(e),
{
    lemma_shift_sum(d, e, k, crate::dates::gap_pair_count(d));
}

proof fn lemma_shift_sum(d: Seq<u64>, e: Seq<u64>, k: int, n: int)
    requires
        d.len() == e.len(),
        forall|i: int| 0 <= i < d.len() ==> #[trigger] e[i] == d[i] + k,
        0 <= n <= crate::dates::gap_pair_count(d),
    ensures
        crate::dates::variation_sum(d, n) == crate::dates::variation_sum(e, n),
    decreases n,
{
    if n > 0 {
        lemma_shift_sum(d, e, k, n - 1);
        let j = n - 1;
        assert(e[j] == d[j] + k);
        assert(e[j + 1] == d[j + 1] + k);
        assert(e[j + 2] == d[j + 2] + k);
        assert(crate::dates::gap(e, j) == crate::dates::gap(d, j));
        assert(crate::dates::gap(e, j + 1) == crate::dates::gap(d, j + 1));
    }
}

/// The score is the root divided by the number of scored messages, rounded
/// down: `score * count <= root < (score + 1) * count`; with no scored message
/// there is no score.
pub proof fn law_average_meaning(root: u64, count: usize)
    ensures
        count == 0 ==> average_outcome(root, count) == Err::<u64, VerifyError>(
            VerifyError::NoMessages,
        ),
        count > 0 ==> (average_outcome(root, count) matches Ok(v) && v * count <= root < (v + 1)
            * count),
{
    if count > 0 {
        let c = count as u64;
        let v = root / c;
        assert(v * c <= root < (v + 1) * c) by (nonlinear_arith)
            requires
                c > 0,
                v == root / c,
        ;
    }
}

/// A list that passes the checks is tallied over its scored messages only,
/// and counts every one of them.
pub proof fn law_tally_counts_scored_messages(s: Seq<Message>)
    requires
        s.len() <= usize::MAX,
    ensures
        verify_outcome(s) matches Ok(t) ==> t.count == s.filter(|m: Message| scored(m)).len(),
{
    law_scored_dates_are_filtered_dates(s);
    crate::score::lemma_scored_dates_len(s);
}

// ---------------------------------------------------------------------------
// Searching characters
/// A run of characters occurs in a text at position `i` exactly when it
/// fits there and each of its characters is the text's character that many
/// places after `i`.
pub proof fn law_occurs_at_meaning(hay: Seq<char>, needle: Seq<char>, i: int)
    ensures
        crate::keywords::occurs_at(hay, needle, i) <==> (0 <= i && i + needle.len() <= hay.len()
            && forall|k: int| 0 <= k < needle.len() ==> #[trigger] hay[i + k] == needle[k]),
{
    if crate::keywords::occurs_at(hay, needle, i) {
        assert forall|k: int| 0 <= k < needle.len() implies #[trigger] hay[i + k] == needle[k] by {
            assert(hay.subrange(i, i + needle.len())[k] == hay[i + k]);
        }
    }
    if 0 <= i && i + needle.len() <= hay.len() && forall|k: int|
        0 <= k < needle.len() ==> #[trigger] hay[i + k] == needle[k] {
        assert forall|k: int| 0 <= k < needle.len() implies hay.subrange(i, i + needle.len())[k]
            == needle[k] by {
            assert(hay[i + k] == needle[k]);
        }
        assert(hay.subrange(i, i + needle.len()) =~= needle);
    }
}

/// A run of characters that matches the text at some position occurs in it;
/// one that occurs in it matches at some position.
pub proof fn law_contains_chars_meaning(hay: Seq<char>, needle: Seq<char>, i: int)
    ensures
        (0 <= i && i + needle.len() <= hay.len() && forall|k: int|
            0 <= k < needle.len() ==> #[trigger] hay[i + k] == needle[k]) ==> crate::keywords::contains_chars(hay, needle),
        crate::keywords::contains_chars(hay, needle) ==> exists|j: int|
            crate::keywords::occurs_at(hay, needle, j) && #[trigger] (hay.subrange(j, j + needle.len()))
                == needle,
{
    law_occurs_at_meaning(hay, needle, i);
}

// ---------------------------------------------------------------------------
// Decimal dates
/// The number a string of decimal digits stands for.
pub open spec fn decimal_value(s: Seq<char>) -> int
    decreases s.len(),
{
    if s.len() == 0 {
        0
    } else {
        decimal_value(s.drop_last()) * 10 + (s.last() as int - '0' as int)
    }
}

/// The decimal form of a date is made of the digits '0' to '9', stands for
/// the date, and has no leading zero (but for the date 0 itself, "0").
pub proof fn law_decimal_chars_meaning(n: nat)
    ensures
        forall|i: int|
            0 <= i < crate::bot::decimal_chars(n).len() ==> '0' <= #[trigger] crate::bot::decimal_chars(
                n,
            )[i] <= '9',
        decimal_value(crate::bot::decimal_chars(n)) == n,
        crate::bot::decimal_chars(n).len() >= 1,
        n > 0 ==> crate::bot::decimal_chars(n)[0] != '0',
        n == 0 ==> crate::bot::decimal_chars(n) == seq!['0'],
    decreases n,
{
    let s = crate::bot::decimal_chars(n);
    let d = n % 10;
    assert(crate::bot::digit_char(d) as int - '0' as int == d);
    if n >= 10 {
        law_decimal_chars_meaning(n / 10);
        assert(s.drop_last() == crate::bot::decimal_chars(n / 10));
        assert(s.last() == crate::bot::digit_char(d));
        assert(s[0] == crate::bot::decimal_chars(n / 10)[0]);
    } else {
        assert(s.drop_last() =~= Seq::<char>::empty());
        assert(decimal_value(s.drop_last()) == 0);
    }
}

// ---------------------------------------------------------------------------
// Proving requests
/// A request is answered with the contract call `newGirlfriend` whose
/// arguments are, in order, the public values, the proof, the request's
/// address and 50; "proof" stores the proof and "public_inputs" the public
/// values.
pub proof fn law_call_arguments(
    address: Vec<u8>,
    proof: Vec<u8>,
    public_values: Vec<u8>,
    next: ProveStage,
    action: ProveAction,
)
    requires
        step_holds(
            ProveStage::Proving { address },
            ProveEvent::ProofReady { proof, public_values },
            next,
            action,
        ),
    ensures
        action matches ProveAction::StoreProofAndPrepareCall {
            proof_file,
            public_inputs_file,
            call,
        } && {
            &&& proof_file@ == proof@
            &&& public_inputs_file@ == public_values@
            &&& call.function@ == seq!['n', 'e', 'w', 'G', 'i', 'r', 'l', 'f', 'r', 'i', 'e', 'n', 'd']
            &&& call.args@.len() == 4
            &&& call.args@[0] matches CallArg::Bytes(b) && b@ == public_values@
            &&& call.args@[1] matches CallArg::Bytes(b) && b@ == proof@
            &&& call.args@[2] matches CallArg::Address(a) && a@ == address@
            &&& call.args@[3] matches CallArg::Uint(n) && n == 50
        },
{
    reveal_strlit("newGirlfriend");
}

/// The statuses a request is answered with: 400 when the prover fails, 500
/// when it crashes or the call cannot be prepared or sent, 200 with the
/// transaction hash when it is sent; a failed request carries no hash.
pub proof fn law_answer_statuses(
    tx_hash: String,
    address: Vec<u8>,
    next: ProveStage,
    action: ProveAction,
)
    ensures
        step_holds(ProveStage::Proving { address }, ProveEvent::ProverFailed, next, action) ==> (
        action matches ProveAction::Respond { status, tx } && status == 400 && tx@.len() == 0),
        step_holds(ProveStage::Proving { address }, ProveEvent::ProverCrashed, next, action) ==> (
        action matches ProveAction::Respond { status, tx } && status == 500 && tx@.len() == 0),
        step_holds(ProveStage::Calling, ProveEvent::CallRejected, next, action) ==> (
        action matches ProveAction::Respond { status, tx } && status == 500 && tx@.len() == 0),
        step_holds(ProveStage::Sending, ProveEvent::SendFailed, next, action) ==> (
        action matches ProveAction::Respond { status, tx } && status == 500 && tx@.len() == 0),
        step_holds(ProveStage::Sending, ProveEvent::Sent { tx_hash }, next, action) ==> (
        action matches ProveAction::Respond { status, tx } && status == 200 && tx@ == tx_hash@),
{
}

// ---------------------------------------------------------------------------
// The keyword check, the date order and the bot's counts
/// A list that passes the sender and equality checks but holds a scored
/// message without a love keyword is refused for it; one whose scored
/// messages all carry a keyword is not.
pub proof fn law_keyword_check(s: Seq<Message>, i: int)
    requires
        crate::score::same_sender_throughout(s),
        !crate::score::has_equal_pair(s),
    ensures
        0 <= i < s.len() && scored(s[i]) && !love_keyword_in(s[i].text->0@) ==> verify_outcome(s)
            == Err::<crate::score::Tally, VerifyError>(VerifyError::MissingLoveKeyword),
        (forall|j: int| 0 <= j < s.len() && scored(#[trigger] s[j]) ==> love_keyword_in(s[j].text->0@))
            ==> verify_outcome(s) != Err::<crate::score::Tally, VerifyError>(
            VerifyError::MissingLoveKeyword,
        ),
{
}

/// The dates are scored earliest first: in the sorted dates every date is
/// no later than any date after it, and the sorted dates are the same dates.
pub proof fn law_sorted_dates_ascending(d: Seq<u64>)
    ensures
        forall|i: int, j: int|
            #![trigger d.sort_by(by_date())[i], d.sort_by(by_date())[j]]
            0 <= i <= j < d.len() ==> d.sort_by(by_date())[i] <= d.sort_by(by_date())[j],
        d.sort_by(by_date()).to_multiset() == d.to_multiset(),
{
    crate::dates::lemma_by_date_total();
    d.lemma_sort_by_ensures(by_date());
    assert forall|i: int, j: int|
        #![trigger d.sort_by(by_date())[i], d.sort_by(by_date())[j]]
        0 <= i <= j < d.len() implies d.sort_by(by_date())[i] <= d.sort_by(by_date())[j] by {
        d.to_multiset_ensures();
        d.sort_by(by_date()).to_multiset_ensures();
        if i < j {
            assert((by_date())(d.sort_by(by_date())[i], d.sort_by(by_date())[j]));
        }
    }
}

/// Accepting a forwarded message keeps one more proof and one more id for the
/// chat: the id is the date plus the text's length in UTF-8 bytes.
pub proof fn law_accepted_counts_one_more(
    before: Data,
    after: Data,
    chat: i64,
    sender: String,
    date: u64,
    text: String,
    r: Reply,
)
    requires
        respond_post(before, after, chat, sender, date, text, r),
        r is Accepted,
    ensures
        after.chat_message_proofs@.contains_key(chat),
        after.chat_message_ids@.contains_key(chat),
        after.chat_message_proofs@[chat]@.len() == (if before.chat_message_proofs@.contains_key(chat) {
            before.chat_message_proofs@[chat]@.len()
        } else {
            0
        }) + 1,
        after.chat_message_ids@[chat]@.last() == (date + (vstd::utf8::encode_utf8(text@).len() as usize)) as u64,
        after.chat_message_proofs@[chat]@.last().text@ == text@,
        r matches Reply::Accepted { forwarded } && forwarded == after.chat_message_proofs@[chat]@.len() as usize,
{
}

/// A message whose id (date plus UTF-8 length of its text) is already kept
/// for the chat, from the chat's girlfriend, is refused as already forwarded
/// and nothing is kept.
pub proof fn law_known_id_refused(
    before: Data,
    after: Data,
    chat: i64,
    sender: String,
    date: u64,
    text: String,
    r: Reply,
)
    requires
        respond_post(before, after, chat, sender, date, text, r),
        before.chat_message_girlfriend@.contains_key(chat) ==> before.chat_message_girlfriend@[chat]@
            == sender@,
        before.chat_message_ids@.contains_key(chat),
        before.chat_message_ids@[chat]@.contains(
            (date + (vstd::utf8::encode_utf8(text@).len() as usize)) as u64,
        ),
    ensures
        r is AlreadyForwarded,
        after.chat_message_proofs@ == before.chat_message_proofs@,
        after.chat_message_ids@ == before.chat_message_ids@,
{
}


/// Adding a later date adds one term to the sum: the square of how much the
/// new last gap differs from the gap before it (when both sums fit in a
/// `u64`).
pub proof fn law_later_date_adds_one_term(d: Seq<u64>, x: u64)
    requires
        d.len() >= 2,
        gap_variation_total(d) is Some,
        gap_variation_total(d.push(x)) is Some,
    ensures
        gap_variation_total(d.push(x))->0 == gap_variation_total(d)->0 + ((x - d.last()) - (d.last()
            - d[d.len() - 2])) * ((x - d.last()) - (d.last() - d[d.len() - 2])),
{
    let e = d.push(x);
    let k = d.len() - 2;
    assert forall|i: int| 0 <= i < d.len() implies #[trigger] e[i] == d[i] by {}
    lemma_prefix_sum(d, e, k);
    assert(crate::dates::gap_pair_count(d) == k);
    assert(crate::dates::gap_pair_count(e) == k + 1);
    assert(crate::dates::gap(e, k) == d.last() - d[d.len() - 2]);
    assert(crate::dates::gap(e, k + 1) == x - d.last());
    assert(crate::dates::variation_sum(e, k + 1) == crate::dates::variation_sum(e, k)
        + crate::dates::variation(e, k));
    crate::dates::lemma_variation_sum_monotone(d, 0, k);
    crate::dates::lemma_variation_sum_monotone(e, 0, k + 1);
}

proof fn lemma_prefix_sum(d: Seq<u64>, e: Seq<u64>, n: int)
    requires
        0 <= n,
        n + 2 <= d.len() <= e.len(),
        forall|i: int| 0 <= i < d.len() ==> #[trigger] e[i] == d[i],
    ensures
        crate::dates::variation_sum(d, n) == crate::dates::variation_sum(e, n),
    decreases n,
{
    if n > 0 {
        lemma_prefix_sum(d, e, n - 1);
        let j = n - 1;
        assert(e[j] == d[j]);
        assert(e[j + 1] == d[j + 1]);
        assert(e[j + 2] == d[j + 2]);
    }
}

} // verus!
