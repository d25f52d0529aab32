//! Checking a list of forwarded messages and tallying its girlfriend score.
//!
//! The score of a list is computed in three steps: `verify_messages` checks
//! the list and sums the score terms into a [`Tally`]; the square root of the
//! sum is taken in floating point by the caller; `score_average` divides that
//! root by the number of scored messages.
use vstd::prelude::*;

use crate::dates::{
    by_date, gap, gap_pair_count, gap_variation_sum, gap_variation_total, lemma_by_date_total,
    lemma_zero_total_iff_even, sort_dates, variation_sum,
};
use crate::keywords::{has_love_keyword, love_keyword_in};
use crate::message::{
    message_eq, opt_origin_eq, origin_date, origin_eq, origin_valid, Message, MessageOrigin,
};

verus! {

/// Why a list of messages is refused.
#[derive(PartialEq, Eq, Structural, Debug, Clone, Copy)]
pub enum VerifyError {
    /// Two consecutive messages do not come from the same sender.
    DifferentSenders,
    /// Two messages of the list, at different positions, are equal.
    EqualMessages,
    /// A scored message carries no love keyword.
    MissingLoveKeyword,
    /// A squared gap change, or the sum of the score terms, overflows a `u64`.
    ArithmeticOverflow,
    /// No message is scored, so there is nothing to average over.
    NoMessages,
}

/// What `verify_messages` hands on: the sum of the score terms, and the
/// number of scored messages.
#[derive(PartialEq, Eq, Structural, Debug, Clone, Copy)]
pub struct Tally {
    pub sum: u64,
    pub count: usize,
}

/// Every message comes from the same sender as the message after it.
pub open spec fn same_sender_throughout(s: Seq<Message>) -> bool {
    forall|i: int|
        0 <= i < s.len() - 1 ==> opt_origin_eq(
            #[trigger] s[i].forward_origin,
            s[i + 1].forward_origin,
        )
}

/// Two messages at different positions of the list are equal.
pub open spec fn has_equal_pair(s: Seq<Message>) -> bool {
    exists|i: int, j: int|
        0 <= i < s.len() && 0 <= j < s.len() && i != j && #[trigger] message_eq(s[i], s[j])
}

/// A message is scored when it has a text and an origin, and the origin is
/// valid.
pub open spec fn scored(m: Message) -> bool {
    &&& m.text is Some
    &&& m.forward_origin is Some
    &&& origin_valid(m.forward_origin->0)
}

/// The dates of the scored messages, in list order.
pub open spec fn scored_dates(s: Seq<Message>) -> Seq<u64>
    decreases s.len(),
{
    if s.len() == 0 {
        Seq::empty()
    } else {
        let rest = scored_dates(s.drop_last());
        if scored(s.last()) {
            rest.push(origin_date(s.last().forward_origin->0))
        } else {
            rest
        }
    }
}

/// Every scored message carries a love keyword.
pub open spec fn scored_all_loved(s: Seq<Message>) -> bool {
    forall|i: int| 0 <= i < s.len() && scored(#[trigger] s[i]) ==> love_keyword_in(s[i].text->0@)
}

/// What `verify_messages` returns for a list: the first check that fails
/// decides the error; when all pass, the tally of the scored dates, sorted.
pub open spec fn verify_outcome(s: Seq<Message>) -> Result<Tally, VerifyError> {
    if !same_sender_throughout(s) {
        Err(VerifyError::DifferentSenders)
    } else if has_equal_pair(s) {
        Err(VerifyError::EqualMessages)
    } else if !scored_all_loved(s) {
        Err(VerifyError::MissingLoveKeyword)
    } else {
        match gap_variation_total(scored_dates(s).sort_by(by_date())) {
            None => Err(VerifyError::ArithmeticOverflow),
            Some(sum) => Ok(Tally { sum, count: scored_dates(s).len() as usize }),
        }
    }
}

/// The score: the root of the tally's sum divided by the number of scored
/// messages, which must not be zero.
pub open spec fn average_outcome(root: u64, count: usize) -> Result<u64, VerifyError> {
    if count == 0 {
        Err(VerifyError::NoMessages)
    } else {
        Ok(root / (count as u64))
    }
}

/// There are never more scored dates than messages.
pub proof fn lemma_scored_dates_len(s: Seq<Message>)
    ensures
        scored_dates(s).len() <= s.len(),
    decreases s.len(),
{
    if s.len() > 0 {
        lemma_scored_dates_len(s.drop_last());
    }
}

/// The empty list passes every check, with an empty tally.
pub proof fn lemma_empty_list_tally()
    ensures
        verify_outcome(Seq::<Message>::empty()) == Ok::<Tally, VerifyError>(
            Tally { sum: 0, count: 0 },
        ),
{
    let s = Seq::<Message>::empty();
    assert(scored_dates(s) =~= Seq::<u64>::empty());
    lemma_by_date_total();
    scored_dates(s).lemma_sort_by_ensures(by_date());
    assert(scored_dates(s).sort_by(by_date()).len() == 0) by {
        scored_dates(s).to_multiset_ensures();
        scored_dates(s).sort_by(by_date()).to_multiset_ensures();
    }
    assert(gap_pair_count(scored_dates(s).sort_by(by_date())) == 0);
}

/// The tally does not depend on the order of the scored dates: two lists
/// whose scored dates are the same up to order get the same sum of terms.
pub proof fn lemma_tally_ignores_order(a: Seq<Message>, b: Seq<Message>)
    requires
        scored_dates(a).to_multiset() == scored_dates(b).to_multiset(),
    ensures
        gap_variation_total(scored_dates(a).sort_by(by_date())) == gap_variation_total(
            scored_dates(b).sort_by(by_date()),
        ),
{
    lemma_by_date_total();
    scored_dates(a).lemma_sort_by_ensures(by_date());
    scored_dates(b).lemma_sort_by_ensures(by_date());
    vstd::seq_lib::lemma_sorted_unique(
        scored_dates(a).sort_by(by_date()),
        scored_dates(b).sort_by(by_date()),
        by_date(),
    );
}

/// A message that is not scored leaves the scored dates as they are, wherever
/// it is inserted.
pub proof fn lemma_scored_dates_insert_unscored(s: Seq<Message>, k: int, m: Message)
    requires
        0 <= k <= s.len(),
        !scored(m),
    ensures
        scored_dates(s.insert(k, m)) == scored_dates(s),
    decreases s.len(),
{
    if k == s.len() {
        assert(s.insert(k, m).drop_last() =~= s);
        assert(s.insert(k, m).last() == m);
    } else {
        lemma_scored_dates_insert_unscored(s.drop_last(), k, m);
        assert(s.insert(k, m).drop_last() =~= s.drop_last().insert(k, m));
        assert(s.insert(k, m).last() == s.last());
    }
}

/// Adding a message without text, from the same sender, anywhere in a list
/// of messages that all have a text and that sender, changes nothing: such a
/// message is neither compared equal, nor keyword-checked, nor scored.
pub proof fn lemma_textless_message_changes_nothing(
    s: Seq<Message>,
    k: int,
    m: Message,
    o: MessageOrigin,
)
    requires
        0 <= k <= s.len(),
        forall|i: int|
            0 <= i < s.len() ==> {
                &&& (#[trigger] s[i]).text is Some
                &&& s[i].forward_origin is Some
                &&& origin_eq(s[i].forward_origin->0, o)
            },
        m.text is None,
        m.forward_origin is Some,
        origin_eq(m.forward_origin->0, o),
    ensures
        verify_outcome(s.insert(k, m)) == verify_outcome(s),
{
    let t = s.insert(k, m);
    s.insert_ensures(k, m);
    lemma_scored_dates_insert_unscored(s, k, m);
    // Every message of `t` is `m` or a message of `s`.
    assert forall|i: int| 0 <= i < t.len() implies {
        &&& (#[trigger] t[i]).forward_origin is Some
        &&& origin_eq(t[i].forward_origin->0, o)
        &&& (i != k ==> t[i] == s[if i < k { i } else { i - 1 }])
    } by {
        if i < k {
            assert(t[i] == s[i]);
        } else if i > k {
            assert(t[i] == s[i - 1]);
        }
    }
    assert(same_sender_throughout(s)) by {
        assert forall|i: int| 0 <= i < s.len() - 1 implies opt_origin_eq(
            #[trigger] s[i].forward_origin,
            s[i + 1].forward_origin,
        ) by {
            assert(origin_eq(s[i].forward_origin->0, o));
            assert(origin_eq(s[i + 1].forward_origin->0, o));
        }
    }
    assert(same_sender_throughout(t)) by {
        assert forall|i: int| 0 <= i < t.len() - 1 implies opt_origin_eq(
            #[trigger] t[i].forward_origin,
            t[i + 1].forward_origin,
        ) by {
            assert(origin_eq(t[i].forward_origin->0, o));
            assert(origin_eq(t[i + 1].forward_origin->0, o));
        }
    }
    if has_equal_pair(s) {
        let (i, j) = choose|i: int, j: int|
            0 <= i < s.len() && 0 <= j < s.len() && i != j && #[trigger] message_eq(s[i], s[j]);
        let i2 = if i < k { i } else { i + 1 };
        let j2 = if j < k { j } else { j + 1 };
        assert(t[i2] == s[i]);
        assert(t[j2] == s[j]);
        assert(message_eq(t[i2], t[j2]));
    }
    if has_equal_pair(t) {
        let (i, j) = choose|i: int, j: int|
            0 <= i < t.len() && 0 <= j < t.len() && i != j && #[trigger] message_eq(t[i], t[j]);
        assert(i != k) by {
            if i == k {
                assert(t[j].text is Some);
            }
        }
        assert(j != k) by {
            if j == k {
                assert(t[i].text is Some);
            }
        }
        let i1 = if i < k { i } else { i - 1 };
        let j1 = if j < k { j } else { j - 1 };
        assert(message_eq(s[i1], s[j1]));
    }
    assert(scored_all_loved(t) == scored_all_loved(s)) by {
        if scored_all_loved(s) {
            assert forall|i: int| 0 <= i < t.len() && scored(#[trigger] t[i]) implies love_keyword_in(
                t[i].text->0@,
            ) by {
                let i1 = if i < k { i } else { i - 1 };
                assert(t[i] == s[i1]);
            }
        }
        if scored_all_loved(t) {
            assert forall|i: int| 0 <= i < s.len() && scored(#[trigger] s[i]) implies love_keyword_in(
                s[i].text->0@,
            ) by {
                let i2 = if i < k { i } else { i + 1 };
                assert(t[i2] == s[i]);
            }
        }
    }
}

/// A list that passes every check and whose scored dates, once sorted, are
/// evenly spaced gets the best score there is: a sum of zero, and so an
/// average of zero.
pub proof fn lemma_even_list_scores_zero(s: Seq<Message>)
    requires
        same_sender_throughout(s),
        !has_equal_pair(s),
        scored_all_loved(s),
        0 < scored_dates(s).len() <= usize::MAX,
        forall|j: int|
            0 <= j < gap_pair_count(scored_dates(s).sort_by(by_date())) ==> #[trigger] gap(
                scored_dates(s).sort_by(by_date()),
                j + 1,
            ) == gap(scored_dates(s).sort_by(by_date()), j),
    ensures
        verify_outcome(s) == Ok::<Tally, VerifyError>(
            Tally { sum: 0, count: scored_dates(s).len() as usize },
        ),
        average_outcome(0, scored_dates(s).len() as usize) == Ok::<u64, VerifyError>(0),
{
    let d = scored_dates(s).sort_by(by_date());
    lemma_zero_total_iff_even(d);
    assert(gap_variation_total(d) == Some(0u64));
    let n = scored_dates(s).len() as usize;
    assert(n > 0);
    assert(0u64 / (n as u64) == 0) by (nonlinear_arith)
        requires
            n > 0,
    ;
}

/// Every consecutive pair of messages comes from the same sender.
pub fn senders_match(msgs: &Vec<Message>) -> (r: bool)
    ensures
        r == same_sender_throughout(msgs@),
{
    let n = msgs.len();
    if n < 2 {
        return true;
    }
    let mut i: usize = 0;
    while i + 1 < n
        invariant
            n == msgs@.len(),
            n >= 2,
            i + 1 <= n,
            forall|k: int|
                0 <= k < i ==> opt_origin_eq(
                    #[trigger] msgs@[k].forward_origin,
                    msgs@[k + 1].forward_origin,
                ),
        decreases n - i,
    {
        let same = match (&msgs[i].forward_origin, &msgs[i + 1].forward_origin) {
            (None, None) => true,
            (Some(a), Some(b)) => a == b,
            _ => false,
        };
        if !same {
            assert(!opt_origin_eq(msgs@[i as int].forward_origin, msgs@[i + 1].forward_origin));
            return false;
        }
        i += 1;
    }
    true
}

/// Two messages of the list, at different positions, are equal.
pub fn has_equal_messages(msgs: &Vec<Message>) -> (r: bool)
    ensures
        r == has_equal_pair(msgs@),
{
    let n = msgs.len();
    let mut i: usize = 0;
    while i < n
        invariant
            n == msgs@.len(),
            i <= n,
            forall|a: int, b: int|
                0 <= a < i && 0 <= b < n && a != b ==> !#[trigger] message_eq(msgs@[a], msgs@[b]),
        decreases n - i,
    {
        let mut j: usize = 0;
        while j < n
            invariant
                n == msgs@.len(),
                i < n,
                j <= n,
                forall|b: int|
                    0 <= b < j && b != i ==> !#[trigger] message_eq(msgs@[i as int], msgs@[b]),
            decreases n - j,
        {
            if j != i && msgs[i] == msgs[j] {
                assert(message_eq(msgs@[i as int], msgs@[j as int]));
                return true;
            }
            j += 1;
        }
        i += 1;
    }
    false
}

/// Whether a message is scored: it has a text and a valid origin.
pub fn is_scored(m: &Message) -> (r: bool)
    ensures
        r == scored(*m),
{
    match (&m.text, &m.forward_origin) {
        (Some(_), Some(o)) => o.valid(),
        _ => false,
    }
}

/// Every scored message carries a love keyword.
pub fn scored_messages_loved(msgs: &Vec<Message>) -> (r: bool)
    ensures
        r == scored_all_loved(msgs@),
{
    let n = msgs.len();
    let mut i: usize = 0;
    while i < n
        invariant
            n == msgs@.len(),
            i <= n,
            forall|k: int|
                0 <= k < i && scored(#[trigger] msgs@[k]) ==> love_keyword_in(msgs@[k].text->0@),
        decreases n - i,
    {
        if is_scored(&msgs[i]) {
            match &msgs[i].text {
                Some(t) => {
                    if !has_love_keyword(t) {
                        return false;
                    }
                },
                None => {},
            }
        }
        i += 1;
    }
    true
}

/// The dates of the scored messages, in list order.
pub fn collect_scored_dates(msgs: &Vec<Message>) -> (r: Vec<u64>)
    ensures
        r@ == scored_dates(msgs@),
{
    let n = msgs.len();
    let mut out: Vec<u64> = Vec::new();
    let mut i: usize = 0;
    while i < n
        invariant
            n == msgs@.len(),
            i <= n,
            out@ == scored_dates(msgs@.take(i as int)),
        decreases n - i,
    {
        assert(msgs@.take(i + 1).drop_last() =~= msgs@.take(i as int));
        assert(msgs@.take(i + 1).last() == msgs@[i as int]);
        if is_scored(&msgs[i]) {
            match &msgs[i].forward_origin {
                Some(o) => out.push(o.date()),
                None => {},
            }
        }
        i += 1;
    }
    assert(msgs@.take(n as int) =~= msgs@);
    out
}

/// Checks a list of forwarded messages and tallies its score terms.
///
/// In order: every message must come from the same sender as the next one;
/// no two messages of the list may be equal; every
/// scored message must carry a love keyword. The dates of the scored messages
/// are then sorted, and the squared changes between neighbouring gaps summed.
pub fn verify_messages(msgs: &Vec<Message>) -> (r: Result<Tally, VerifyError>)
    ensures
        r == verify_outcome(msgs@),
        ({
            let sorted = scored_dates(msgs@).sort_by(by_date());
            let sum = variation_sum(sorted, gap_pair_count(sorted));
            same_sender_throughout(msgs@) && !has_equal_pair(msgs@) && scored_all_loved(msgs@)
                && sum <= u64::MAX ==> r == Ok::<Tally, VerifyError>(
                Tally { sum: sum as u64, count: scored_dates(msgs@).len() as usize },
            )
        }),
{
    if !senders_match(msgs) {
        return Err(VerifyError::DifferentSenders);
    }
    if has_equal_messages(msgs) {
        return Err(VerifyError::EqualMessages);
    }
    if !scored_messages_loved(msgs) {
        return Err(VerifyError::MissingLoveKeyword);
    }
    let dates = collect_scored_dates(msgs);
    let count = dates.len();
    let ghost unsorted = dates@;
    let sorted = sort_dates(dates);
    proof {
        lemma_by_date_total();
        unsorted.lemma_sort_by_ensures(by_date());
        lemma_scored_dates_len(msgs@);
    }
    match gap_variation_sum(&sorted) {
        None => Err(VerifyError::ArithmeticOverflow),
        Some(sum) => Ok(Tally { sum, count }),
    }
}

/// The score: the root of the tally's sum divided by the number of scored
/// messages; refused when no message is scored.
pub fn score_average(root: u64, count: usize) -> (r: Result<u64, VerifyError>)
    ensures
        r == average_outcome(root, count),
{
    if count == 0 {
        Err(VerifyError::NoMessages)
    } else {
        Ok(root / (count as u64))
    }
}

} // verus!
