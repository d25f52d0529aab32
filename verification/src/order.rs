//! The order of the messages does not matter: every check and the tally
//! depend only on which messages a list holds, and how often.
use vstd::prelude::*;
use vstd::seq_lib::group_to_multiset_ensures;

use crate::keywords::love_keyword_in;
use crate::message::{message_eq, opt_origin_eq, origin_date, Message};
use crate::score::{
    has_equal_pair, lemma_tally_ignores_order, same_sender_throughout, scored, scored_all_loved,
    scored_dates, verify_outcome,
};

verus! {

broadcast use group_to_multiset_ensures;

/// Equality of optional origins is symmetric and transitive.
proof fn lemma_opt_origin_eq_equiv(a: Message, b: Message, c: Message)
    ensures
        opt_origin_eq(a.forward_origin, b.forward_origin) ==> opt_origin_eq(
            b.forward_origin,
            a.forward_origin,
        ),
        opt_origin_eq(a.forward_origin, b.forward_origin) && opt_origin_eq(
            b.forward_origin,
            c.forward_origin,
        ) ==> opt_origin_eq(a.forward_origin, c.forward_origin),
{
}

/// A list counts as one sender throughout exactly when any two of its
/// messages come from the same sender.
proof fn lemma_same_sender_all_pairs(s: Seq<Message>)
    ensures
        same_sender_throughout(s) <==> forall|x: Message, y: Message|
            s.contains(x) && s.contains(y) ==> opt_origin_eq(x.forward_origin, y.forward_origin),
{
    if same_sender_throughout(s) && s.len() > 0 {
        lemma_first_sender_everywhere(s, s.len() - 1);
        assert forall|x: Message, y: Message| s.contains(x) && s.contains(y) implies opt_origin_eq(
            x.forward_origin,
            y.forward_origin,
        ) by {
            let i = choose|i: int| 0 <= i < s.len() && s[i] == x;
            let j = choose|j: int| 0 <= j < s.len() && s[j] == y;
            lemma_opt_origin_eq_equiv(s[i], s[0], s[j]);
            lemma_opt_origin_eq_equiv(s[0], s[i], s[j]);
        }
    }
    if forall|x: Message, y: Message|
        s.contains(x) && s.contains(y) ==> opt_origin_eq(x.forward_origin, y.forward_origin) {
        assert forall|i: int| 0 <= i < s.len() - 1 implies opt_origin_eq(
            #[trigger] s[i].forward_origin,
            s[i + 1].forward_origin,
        ) by {
            assert(s.contains(s[i]));
            assert(s.contains(s[i + 1]));
        }
    }
}

/// In a list that is one sender throughout, the first message's sender is
/// the sender of every message up to `k`.
proof fn lemma_first_sender_everywhere(s: Seq<Message>, k: int)
    requires
        same_sender_throughout(s),
        0 <= k < s.len(),
    ensures
        forall|i: int| 0 <= i <= k ==> opt_origin_eq(s[0].forward_origin, #[trigger] s[i].forward_origin),
    decreases k,
{
    if k > 0 {
        lemma_first_sender_everywhere(s, k - 1);
        lemma_opt_origin_eq_equiv(s[0], s[k - 1], s[k]);
    } else {
        lemma_opt_origin_eq_equiv(s[0], s[0], s[0]);
        assert(opt_origin_eq(s[0].forward_origin, s[0].forward_origin));
    }
}

/// Every scored message is loved exactly when every scored message the list
/// contains is loved.
proof fn lemma_loved_by_contents(s: Seq<Message>)
    ensures
        scored_all_loved(s) <==> forall|x: Message|
            s.contains(x) && scored(x) ==> love_keyword_in(x.text->0@),
{
    if scored_all_loved(s) {
        assert forall|x: Message| s.contains(x) && scored(x) implies love_keyword_in(
            x.text->0@,
        ) by {
            let i = choose|i: int| 0 <= i < s.len() && s[i] == x;
            assert(scored(s[i]));
        }
    }
    if forall|x: Message| s.contains(x) && scored(x) ==> love_keyword_in(x.text->0@) {
        assert forall|i: int| 0 <= i < s.len() && scored(#[trigger] s[i]) implies love_keyword_in(
            s[i].text->0@,
        ) by {
            assert(s.contains(s[i]));
        }
    }
}

/// A message occurs at least twice exactly when two different positions hold
/// it.
proof fn lemma_count_two(s: Seq<Message>, x: Message)
    ensures
        s.to_multiset().count(x) >= 2 <==> exists|i: int, j: int|
            0 <= i < s.len() && 0 <= j < s.len() && i != j && s[i] == x && s[j] == x,
    decreases s.len(),
{
    if s.len() == 0 {
        assert(s.to_multiset().count(x) == 0) by {
            assert(!s.contains(x));
        }
    } else {
        let t = s.drop_last();
        let l = s.last();
        assert(s =~= t.push(l));
        assert(s.to_multiset() =~= t.to_multiset().insert(l));
        lemma_count_two(t, x);
        if s.to_multiset().count(x) >= 2 {
            if l == x {
                assert(t.to_multiset().count(x) >= 1);
                assert(t.contains(x));
                let i = choose|i: int| 0 <= i < t.len() && t[i] == x;
                assert(s[i] == x && s[s.len() - 1] == x);
            } else {
                let (i, j) = choose|i: int, j: int|
                    0 <= i < t.len() && 0 <= j < t.len() && i != j && t[i] == x && t[j] == x;
                assert(s[i] == x && s[j] == x);
            }
        }
        if exists|i: int, j: int|
            0 <= i < s.len() && 0 <= j < s.len() && i != j && s[i] == x && s[j] == x {
            let (i, j) = choose|i: int, j: int|
                0 <= i < s.len() && 0 <= j < s.len() && i != j && s[i] == x && s[j] == x;
            if i == s.len() - 1 {
                assert(t[j] == x);
                assert(t.contains(x));
            } else if j == s.len() - 1 {
                assert(t[i] == x);
                assert(t.contains(x));
            } else {
                assert(t[i] == x && t[j] == x);
            }
        }
    }
}

/// Two different positions hold equal messages exactly when the list holds
/// two different messages that are equal, or one message twice.
proof fn lemma_equal_pair_by_contents(s: Seq<Message>)
    ensures
        has_equal_pair(s) <==> exists|x: Message, y: Message|
            #![trigger message_eq(x, y)]
            message_eq(x, y) && ((x != y && s.contains(x) && s.contains(y)) || (x == y
                && s.to_multiset().count(x) >= 2)),
{
    if has_equal_pair(s) {
        let (i, j) = choose|i: int, j: int|
            0 <= i < s.len() && 0 <= j < s.len() && i != j && #[trigger] message_eq(s[i], s[j]);
        if s[i] == s[j] {
            lemma_count_two(s, s[i]);
        } else {
            assert(s.contains(s[i]) && s.contains(s[j]));
        }
        assert(message_eq(s[i], s[j]));
    }
    if exists|x: Message, y: Message|
        #![trigger message_eq(x, y)]
        message_eq(x, y) && ((x != y && s.contains(x) && s.contains(y)) || (x == y
            && s.to_multiset().count(x) >= 2)) {
        let (x, y) = choose|x: Message, y: Message|
            #![trigger message_eq(x, y)]
            message_eq(x, y) && ((x != y && s.contains(x) && s.contains(y)) || (x == y
                && s.to_multiset().count(x) >= 2));
        if x == y {
            lemma_count_two(s, x);
            let (i, j) = choose|i: int, j: int|
                0 <= i < s.len() && 0 <= j < s.len() && i != j && s[i] == x && s[j] == x;
            assert(message_eq(s[i], s[j]));
        } else {
            let i = choose|i: int| 0 <= i < s.len() && s[i] == x;
            let j = choose|j: int| 0 <= j < s.len() && s[j] == y;
            assert(message_eq(s[i], s[j]));
        }
    }
}

/// Removing the message at `i` removes its date from the scored dates, if it
/// was scored.
proof fn lemma_scored_dates_remove(s: Seq<Message>, i: int)
    requires
        0 <= i < s.len(),
    ensures
        scored_dates(s).to_multiset() == (if scored(s[i]) {
            scored_dates(s.remove(i)).to_multiset().insert(origin_date(s[i].forward_origin->0))
        } else {
            scored_dates(s.remove(i)).to_multiset()
        }),
    decreases s.len(),
{
    let t = s.drop_last();
    let l = s.last();
    if i == s.len() - 1 {
        assert(s.remove(i) =~= t);
    } else {
        lemma_scored_dates_remove(t, i);
        assert(s.remove(i).drop_last() =~= t.remove(i));
        assert(s.remove(i).last() == l);
        assert(t[i] == s[i]);
        if scored(l) {
            let dl = origin_date(l.forward_origin->0);
            scored_dates(t).to_multiset_ensures();
            scored_dates(t.remove(i)).to_multiset_ensures();
            if scored(s[i]) {
                assert(scored_dates(s).to_multiset() =~= scored_dates(
                    s.remove(i),
                ).to_multiset().insert(origin_date(s[i].forward_origin->0)));
            } else {
                assert(scored_dates(s).to_multiset() =~= scored_dates(s.remove(i)).to_multiset());
            }
        }
    }
}

/// Lists with the same messages have the same scored dates, up to order.
proof fn lemma_scored_dates_same_contents(a: Seq<Message>, b: Seq<Message>)
    requires
        a.to_multiset() == b.to_multiset(),
    ensures
        scored_dates(a).to_multiset() == scored_dates(b).to_multiset(),
    decreases b.len(),
{
    if b.len() == 0 {
        a.to_multiset_ensures();
        b.to_multiset_ensures();
        assert(a.to_multiset().len() == a.len());
        assert(b.to_multiset().len() == 0);
        assert(a.len() == 0);
        assert(scored_dates(a) =~= Seq::<u64>::empty());
        assert(scored_dates(b) =~= Seq::<u64>::empty());
    } else {
        let x = b.last();
        let b1 = b.drop_last();
        assert(b =~= b1.push(x));
        assert(b.to_multiset() =~= b1.to_multiset().insert(x));
        assert(a.to_multiset().count(x) > 0);
        assert(a.contains(x));
        let i = choose|i: int| 0 <= i < a.len() && a[i] == x;
        assert(a.remove(i).to_multiset() =~= a.to_multiset().remove(x));
        assert(a.remove(i).to_multiset() =~= b1.to_multiset());
        lemma_scored_dates_same_contents(a.remove(i), b1);
        lemma_scored_dates_remove(a, i);
        scored_dates(b1).to_multiset_ensures();
    }
}

/// The order of the messages does not matter: two lists holding the same
/// messages (each as often) get the same outcome, error or tally.
pub proof fn lemma_outcome_ignores_order(a: Seq<Message>, b: Seq<Message>)
    requires
        a.to_multiset() == b.to_multiset(),
    ensures
        verify_outcome(a) == verify_outcome(b),
{
    assert forall|x: Message| a.contains(x) <==> b.contains(x) by {
        assert(a.contains(x) <==> a.to_multiset().count(x) > 0);
        assert(b.contains(x) <==> b.to_multiset().count(x) > 0);
    }
    lemma_same_sender_all_pairs(a);
    lemma_same_sender_all_pairs(b);
    lemma_loved_by_contents(a);
    lemma_loved_by_contents(b);
    lemma_equal_pair_by_contents(a);
    lemma_equal_pair_by_contents(b);
    lemma_scored_dates_same_contents(a, b);
    lemma_tally_ignores_order(a, b);
    scored_dates(a).to_multiset_ensures();
    scored_dates(b).to_multiset_ensures();
    assert(scored_dates(a).len() == scored_dates(b).len());
}

} // verus!
