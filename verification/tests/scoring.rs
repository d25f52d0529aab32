use girlfriend_lib::dates::{gap_variation_sum, sort_dates};
use girlfriend_lib::keywords::{chars_of, find_char, find_chars, has_love_keyword};
use girlfriend_lib::message::{Message, MessageOrigin, User};
use girlfriend_lib::score::{
    collect_scored_dates, has_equal_messages, is_scored, score_average, scored_messages_loved,
    senders_match, verify_messages, Tally, VerifyError,
};

fn user_origin(date: u64, id: i64, is_bot: bool) -> MessageOrigin {
    MessageOrigin::MessageOriginUser { date, sender_user: User::new(id, is_bot) }
}

fn hidden_origin(date: u64, name: &str) -> MessageOrigin {
    MessageOrigin::MessageOriginHiddenUser { date, sender_user_name: name.to_string() }
}

fn msg(text: Option<&str>, origin: Option<MessageOrigin>) -> Message {
    Message::new(text.map(|t| t.to_string()), origin)
}

#[test]
fn date_of_each_origin() {
    assert_eq!(user_origin(1700000000, 7, false).date(), 1700000000);
    assert_eq!(hidden_origin(42, "anna").date(), 42);
}

#[test]
fn valid_origins() {
    assert!(user_origin(1, 7, false).valid());
    assert!(!user_origin(1, 7, true).valid());
    assert!(hidden_origin(1, "anna").valid());
}

#[test]
fn origin_equality_ignores_dates() {
    assert!(user_origin(1, 7, false) == user_origin(99, 7, true));
    assert!(user_origin(1, 7, false) != user_origin(1, 8, false));
    assert!(hidden_origin(1, "anna") == hidden_origin(5, "anna"));
    assert!(hidden_origin(1, "anna") != hidden_origin(1, "bea"));
    assert!(user_origin(1, 7, false) != hidden_origin(1, "anna"));
}

#[test]
fn message_equality() {
    let a = msg(Some("i love you"), Some(user_origin(1, 7, false)));
    let b = msg(Some("i love you"), Some(user_origin(2, 7, false)));
    let c = msg(Some("i love you too"), Some(user_origin(1, 7, false)));
    let d = msg(None, Some(user_origin(1, 7, false)));
    assert!(a == b);
    assert!(a != c);
    assert!(a != d);
    assert!(msg(None, None) == msg(None, None));
}

#[test]
fn message_equality_is_reflexive() {
    let a = msg(Some("x"), Some(hidden_origin(3, "anna")));
    assert!(a == a);
    let b = msg(None, None);
    assert!(b == b);
}

#[test]
fn love_keywords() {
    assert!(has_love_keyword(&"i love you".to_string()));
    assert!(has_love_keyword(&"lovely".to_string()));
    assert!(has_love_keyword(&"\u{2764}\u{fe0f}".to_string()));
    assert!(has_love_keyword(&"miss you \u{1f495}".to_string()));
    assert!(has_love_keyword(&"\u{1f49e}".to_string()));
    assert!(has_love_keyword(&"\u{1f496}".to_string()));
    assert!(has_love_keyword(&"\u{1f498}!".to_string()));
    assert!(!has_love_keyword(&"\u{2764}".to_string()));
    assert!(!has_love_keyword(&"Love".to_string()));
    assert!(!has_love_keyword(&"lov e".to_string()));
    assert!(!has_love_keyword(&"".to_string()));
}

#[test]
fn char_search() {
    let hay = chars_of(&"h\u{e9}llo".to_string());
    assert_eq!(hay, vec!['h', '\u{e9}', 'l', 'l', 'o']);
    assert!(find_chars(&hay, &vec!['l', 'o']));
    assert!(find_chars(&hay, &vec![]));
    assert!(!find_chars(&hay, &vec!['o', 'l']));
    assert!(!find_chars(&vec!['a'], &vec!['a', 'a']));
    assert!(find_char(&hay, '\u{e9}'));
    assert!(!find_char(&hay, 'e'));
}

#[test]
fn senders_must_match_consecutively() {
    let same = vec![
        msg(Some("a"), Some(user_origin(1, 7, false))),
        msg(Some("b"), Some(user_origin(2, 7, false))),
    ];
    assert!(senders_match(&same));
    let different = vec![
        msg(Some("a"), Some(user_origin(1, 7, false))),
        msg(Some("b"), Some(user_origin(2, 8, false))),
    ];
    assert!(!senders_match(&different));
    let missing = vec![msg(Some("a"), Some(user_origin(1, 7, false))), msg(Some("b"), None)];
    assert!(!senders_match(&missing));
    assert!(senders_match(&vec![]));
    assert!(senders_match(&vec![msg(None, None), msg(Some("x"), None)]));
}

#[test]
fn equal_messages_need_two_positions() {
    assert!(!has_equal_messages(&vec![]));
    assert!(!has_equal_messages(&vec![msg(Some("a"), None)]));
    assert!(!has_equal_messages(&vec![
        msg(Some("a"), Some(user_origin(1, 7, false))),
        msg(Some("b"), Some(user_origin(2, 7, false))),
    ]));
    assert!(has_equal_messages(&vec![
        msg(Some("a"), Some(user_origin(1, 7, false))),
        msg(Some("b"), Some(user_origin(2, 7, false))),
        msg(Some("a"), Some(user_origin(3, 7, false))),
    ]));
}

#[test]
fn scored_messages() {
    assert!(is_scored(&msg(Some("a"), Some(user_origin(1, 7, false)))));
    assert!(!is_scored(&msg(Some("a"), Some(user_origin(1, 7, true)))));
    assert!(!is_scored(&msg(None, Some(user_origin(1, 7, false)))));
    assert!(!is_scored(&msg(Some("a"), None)));
    assert!(is_scored(&msg(Some("a"), Some(hidden_origin(1, "anna")))));
}

#[test]
fn scored_dates_in_list_order() {
    let msgs = vec![
        msg(Some("love"), Some(user_origin(30, 7, false))),
        msg(Some("love"), Some(user_origin(10, 7, true))),
        msg(None, Some(user_origin(20, 7, false))),
        msg(Some("love"), Some(hidden_origin(5, "anna"))),
    ];
    assert_eq!(collect_scored_dates(&msgs), vec![30, 5]);
    assert!(scored_messages_loved(&msgs));
    let unloved = vec![
        msg(Some("love"), Some(user_origin(30, 7, false))),
        msg(Some("hi"), Some(user_origin(31, 7, false))),
    ];
    assert!(!scored_messages_loved(&unloved));
    let unloved_bot = vec![msg(Some("hi"), Some(user_origin(31, 7, true)))];
    assert!(scored_messages_loved(&unloved_bot));
}

#[test]
fn sorting_dates() {
    assert_eq!(sort_dates(vec![5, 1, 3, 1]), vec![1, 1, 3, 5]);
    assert_eq!(sort_dates(vec![]), Vec::<u64>::new());
    assert_eq!(sort_dates(vec![u64::MAX, 0]), vec![0, u64::MAX]);
}

#[test]
fn gap_sums() {
    assert_eq!(gap_variation_sum(&vec![]), Some(0));
    assert_eq!(gap_variation_sum(&vec![1, 2]), Some(0));
    assert_eq!(gap_variation_sum(&vec![0, 10, 30]), Some(100));
    assert_eq!(gap_variation_sum(&vec![0, 1, 3, 6]), Some(2));
    assert_eq!(gap_variation_sum(&vec![0, 1, 5]), Some(9));
    assert_eq!(gap_variation_sum(&vec![0, 10, 15]), Some(25));
    assert_eq!(gap_variation_sum(&vec![0, 10, 15, 30]), Some(125));
}

#[test]
fn gap_sum_overflow() {
    assert_eq!(gap_variation_sum(&vec![0, 0, 4294967295]), Some(18446744065119617025));
    assert_eq!(gap_variation_sum(&vec![0, 0, 4294967296]), None);
    assert_eq!(gap_variation_sum(&vec![0, 0, u64::MAX]), None);
    assert_eq!(gap_variation_sum(&vec![0, 0, 3037000499, 3037000499, 3037000499 * 2]), None);
}

#[test]
fn evenly_spaced_dates_sum_zero() {
    assert_eq!(gap_variation_sum(&vec![0, 5, 10, 15]), Some(0));
    assert_eq!(gap_variation_sum(&vec![7, 7, 7, 7, 7]), Some(0));
}

#[test]
fn tally_ignores_order_of_dates() {
    let a = sort_dates(vec![0, 1, 3, 6]);
    let b = sort_dates(vec![6, 3, 0, 1]);
    assert_eq!(gap_variation_sum(&a), gap_variation_sum(&b));
}

#[test]
fn verify_empty_list() {
    assert_eq!(verify_messages(&vec![]), Ok(Tally { sum: 0, count: 0 }));
}

#[test]
fn verify_different_senders() {
    let msgs = vec![
        msg(Some("i love you"), Some(user_origin(1, 7, false))),
        msg(Some("i love you"), Some(user_origin(2, 8, false))),
    ];
    assert_eq!(verify_messages(&msgs), Err(VerifyError::DifferentSenders));
}

#[test]
fn verify_equal_messages() {
    let msgs = vec![
        msg(Some("i love you"), Some(user_origin(1, 7, false))),
        msg(Some("\u{1f495}"), Some(user_origin(2, 7, false))),
        msg(Some("i love you"), Some(user_origin(4, 7, false))),
    ];
    assert_eq!(verify_messages(&msgs), Err(VerifyError::EqualMessages));
    assert_eq!(verify_messages(&vec![msg(None, None), msg(None, None)]), Err(VerifyError::EqualMessages));
}

fn hidden_list() -> Vec<Message> {
    vec![
        msg(Some("i love you"), Some(hidden_origin(0, "gf"))),
        msg(Some("love you"), Some(hidden_origin(10, "gf"))),
        msg(Some("love u"), Some(hidden_origin(30, "gf"))),
    ]
}

#[test]
fn verify_three_loved_messages() {
    let t = verify_messages(&hidden_list()).unwrap();
    assert_eq!(t, Tally { sum: 100, count: 3 });
    let root = (t.sum as f64).sqrt() as u64;
    assert_eq!(root, 10);
    assert_eq!(score_average(root, t.count), Ok(3));
}

#[test]
fn verify_order_does_not_matter() {
    let mut l = hidden_list();
    l.reverse();
    assert_eq!(verify_messages(&l), Ok(Tally { sum: 100, count: 3 }));
}

#[test]
fn verify_single_message() {
    let l = vec![msg(Some("\u{2764}\u{fe0f}"), Some(user_origin(5, 7, false)))];
    assert_eq!(verify_messages(&l), Ok(Tally { sum: 0, count: 1 }));
    assert_eq!(score_average(0, 1), Ok(0));
}

#[test]
fn verify_evenly_spaced_scores_zero() {
    let l = vec![
        msg(Some("love 1"), Some(user_origin(100, 7, false))),
        msg(Some("love 2"), Some(user_origin(200, 7, false))),
        msg(Some("love 3"), Some(user_origin(300, 7, false))),
        msg(Some("love 4"), Some(user_origin(400, 7, false))),
    ];
    assert_eq!(verify_messages(&l), Ok(Tally { sum: 0, count: 4 }));
}

#[test]
fn verify_missing_keyword() {
    let l = vec![
        msg(Some("i love you"), Some(user_origin(1, 7, false))),
        msg(Some("good night"), Some(user_origin(2, 7, false))),
    ];
    assert_eq!(verify_messages(&l), Err(VerifyError::MissingLoveKeyword));
}

#[test]
fn verify_bot_and_textless_messages_are_not_scored() {
    let l = vec![
        msg(Some("good night"), Some(user_origin(1, 7, true))),
        msg(Some("love"), Some(user_origin(2, 7, true))),
    ];
    assert_eq!(verify_messages(&l), Ok(Tally { sum: 0, count: 0 }));
    let mut with_textless = hidden_list();
    with_textless.insert(1, msg(None, Some(hidden_origin(99, "gf"))));
    assert_eq!(verify_messages(&with_textless), Ok(Tally { sum: 100, count: 3 }));
}

#[test]
fn verify_overflow() {
    let l = vec![
        msg(Some("love a"), Some(user_origin(0, 7, false))),
        msg(Some("love b"), Some(user_origin(0, 7, false))),
        msg(Some("love c"), Some(user_origin(u64::MAX, 7, false))),
    ];
    assert_eq!(verify_messages(&l), Err(VerifyError::ArithmeticOverflow));
}

#[test]
fn averaging() {
    assert_eq!(score_average(10, 0), Err(VerifyError::NoMessages));
    assert_eq!(score_average(10, 3), Ok(3));
    assert_eq!(score_average(0, 1), Ok(0));
}

#[test]
fn empty_list_cannot_be_averaged() {
    let t = verify_messages(&vec![]).unwrap();
    assert_eq!(score_average(t.sum, t.count), Err(VerifyError::NoMessages));
}

#[test]
fn verify_outcome_ignores_message_order() {
    let a = vec![
        msg(Some("love a"), Some(user_origin(5, 7, false))),
        msg(Some("hello"), Some(user_origin(1, 7, true))),
        msg(Some("love b"), Some(user_origin(20, 7, false))),
        msg(None, Some(user_origin(2, 7, false))),
        msg(Some("love c"), Some(user_origin(9, 7, false))),
    ];
    let mut b = vec![
        msg(Some("love c"), Some(user_origin(9, 7, false))),
        msg(None, Some(user_origin(2, 7, false))),
        msg(Some("love a"), Some(user_origin(5, 7, false))),
        msg(Some("love b"), Some(user_origin(20, 7, false))),
        msg(Some("hello"), Some(user_origin(1, 7, true))),
    ];
    assert_eq!(verify_messages(&a), verify_messages(&b));
    assert_eq!(verify_messages(&a), Ok(Tally { sum: 49, count: 3 }));
    b.push(msg(Some("nope"), Some(user_origin(3, 7, false))));
    let mut c = clone_list(&b);
    c.reverse();
    assert_eq!(verify_messages(&b), Err(VerifyError::MissingLoveKeyword));
    assert_eq!(verify_messages(&c), Err(VerifyError::MissingLoveKeyword));
}

fn clone_list(v: &[Message]) -> Vec<Message> {
    v.iter()
        .map(|m| {
            let origin = m.forward_origin.as_ref().map(|o| match o {
                MessageOrigin::MessageOriginUser { date, sender_user } => {
                    user_origin(*date, sender_user.id, sender_user.is_bot)
                }
                MessageOrigin::MessageOriginHiddenUser { date, sender_user_name } => {
                    hidden_origin(*date, sender_user_name)
                }
            });
            Message::new(m.text.clone(), origin)
        })
        .collect()
}
