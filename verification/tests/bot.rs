use girlfriend_lib::bot::{Data, Reply};
use girlfriend_lib::route::{route, Command, Route};

fn count(d: &Data, chat: i64) -> usize {
    d.chat_message_proofs.get(&chat).map(|v| v.len()).unwrap_or(0)
}

#[test]
fn new_data_is_empty() {
    let d = Data::new();
    assert!(d.chat_message_proofs.is_empty());
    assert!(d.chat_message_ids.is_empty());
    assert!(d.chat_message_girlfriend.is_empty());
}

#[test]
fn help_changes_nothing() {
    let d = Data::new();
    assert!(matches!(d.help_handler(1), Reply::Help));
}

#[test]
fn first_forward_names_the_girlfriend() {
    let mut d = Data::new();
    let r = d.respond_handler(1, "anna".to_string(), 1700000000, "i love you".to_string());
    assert!(matches!(r, Reply::Accepted { forwarded: 1 }));
    assert_eq!(d.chat_message_girlfriend.get(&1).unwrap(), "anna");
    assert_eq!(d.chat_message_ids.get(&1).unwrap(), &vec![1700000010]);
    let p = &d.chat_message_proofs.get(&1).unwrap()[0];
    assert_eq!(p.text, "i love you");
    assert_eq!(p.forward_origin.sender_user.username, "anna");
    assert_eq!(p.forward_origin.date, "1700000000");
}

#[test]
fn message_id_counts_bytes() {
    let mut d = Data::new();
    d.respond_handler(1, "anna".to_string(), 100, "\u{2764}\u{fe0f}".to_string());
    assert_eq!(d.chat_message_ids.get(&1).unwrap(), &vec![106]);
}

#[test]
fn other_sender_is_refused() {
    let mut d = Data::new();
    d.respond_handler(1, "anna".to_string(), 10, "love".to_string());
    let r = d.respond_handler(1, "bea".to_string(), 20, "love".to_string());
    match r {
        Reply::WrongSender { girlfriend } => assert_eq!(girlfriend, "anna"),
        _ => panic!("expected WrongSender"),
    }
    assert_eq!(count(&d, 1), 1);
    assert_eq!(d.chat_message_girlfriend.get(&1).unwrap(), "anna");
}

#[test]
fn same_id_is_refused() {
    let mut d = Data::new();
    d.respond_handler(1, "anna".to_string(), 10, "love".to_string());
    // 10 + 4 bytes == 11 + 3 bytes: the same id.
    let r = d.respond_handler(1, "anna".to_string(), 11, "abc".to_string());
    assert!(matches!(r, Reply::AlreadyForwarded));
    assert_eq!(count(&d, 1), 1);
    assert_eq!(d.chat_message_ids.get(&1).unwrap(), &vec![14]);
}

#[test]
fn chats_are_separate() {
    let mut d = Data::new();
    d.respond_handler(1, "anna".to_string(), 10, "love".to_string());
    let r = d.respond_handler(2, "bea".to_string(), 10, "love".to_string());
    assert!(matches!(r, Reply::Accepted { forwarded: 1 }));
    assert_eq!(count(&d, 1), 1);
    assert_eq!(count(&d, 2), 1);
}

#[test]
fn verify_needs_three_messages() {
    let mut d = Data::new();
    assert!(matches!(d.verify_handler(1), Reply::NeedMoreMessages));
    d.respond_handler(1, "anna".to_string(), 10, "love".to_string());
    d.respond_handler(1, "anna".to_string(), 20, "love".to_string());
    assert!(matches!(d.verify_handler(1), Reply::NeedMoreMessages));
    let r = d.respond_handler(1, "anna".to_string(), 30, "love".to_string());
    assert!(matches!(r, Reply::Accepted { forwarded: 3 }));
    assert!(matches!(d.verify_handler(1), Reply::GeneratingProofs));
}

#[test]
fn start_forgets_proofs_but_not_girlfriend() {
    let mut d = Data::new();
    d.respond_handler(1, "anna".to_string(), 10, "love".to_string());
    assert!(matches!(d.start_handler(1), Reply::Started));
    assert_eq!(count(&d, 1), 0);
    assert!(d.chat_message_ids.get(&1).unwrap().is_empty());
    assert_eq!(d.chat_message_girlfriend.get(&1).unwrap(), "anna");
    let r = d.respond_handler(1, "anna".to_string(), 10, "love".to_string());
    assert!(matches!(r, Reply::Accepted { forwarded: 1 }));
}

#[test]
fn regular_reports_count() {
    let mut d = Data::new();
    assert!(matches!(d.regular_handler(1), Reply::ForwardOnly { forwarded: 0 }));
    d.respond_handler(1, "anna".to_string(), 10, "love".to_string());
    assert!(matches!(d.regular_handler(1), Reply::ForwardOnly { forwarded: 1 }));
}

#[test]
fn routing() {
    let t = |s: &str| Some(s.to_string());
    assert_eq!(route(&t("/help"), false), Route::Command(Command::Help));
    assert_eq!(route(&t("/start now"), true), Route::Command(Command::Start));
    assert_eq!(route(&t("/verify\tplease"), false), Route::Command(Command::Verify));
    assert_eq!(route(&t("/verify\u{3000}x"), false), Route::Command(Command::Verify));
    assert_eq!(route(&t("/verifyx"), false), Route::UnknownCommand);
    assert_eq!(route(&t("/"), true), Route::UnknownCommand);
    assert_eq!(route(&t("hello"), true), Route::Forwarded);
    assert_eq!(route(&t("hello"), false), Route::Regular);
    assert_eq!(route(&t(""), false), Route::Regular);
    assert_eq!(route(&None, true), Route::Forwarded);
    assert_eq!(route(&None, false), Route::Regular);
}

#[test]
fn forwarding_twice_is_refused() {
    let mut d = Data::new();
    let r1 = d.respond_handler(5, "anna".to_string(), 0, "i love you".to_string());
    assert!(matches!(r1, Reply::Accepted { forwarded: 1 }));
    assert_eq!(d.chat_message_proofs.get(&5).unwrap()[0].forward_origin.date, "0");
    let r2 = d.respond_handler(5, "anna".to_string(), 0, "i love you".to_string());
    assert!(matches!(r2, Reply::AlreadyForwarded));
    assert_eq!(count(&d, 5), 1);
    assert_eq!(d.chat_message_ids.get(&5).unwrap(), &vec![10]);
}

#[test]
fn proofs_for_hands_over_the_kept_messages() {
    let mut d = Data::new();
    assert!(d.proofs_for(3).is_none());
    d.respond_handler(3, "anna".to_string(), 10, "love".to_string());
    d.respond_handler(3, "anna".to_string(), 20, "love too".to_string());
    let p = d.proofs_for(3).unwrap();
    assert_eq!(p.len(), 2);
    assert_eq!(p[1].text, "love too");
    assert_eq!(p[1].forward_origin.date, "20");
}
