//! The decisions of the chat bot that collects forwarded messages.
//!
//! Each handler takes the bot's data and what happened in a chat, updates the
//! data and says which reply to send. Sending the reply is left to the caller.
use std::collections::HashMap;
use vstd::prelude::*;
use vstd::string::*;
use vstd::utf8::encode_utf8;

verus! {

broadcast use vstd::std_specs::hash::group_hash_axioms;

/// The sender of a forwarded message, by username.
pub struct SenderUser {
    pub username: String,
}

/// Who sent a forwarded message, and when (the date in decimal).
pub struct ForwardOrigin {
    pub sender_user: SenderUser,
    pub date: String,
}

/// A forwarded message kept as a proof.
pub struct ProofMessage {
    pub forward_origin: ForwardOrigin,
    pub text: String,
}

/// The bot's data, per chat: the proofs collected, the ids of the forwarded
/// messages, and the sender accepted as the girlfriend.
pub struct Data {
    pub chat_message_proofs: HashMap<i64, Vec<ProofMessage>>,
    pub chat_message_ids: HashMap<i64, Vec<u64>>,
    pub chat_message_girlfriend: HashMap<i64, String>,
}

/// What the bot answers.
pub enum Reply {
    /// How to use the bot.
    Help,
    /// The collection has been (re)started.
    Started,
    /// Fewer than three messages have been forwarded.
    NeedMoreMessages,
    /// Enough messages have been forwarded; the proof is being made.
    GeneratingProofs,
    /// The message is not from the girlfriend already named for this chat.
    WrongSender { girlfriend: String },
    /// A message with this id has been forwarded before.
    AlreadyForwarded,
    /// The message was kept; `forwarded` messages have been kept so far.
    Accepted { forwarded: usize },
    /// Only forwarded messages are collected; `forwarded` kept so far.
    ForwardOnly { forwarded: usize },
}

/// The decimal digit for `d` (below 10).
pub open spec fn digit_char(d: nat) -> char {
    (('0' as nat) + d) as char
}

/// The decimal representation of `n`, without sign or leading zeros.
pub open spec fn decimal_chars(n: nat) -> Seq<char>
    decreases n,
{
    if n < 10 {
        seq![digit_char(n)]
    } else {
        decimal_chars(n / 10).push(digit_char(n % 10))
    }
}

/// The id under which a forwarded message is remembered: its date plus the
/// length of its text in UTF-8 bytes (as `str::len` reports it, a `usize`).
pub open spec fn message_id_of(date: u64, text: Seq<char>) -> int {
    date + (encode_utf8(text).len() as usize)
}

/// The proofs kept for a chat (none when the chat is unknown).
pub open spec fn proofs_in(m: Map<i64, Vec<ProofMessage>>, chat: i64) -> Seq<ProofMessage> {
    if m.contains_key(chat) {
        m[chat]@
    } else {
        Seq::empty()
    }
}

/// The message ids kept for a chat (none when the chat is unknown).
pub open spec fn ids_in(m: Map<i64, Vec<u64>>, chat: i64) -> Seq<u64> {
    if m.contains_key(chat) {
        m[chat]@
    } else {
        Seq::empty()
    }
}

/// What answering a forwarded message does (see `Data::respond_handler`):
/// `before` and `after` are the data before and after the call, `r` the reply.
pub open spec fn respond_post(
    before: Data,
    after: Data,
    chat: i64,
    sender: String,
    date: u64,
    text: String,
    r: Reply,
) -> bool {
    let gf = before.chat_message_girlfriend@;
    let id = message_id_of(date, text@) as u64;
    let old_ids = ids_in(before.chat_message_ids@, chat);
    let old_proofs = proofs_in(before.chat_message_proofs@, chat);
    let new_proofs = proofs_in(after.chat_message_proofs@, chat);
    if gf.contains_key(chat) && gf[chat]@ != sender@ {
        &&& r matches Reply::WrongSender { girlfriend } && girlfriend@ == gf[chat]@
        &&& after.chat_message_girlfriend@ == gf
        &&& after.chat_message_proofs@ == before.chat_message_proofs@
        &&& after.chat_message_ids@ == before.chat_message_ids@
    } else {
        &&& after.chat_message_girlfriend@ == (if gf.contains_key(chat) {
            gf
        } else {
            gf.insert(chat, sender)
        })
        &&& if old_ids.contains(id) {
            &&& r is AlreadyForwarded
            &&& after.chat_message_proofs@ == before.chat_message_proofs@
            &&& after.chat_message_ids@ == before.chat_message_ids@
        } else {
            &&& r == (Reply::Accepted { forwarded: (old_proofs.len() + 1) as usize })
            &&& ids_in(after.chat_message_ids@, chat) == old_ids.push(id)
            &&& new_proofs.len() == old_proofs.len() + 1
            &&& new_proofs.drop_last() == old_proofs
            &&& new_proofs.last().text@ == text@
            &&& new_proofs.last().forward_origin.sender_user.username@ == sender@
            &&& new_proofs.last().forward_origin.date@ == decimal_chars(date as nat)
            &&& after.chat_message_ids@.contains_key(chat)
            &&& after.chat_message_proofs@.contains_key(chat)
            &&& after.chat_message_ids@.remove(chat) == before.chat_message_ids@.remove(chat)
            &&& after.chat_message_proofs@.remove(chat) == before.chat_message_proofs@.remove(chat)
        }
    }
}

/// A message accepted once is refused when forwarded again by the same
/// sender, with the same date and text, and the second answer changes no
/// proof and no id.
pub proof fn lemma_forwarding_twice_is_refused(
    d0: Data,
    d1: Data,
    d2: Data,
    chat: i64,
    sender1: String,
    sender2: String,
    date: u64,
    text1: String,
    text2: String,
    r1: Reply,
    r2: Reply,
)
    requires
        respond_post(d0, d1, chat, sender1, date, text1, r1),
        respond_post(d1, d2, chat, sender2, date, text2, r2),
        sender1@ == sender2@,
        text1@ == text2@,
        r1 is Accepted,
    ensures
        r2 is AlreadyForwarded,
        d2.chat_message_proofs@ == d1.chat_message_proofs@,
        d2.chat_message_ids@ == d1.chat_message_ids@,
{
    let id = message_id_of(date, text1@) as u64;
    assert(ids_in(d1.chat_message_ids@, chat).last() == id);
    assert(ids_in(d1.chat_message_ids@, chat).contains(id));
}

/// Once a chat's girlfriend is named, answering a forwarded message never
/// changes her.
pub proof fn lemma_girlfriend_stays(
    d0: Data,
    d1: Data,
    chat: i64,
    sender: String,
    date: u64,
    text: String,
    r: Reply,
)
    requires
        respond_post(d0, d1, chat, sender, date, text, r),
        d0.chat_message_girlfriend@.contains_key(chat),
    ensures
        d1.chat_message_girlfriend@ == d0.chat_message_girlfriend@,
{
}

/// The one-character string of the decimal digit `d`.
fn digit_str(d: u64) -> (s: &'static str)
    requires
        d < 10,
    ensures
        s@ == seq![digit_char(d as nat)],
{
    match d {
        0 => {
            proof {
                reveal_strlit("0");
            }
            "0"
        },
        1 => {
            proof {
                reveal_strlit("1");
            }
            "1"
        },
        2 => {
            proof {
                reveal_strlit("2");
            }
            "2"
        },
        3 => {
            proof {
                reveal_strlit("3");
            }
            "3"
        },
        4 => {
            proof {
                reveal_strlit("4");
            }
            "4"
        },
        5 => {
            proof {
                reveal_strlit("5");
            }
            "5"
        },
        6 => {
            proof {
                reveal_strlit("6");
            }
            "6"
        },
        7 => {
            proof {
                reveal_strlit("7");
            }
            "7"
        },
        8 => {
            proof {
                reveal_strlit("8");
            }
            "8"
        },
        _ => {
            proof {
                reveal_strlit("9");
            }
            "9"
        },
    }
}

/// The decimal representation of `n`, as `u64`'s `to_string` writes it.
fn decimal_string(n: u64) -> (s: String)
    ensures
        s@ == decimal_chars(n as nat),
    decreases n,
{
    if n < 10 {
        String::from_str(digit_str(n))
    } else {
        let mut s = decimal_string(n / 10);
        s.append(digit_str(n % 10));
        assert(s@ =~= decimal_chars((n / 10) as nat).push(digit_char((n % 10) as nat)));
        s
    }
}

/// Whether `id` is among `ids`.
fn contains_id(ids: &Vec<u64>, id: u64) -> (r: bool)
    ensures
        r == ids@.contains(id),
{
    let mut i: usize = 0;
    while i < ids.len()
        invariant
            i <= ids@.len(),
            forall|k: int| 0 <= k < i ==> ids@[k] != id,
        decreases ids@.len() - i,
    {
        if ids[i] == id {
            assert(ids@[i as int] == id);
            return true;
        }
        i += 1;
    }
    false
}

impl Data {
    /// For every chat, one id per proof, and no id twice.
    pub open spec fn well_formed(&self) -> bool {
        forall|chat: i64|
            #![trigger ids_in(self.chat_message_ids@, chat)]
            #![trigger proofs_in(self.chat_message_proofs@, chat)]
            {
                &&& proofs_in(self.chat_message_proofs@, chat).len() == ids_in(
                    self.chat_message_ids@,
                    chat,
                ).len()
                &&& ids_in(self.chat_message_ids@, chat).no_duplicates()
            }
    }

    /// The number of proofs kept for a chat.
    pub open spec fn proof_count(&self, chat: i64) -> nat {
        proofs_in(self.chat_message_proofs@, chat).len()
    }

    /// No chat known yet.
    pub fn new() -> (d: Data)
        ensures
            d.chat_message_proofs@ == Map::<i64, Vec<ProofMessage>>::empty(),
            d.chat_message_ids@ == Map::<i64, Vec<u64>>::empty(),
            d.chat_message_girlfriend@ == Map::<i64, String>::empty(),
            d.well_formed(),
    {
        Data {
            chat_message_proofs: HashMap::new(),
            chat_message_ids: HashMap::new(),
            chat_message_girlfriend: HashMap::new(),
        }
    }

    /// The number of proofs kept for a chat.
    fn forwarded_count(&self, chat: i64) -> (n: usize)
        ensures
            n == self.proof_count(chat),
    {
        match self.chat_message_proofs.get(&chat) {
            Some(v) => v.len(),
            None => 0,
        }
    }

    /// The proofs kept for a chat, to hand to the prover once `/verify`
    /// answers `GeneratingProofs`; `None` for an unknown chat.
    pub fn proofs_for(&self, chat: i64) -> (r: Option<&Vec<ProofMessage>>)
        ensures
            match r {
                Some(v) => self.chat_message_proofs@.contains_key(chat) && *v
                    == self.chat_message_proofs@[chat],
                None => !self.chat_message_proofs@.contains_key(chat),
            },
            r matches Some(v) ==> v@ == proofs_in(self.chat_message_proofs@, chat),
    {
        self.chat_message_proofs.get(&chat)
    }

    /// `/help`: explains the bot; nothing changes.
    pub fn help_handler(&self, chat: i64) -> (r: Reply)
        ensures
            r is Help,
    {
        Reply::Help
    }

    /// `/start`: forgets the proofs and ids of the chat (the girlfriend stays).
    pub fn start_handler(&mut self, chat: i64) -> (r: Reply)
        requires
            old(self).well_formed(),
        ensures
            r is Started,
            final(self).well_formed(),
            final(self).chat_message_proofs@.contains_key(chat),
            final(self).chat_message_proofs@[chat]@ == Seq::<ProofMessage>::empty(),
            final(self).chat_message_proofs@.remove(chat) == old(self).chat_message_proofs@.remove(
                chat,
            ),
            final(self).chat_message_ids@.contains_key(chat),
            final(self).chat_message_ids@[chat]@ == Seq::<u64>::empty(),
            final(self).chat_message_ids@.remove(chat) == old(self).chat_message_ids@.remove(chat),
            final(self).chat_message_girlfriend@ == old(self).chat_message_girlfriend@,
    {
        let ghost old_data = *self;
        self.chat_message_proofs.insert(chat, Vec::new());
        self.chat_message_ids.insert(chat, Vec::new());
        proof {
            assert forall|c: i64|
                #![trigger ids_in(self.chat_message_ids@, c)]
                #![trigger proofs_in(self.chat_message_proofs@, c)]
                {
                    &&& proofs_in(self.chat_message_proofs@, c).len() == ids_in(
                        self.chat_message_ids@,
                        c,
                    ).len()
                    &&& ids_in(self.chat_message_ids@, c).no_duplicates()
                } by {
                if c != chat {
                    assert(proofs_in(self.chat_message_proofs@, c) == proofs_in(
                        old_data.chat_message_proofs@,
                        c,
                    ));
                    assert(ids_in(self.chat_message_ids@, c) == ids_in(
                        old_data.chat_message_ids@,
                        c,
                    ));
                }
            }
            assert(self.chat_message_proofs@.remove(chat) =~= old_data.chat_message_proofs@.remove(
                chat,
            ));
            assert(self.chat_message_ids@.remove(chat) =~= old_data.chat_message_ids@.remove(chat));
        }
        Reply::Started
    }

    /// A message forwarded from `sender`, sent at `date` with `text`.
    ///
    /// The first sender of a chat becomes its girlfriend; a message from anyone
    /// else is refused and nothing changes. A message whose id was seen before
    /// in the chat is refused, and only the girlfriend may have been recorded.
    /// Otherwise the message is kept as a proof and its id remembered.
    pub fn respond_handler(&mut self, chat: i64, sender: String, date: u64, text: String) -> (r:
        Reply)
        requires
            old(self).well_formed(),
            message_id_of(date, text@) <= u64::MAX,
        ensures
            final(self).well_formed(),
            respond_post(*old(self), *final(self), chat, sender, date, text, r),
    {
        let ghost old_data = *self;
        let t: &str = text.as_str();
        let byte_len: usize = t.len();
        assert(t.spec_bytes() == encode_utf8(text@));
        let id: u64 = date + (byte_len as u64);
        assert(id == message_id_of(date, text@));
        let known: Option<String> = match self.chat_message_girlfriend.get(&chat) {
            Some(g) => Some(g.clone()),
            None => None,
        };
        match known {
            Some(g) => {
                if !g.eq(&sender) {
                    return Reply::WrongSender { girlfriend: g };
                }
            },
            None => {
                self.chat_message_girlfriend.insert(chat, sender.clone());
            },
        }
        let seen: bool = match self.chat_message_ids.get(&chat) {
            Some(ids) => contains_id(ids, id),
            None => false,
        };
        if seen {
            return Reply::AlreadyForwarded;
        }
        let proof = ProofMessage {
            forward_origin: ForwardOrigin {
                sender_user: SenderUser { username: sender },
                date: decimal_string(date),
            },
            text,
        };
        let mut proofs: Vec<ProofMessage> = match self.chat_message_proofs.remove(&chat) {
            Some(v) => v,
            None => Vec::new(),
        };
        proofs.push(proof);
        let count: usize = proofs.len();
        self.chat_message_proofs.insert(chat, proofs);
        let mut ids: Vec<u64> = match self.chat_message_ids.remove(&chat) {
            Some(v) => v,
            None => Vec::new(),
        };
        ids.push(id);
        self.chat_message_ids.insert(chat, ids);
        proof {
            let new_ids = ids_in(self.chat_message_ids@, chat);
            let old_ids = ids_in(old_data.chat_message_ids@, chat);
            assert(new_ids =~= old_ids.push(id));
            assert(proofs_in(self.chat_message_proofs@, chat).drop_last() =~= proofs_in(
                old_data.chat_message_proofs@,
                chat,
            ));
            assert forall|c: i64|
                #![trigger ids_in(self.chat_message_ids@, c)]
                #![trigger proofs_in(self.chat_message_proofs@, c)]
                {
                    &&& proofs_in(self.chat_message_proofs@, c).len() == ids_in(
                        self.chat_message_ids@,
                        c,
                    ).len()
                    &&& ids_in(self.chat_message_ids@, c).no_duplicates()
                } by {
                if c != chat {
                    assert(proofs_in(self.chat_message_proofs@, c) == proofs_in(
                        old_data.chat_message_proofs@,
                        c,
                    ));
                    assert(ids_in(self.chat_message_ids@, c) == ids_in(
                        old_data.chat_message_ids@,
                        c,
                    ));
                } else {
                    assert(proofs_in(old_data.chat_message_proofs@, c).len() == ids_in(
                        old_data.chat_message_ids@,
                        c,
                    ).len());
                    assert(old_ids.no_duplicates());
                    assert(!old_ids.contains(id));
                    assert forall|a: int, b: int|
                        0 <= a < new_ids.len() && 0 <= b < new_ids.len() && a != b implies new_ids[a]
                        != new_ids[b] by {
                        if a == new_ids.len() - 1 {
                            assert(old_ids[b] == new_ids[b]);
                        } else if b == new_ids.len() - 1 {
                            assert(old_ids[a] == new_ids[a]);
                        }
                    }
                }
            }
            assert(self.chat_message_proofs@.remove(chat) =~= old_data.chat_message_proofs@.remove(
                chat,
            ));
            assert(self.chat_message_ids@.remove(chat) =~= old_data.chat_message_ids@.remove(chat));
        }
        Reply::Accepted { forwarded: count }
    }

    /// `/verify`: at least three messages must have been kept; nothing
    /// changes.
    pub fn verify_handler(&self, chat: i64) -> (r: Reply)
        ensures
            self.proof_count(chat) < 3 ==> r is NeedMoreMessages,
            self.proof_count(chat) >= 3 ==> r is GeneratingProofs,
    {
        if self.forwarded_count(chat) < 3 {
            Reply::NeedMoreMessages
        } else {
            Reply::GeneratingProofs
        }
    }

    /// Any other message that is not forwarded: tells how many have been kept;
    /// nothing changes.
    pub fn regular_handler(&self, chat: i64) -> (r: Reply)
        ensures
            r == (Reply::ForwardOnly { forwarded: self.proof_count(chat) as usize }),
    {
        Reply::ForwardOnly { forwarded: self.forwarded_count(chat) }
    }
}

} // verus!
