//! Which handler of the bot an incoming message goes to.
use vstd::prelude::*;

use crate::keywords::chars_of;

verus! {

/// The commands the bot understands.
#[derive(PartialEq, Eq, Structural, Debug, Clone, Copy)]
pub enum Command {
    /// `/help`
    Help,
    /// `/start`
    Start,
    /// `/verify`
    Verify,
}

/// Where an incoming message goes.
#[derive(PartialEq, Eq, Structural, Debug, Clone, Copy)]
pub enum Route {
    /// A text starting with `/` whose first word is a known command.
    Command(Command),
    /// A text starting with `/` whose first word is no known command.
    UnknownCommand,
    /// Any other message that was forwarded.
    Forwarded,
    /// Any other message.
    Regular,
}

/// Unicode's White_Space property, as `char::is_whitespace` tests it.
pub open spec fn is_white_space(c: char) -> bool {
    ||| '\u{9}' <= c <= '\u{d}'
    ||| c == ' '
    ||| c == '\u{85}'
    ||| c == '\u{a0}'
    ||| c == '\u{1680}'
    ||| '\u{2000}' <= c <= '\u{200a}'
    ||| c == '\u{2028}'
    ||| c == '\u{2029}'
    ||| c == '\u{202f}'
    ||| c == '\u{205f}'
    ||| c == '\u{3000}'
}

/// The number of characters before the first white space (or the end).
pub open spec fn token_len(t: Seq<char>) -> nat
    decreases t.len(),
{
    if t.len() == 0 || is_white_space(t[0]) {
        0
    } else {
        1 + token_len(t.drop_first())
    }
}

/// The first word of a text that does not start with white space.
pub open spec fn first_token(t: Seq<char>) -> Seq<char> {
    t.take(token_len(t) as int)
}

/// The command a word names, if any.
pub open spec fn command_of(word: Seq<char>) -> Option<Command> {
    if word == seq!['/', 'h', 'e', 'l', 'p'] {
        Some(Command::Help)
    } else if word == seq!['/', 's', 't', 'a', 'r', 't'] {
        Some(Command::Start)
    } else if word == seq!['/', 'v', 'e', 'r', 'i', 'f', 'y'] {
        Some(Command::Verify)
    } else {
        None
    }
}

/// Where a message with the given text, forwarded or not, goes: a text that
/// starts with `/` is a command, named by its first word; otherwise a
/// forwarded message is collected, and any other message is answered with
/// the count so far.
pub open spec fn route_of(text: Option<Seq<char>>, forwarded: bool) -> Route {
    match text {
        Some(t) if t.len() > 0 && t[0] == '/' => match command_of(first_token(t)) {
            Some(c) => Route::Command(c),
            None => Route::UnknownCommand,
        },
        _ => if forwarded {
            Route::Forwarded
        } else {
            Route::Regular
        },
    }
}

/// `char::is_whitespace`, written out.
pub fn is_white_space_char(c: char) -> (r: bool)
    ensures
        r == is_white_space(c),
{
    ('\u{9}' <= c && c <= '\u{d}') || c == ' ' || c == '\u{85}' || c == '\u{a0}' || c
        == '\u{1680}' || ('\u{2000}' <= c && c <= '\u{200a}') || c == '\u{2028}' || c
        == '\u{2029}' || c == '\u{202f}' || c == '\u{205f}' || c == '\u{3000}'
}

/// The characters before the first white space start at position `i` stay
/// the same when the text is cut at `i`.
proof fn lemma_token_len_step(t: Seq<char>, i: int)
    requires
        0 <= i < t.len(),
        forall|k: int| 0 <= k < i ==> !is_white_space(#[trigger] t[k]),
    ensures
        is_white_space(t[i]) ==> token_len(t) == i,
        i == t.len() - 1 && !is_white_space(t[i]) ==> token_len(t) == t.len(),
    decreases i,
{
    if i > 0 {
        let u = t.drop_first();
        assert forall|k: int| 0 <= k < i - 1 implies !is_white_space(#[trigger] u[k]) by {
            assert(u[k] == t[k + 1]);
        }
        assert(u[i - 1] == t[i]);
        lemma_token_len_step(u, i - 1);
        assert(!is_white_space(t[0]));
    } else {
        if !is_white_space(t[0]) && t.len() == 1 {
            assert(t.drop_first().len() == 0);
            assert(token_len(t.drop_first()) == 0);
        }
    }
}

/// The first word of a sequence of characters.
fn first_word(t: &Vec<char>) -> (w: Vec<char>)
    ensures
        w@ == first_token(t@),
{
    let mut w: Vec<char> = Vec::new();
    let mut i: usize = 0;
    let n = t.len();
    if n == 0 {
        assert(t@.take(0) =~= w@);
        return w;
    }
    while i < n
        invariant
            n == t@.len(),
            n > 0,
            i <= n,
            w@ == t@.take(i as int),
            forall|k: int| 0 <= k < i ==> !is_white_space(#[trigger] t@[k]),
        decreases n - i,
    {
        if is_white_space_char(t[i]) {
            proof {
                lemma_token_len_step(t@, i as int);
            }
            return w;
        }
        w.push(t[i]);
        i += 1;
        assert(w@ =~= t@.take(i as int));
    }
    proof {
        lemma_token_len_step(t@, n - 1);
    }
    assert(t@.take(n as int) =~= t@);
    w
}

/// Whether two sequences of characters are the same.
fn same_chars(a: &Vec<char>, b: &Vec<char>) -> (r: bool)
    ensures
        r == (a@ == b@),
{
    if a.len() != b.len() {
        return false;
    }
    let mut i: usize = 0;
    while i < a.len()
        invariant
            a@.len() == b@.len(),
            i <= a@.len(),
            forall|k: int| 0 <= k < i ==> a@[k] == b@[k],
        decreases a@.len() - i,
    {
        if a[i] != b[i] {
            return false;
        }
        i += 1;
    }
    assert(a@ =~= b@);
    true
}

/// Where an incoming message goes.
pub fn route(text: &Option<String>, forwarded: bool) -> (r: Route)
    ensures
        r == route_of(
            match text {
                Some(s) => Some(s@),
                None => None,
            },
            forwarded,
        ),
{
    match text {
        Some(s) => {
            let t = chars_of(s);
            if t.len() > 0 && t[0] == '/' {
                let word = first_word(&t);
                let help: Vec<char> = vec!['/', 'h', 'e', 'l', 'p'];
                let start: Vec<char> = vec!['/', 's', 't', 'a', 'r', 't'];
                let verify: Vec<char> = vec!['/', 'v', 'e', 'r', 'i', 'f', 'y'];
                if same_chars(&word, &help) {
                    return Route::Command(Command::Help);
                } else if same_chars(&word, &start) {
                    return Route::Command(Command::Start);
                } else if same_chars(&word, &verify) {
                    return Route::Command(Command::Verify);
                } else {
                    return Route::UnknownCommand;
                }
            }
        },
        None => {},
    }
    if forwarded {
        Route::Forwarded
    } else {
        Route::Regular
    }
}

} // verus!
