//! The love keywords that every scored message must carry.
use vstd::prelude::*;
use vstd::string::*;

verus! {

/// `needle` occurs in `hay` starting at index `i`.
pub open spec fn occurs_at(hay: Seq<char>, needle: Seq<char>, i: int) -> bool {
    &&& 0 <= i
    &&& i + needle.len() <= hay.len()
    &&& hay.subrange(i, i + needle.len()) == needle
}

/// `needle` occurs somewhere in `hay` as a contiguous run of characters.
pub open spec fn contains_chars(hay: Seq<char>, needle: Seq<char>) -> bool {
    exists|i: int| occurs_at(hay, needle, i)
}

/// The word "love".
pub open spec fn love_word() -> Seq<char> {
    seq!['l', 'o', 'v', 'e']
}

/// The red heart emoji: U+2764 followed by the variation selector U+FE0F.
pub open spec fn red_heart() -> Seq<char> {
    seq!['\u{2764}', '\u{fe0f}']
}

/// The single-character hearts: two hearts, revolving hearts, sparkling
/// heart, heart with arrow.
pub open spec fn heart_chars() -> Seq<char> {
    seq!['\u{1f495}', '\u{1f49e}', '\u{1f496}', '\u{1f498}']
}

/// A text carries a love keyword: it contains the word "love" or the red
/// heart, or one of the single-character hearts.
pub open spec fn love_keyword_in(text: Seq<char>) -> bool {
    ||| contains_chars(text, love_word())
    ||| contains_chars(text, red_heart())
    ||| exists|k: int| 0 <= k < heart_chars().len() && text.contains(#[trigger] heart_chars()[k])
}

/// The characters of a string, in order.
pub fn chars_of(s: &String) -> (v: Vec<char>)
    ensures
        v@ == s@,
{
    let t: &str = s.as_str();
    let n: usize = t.unicode_len();
    let mut v: Vec<char> = Vec::new();
    let mut i: usize = 0;
    while i < n
        invariant
            t@ == s@,
            n == s@.len(),
            i <= n,
            v@ == s@.subrange(0, i as int),
        decreases n - i,
    {
        let c = t.get_char(i);
        v.push(c);
        i += 1;
        assert(v@ =~= s@.subrange(0, i as int));
    }
    assert(v@ =~= s@);
    v
}

/// Whether `needle` occurs in `hay` as a contiguous run.
pub fn find_chars(hay: &Vec<char>, needle: &Vec<char>) -> (r: bool)
    ensures
        r == contains_chars(hay@, needle@),
{
    if needle.len() == 0 {
        assert(hay@.subrange(0, 0) =~= needle@);
        assert(occurs_at(hay@, needle@, 0));
        return true;
    }
    if needle.len() > hay.len() {
        return false;
    }
    let last: usize = hay.len() - needle.len();
    let mut i: usize = 0;
    while i <= last
        invariant
            last == hay@.len() - needle@.len(),
            1 <= needle@.len() <= hay@.len() <= usize::MAX,
            i <= last + 1,
            forall|k: int| 0 <= k < i ==> !occurs_at(hay@, needle@, k),
        decreases last + 1 - i,
    {
        let mut j: usize = 0;
        let mut same: bool = true;
        while j < needle.len()
            invariant
                i <= last,
                last == hay@.len() - needle@.len(),
                1 <= needle@.len() <= hay@.len() <= usize::MAX,
                j <= needle@.len(),
                same == forall|t: int| 0 <= t < j ==> hay@[i + t] == needle@[t],
            decreases needle@.len() - j,
        {
            same = same && hay[i + j] == needle[j];
            j += 1;
        }
        if same {
            assert(hay@.subrange(i as int, i + needle@.len()) =~= needle@);
            assert(occurs_at(hay@, needle@, i as int));
            return true;
        }
        assert(!occurs_at(hay@, needle@, i as int)) by {
            if occurs_at(hay@, needle@, i as int) {
                let t = choose|t: int| 0 <= t < needle@.len() && hay@[i + t] != needle@[t];
                assert(hay@.subrange(i as int, i + needle@.len())[t] == hay@[i + t]);
            }
        }
        i += 1;
    }
    false
}

/// Whether the character `c` occurs in `hay`.
pub fn find_char(hay: &Vec<char>, c: char) -> (r: bool)
    ensures
        r == hay@.contains(c),
{
    let mut i: usize = 0;
    while i < hay.len()
        invariant
            i <= hay@.len(),
            forall|k: int| 0 <= k < i ==> hay@[k] != c,
        decreases hay@.len() - i,
    {
        if hay[i] == c {
            assert(hay@[i as int] == c);
            return true;
        }
        i += 1;
    }
    false
}

/// Whether a text carries a love keyword.
pub fn has_love_keyword(text: &String) -> (r: bool)
    ensures
        r == love_keyword_in(text@),
{
    let chars = chars_of(text);
    let love: Vec<char> = vec!['l', 'o', 'v', 'e'];
    let heart: Vec<char> = vec!['\u{2764}', '\u{fe0f}'];
    assert(love@ =~= love_word());
    assert(heart@ =~= red_heart());
    let hearts: Vec<char> = vec!['\u{1f495}', '\u{1f49e}', '\u{1f496}', '\u{1f498}'];
    assert(hearts@ =~= heart_chars());
    if find_chars(&chars, &love) {
        return true;
    }
    if find_chars(&chars, &heart) {
        return true;
    }
    let mut k: usize = 0;
    while k < hearts.len()
        invariant
            hearts@ == heart_chars(),
            chars@ == text@,
            k <= hearts@.len(),
            !contains_chars(text@, love_word()),
            !contains_chars(text@, red_heart()),
            forall|m: int| 0 <= m < k ==> !text@.contains(#[trigger] heart_chars()[m]),
        decreases hearts@.len() - k,
    {
        if find_char(&chars, hearts[k]) {
            assert(text@.contains(heart_chars()[k as int]));
            return true;
        }
        k += 1;
    }
    false
}

} // verus!
