//! Characters, words and decimal numbers: what every field of the notation is
//! made of.

use vstd::prelude::*;
use itertools::Itertools;

verus! {

/// The characters that separate the fields of a record: space, tab, line feed,
/// form feed and carriage return.
pub open spec fn is_space(c: char) -> bool {
    c == ' ' || c == '\t' || c == '\n' || c == '\x0C' || c == '\r'
}

/// The decimal digits.
pub open spec fn is_digit(c: char) -> bool {
    '0' <= c <= '9'
}

/// The number that a decimal digit stands for.
pub open spec fn digit_value(c: char) -> int {
    c as int - '0' as int
}

/// The digit that stands for `d`, for `d` from 0 to 9.
pub open spec fn digit_char(d: int) -> char {
    ('0' as int + d) as char
}

/// What a word list holds after the word `cur`, if it is not empty, has been
/// added to an empty list.
pub open spec fn closed_word(cur: Seq<char>) -> Seq<Seq<char>> {
    if cur.len() == 0 {
        Seq::empty()
    } else {
        seq![cur]
    }
}

/// The words of `s` when the characters of `cur` stand before it as the
/// beginning of a word.
pub open spec fn tokens_from(cur: Seq<char>, s: Seq<char>) -> Seq<Seq<char>>
    decreases s.len(),
{
    if s.len() == 0 {
        closed_word(cur)
    } else if is_space(s[0]) {
        closed_word(cur) + tokens_from(Seq::empty(), s.drop_first())
    } else {
        tokens_from(cur.push(s[0]), s.drop_first())
    }
}

/// The words of `s`: its longest runs of characters that are no separators, in
/// order. No word is empty.
pub open spec fn tokens(s: Seq<char>) -> Seq<Seq<char>> {
    tokens_from(Seq::empty(), s)
}

/// The parts of `s` between the occurrences of `sep` when the characters of
/// `cur` stand before it as the beginning of the first part.
pub open spec fn split_from(cur: Seq<char>, s: Seq<char>, sep: char) -> Seq<Seq<char>>
    decreases s.len(),
{
    if s.len() == 0 {
        seq![cur]
    } else if s[0] == sep {
        seq![cur] + split_from(Seq::empty(), s.drop_first(), sep)
    } else {
        split_from(cur.push(s[0]), s.drop_first(), sep)
    }
}

/// The parts of `s` between the occurrences of `sep`, in order. There is one
/// part more than there are occurrences, and a part may be empty.
pub open spec fn split(s: Seq<char>, sep: char) -> Seq<Seq<char>> {
    split_from(Seq::empty(), s, sep)
}

/// The texts of `parts` in order with `sep` between each two of them.
pub open spec fn join(parts: Seq<Seq<char>>, sep: Seq<char>) -> Seq<char>
    decreases parts.len(),
{
    if parts.len() == 0 {
        Seq::empty()
    } else if parts.len() == 1 {
        parts[0]
    } else {
        parts[0] + sep + join(parts.drop_first(), sep)
    }
}

/// The decimal digits of `n`, without leading zeros.
pub open spec fn nat_text(n: nat) -> Seq<char>
    decreases n,
{
    if n < 10 {
        seq![digit_char(n as int)]
    } else {
        nat_text(n / 10).push(digit_char((n % 10) as int))
    }
}

/// The decimal text of `i`: a minus sign if it is negative, then the digits of
/// its magnitude.
pub open spec fn int_text(i: int) -> Seq<char> {
    if i < 0 {
        seq!['-'] + nat_text((-i) as nat)
    } else {
        nat_text(i as nat)
    }
}

/// The texts of a list of character vectors.
pub open spec fn texts(words: Seq<Vec<char>>) -> Seq<Seq<char>> {
    words.map_values(|w: Vec<char>| w@)
}

/// The texts of a list of strings.
pub open spec fn string_texts(parts: Seq<String>) -> Seq<Seq<char>> {
    parts.map_values(|p: String| p@)
}

/// The characters of `s`.
pub fn chars_of(s: &str) -> (chars: Vec<char>)
    ensures
        chars@ == s@,
{
    let mut chars: Vec<char> = Vec::new();
    for c in it: s.chars()
        invariant
            it.seq() == s@,
            chars@ == it.seq().take(it.index() as int),
    {
        chars.push(c);
    }
    assert(chars@ =~= s@);
    chars
}

/// Whether `word` spells `lit`.
pub fn spells(word: &Vec<char>, lit: &str) -> (r: bool)
    ensures
        r == (word@ == lit@),
{
    let other = chars_of(lit);
    if word.len() != other.len() {
        return false;
    }
    let mut i: usize = 0;
    while i < word.len()
        invariant
            i <= word.len(),
            word.len() == other.len(),
            other@ == lit@,
            forall|j: int| 0 <= j < i ==> word@[j] == other@[j],
        decreases word.len() - i,
    {
        if word[i] != other[i] {
            return false;
        }
        i += 1;
    }
    assert(word@ =~= other@);
    true
}

/// The words of `text`.
pub fn tokenize(text: &Vec<char>) -> (words: Vec<Vec<char>>)
    ensures
        texts(words@) == tokens(text@),
{
    let mut words: Vec<Vec<char>> = Vec::new();
    let mut cur: Vec<char> = Vec::new();
    let mut i: usize = 0;
    assert(texts(words@) =~= Seq::<Seq<char>>::empty());
    assert(text@.skip(0) =~= text@);
    while i < text.len()
        invariant
            i <= text.len(),
            tokens(text@) == texts(words@) + tokens_from(cur@, text@.skip(i as int)),
        decreases text.len() - i,
    {
        let c = text[i];
        proof {
            assert(text@.skip(i as int).drop_first() =~= text@.skip(i + 1));
        }
        if c == ' ' || c == '\t' || c == '\n' || c == '\x0C' || c == '\r' {
            if cur.len() > 0 {
                proof {
                    assert(texts(words@.push(cur)) =~= texts(words@) + closed_word(cur@));
                    assert(texts(words@) + (closed_word(cur@) + tokens_from(
                        Seq::empty(),
                        text@.skip(i + 1),
                    )) =~= texts(words@) + closed_word(cur@) + tokens_from(
                        Seq::empty(),
                        text@.skip(i + 1),
                    ));
                }
                words.push(cur);
                cur = Vec::new();
            } else {
                proof {
                    assert(cur@ =~= Seq::<char>::empty());
                    assert(texts(words@) + (closed_word(cur@) + tokens_from(
                        Seq::empty(),
                        text@.skip(i + 1),
                    )) =~= texts(words@) + tokens_from(Seq::empty(), text@.skip(i + 1)));
                }
            }
        } else {
            cur.push(c);
        }
        i += 1;
    }
    if cur.len() > 0 {
        proof {
            assert(texts(words@.push(cur)) =~= texts(words@) + closed_word(cur@));
        }
        words.push(cur);
    } else {
        assert(texts(words@) + closed_word(cur@) =~= texts(words@));
    }
    words
}

/// The parts of `text` between the occurrences of `sep`.
pub fn split_on(text: &Vec<char>, sep: char) -> (parts: Vec<Vec<char>>)
    ensures
        texts(parts@) == split(text@, sep),
{
    let mut parts: Vec<Vec<char>> = Vec::new();
    let mut cur: Vec<char> = Vec::new();
    let mut i: usize = 0;
    assert(texts(parts@) =~= Seq::<Seq<char>>::empty());
    assert(text@.skip(0) =~= text@);
    while i < text.len()
        invariant
            i <= text.len(),
            split(text@, sep) == texts(parts@) + split_from(cur@, text@.skip(i as int), sep),
        decreases text.len() - i,
    {
        let c = text[i];
        proof {
            assert(text@.skip(i as int).drop_first() =~= text@.skip(i + 1));
        }
        if c == sep {
            proof {
                assert(texts(parts@.push(cur)) =~= texts(parts@) + seq![cur@]);
                assert(texts(parts@) + (seq![cur@] + split_from(
                    Seq::empty(),
                    text@.skip(i + 1),
                    sep,
                )) =~= texts(parts@) + seq![cur@] + split_from(
                    Seq::empty(),
                    text@.skip(i + 1),
                    sep,
                ));
            }
            parts.push(cur);
            cur = Vec::new();
        } else {
            cur.push(c);
        }
        i += 1;
    }
    proof {
        assert(texts(parts@.push(cur)) =~= texts(parts@) + seq![cur@]);
    }
    parts.push(cur);
    parts
}

/// `String::push`: puts the character `c` at the end of `s` and leaves the
/// rest of `s` as it was.
#[verifier::external_body]
pub(crate) fn push_char(s: &mut String, c: char)
    ensures
        final(s)@ == old(s)@.push(c),
{
    s.push(c)
}

/// `Itertools::join` on the strings of `parts`: the texts of the strings in
/// order, with the text of `sep` between each two of them, and the empty
/// string where there is none.
#[verifier::external_body]
pub(crate) fn join_strings(parts: &Vec<String>, sep: &str) -> (joined: String)
    ensures
        joined@ == join(string_texts(parts@), sep@),
{
    parts.iter().join(sep)
}

/// Puts the characters of `chars` at the end of `s`.
pub fn push_chars(s: &mut String, chars: &Vec<char>)
    ensures
        final(s)@ == old(s)@ + chars@,
{
    let mut i: usize = 0;
    assert(s@ =~= old(s)@ + chars@.take(0));
    while i < chars.len()
        invariant
            i <= chars.len(),
            s@ == old(s)@ + chars@.take(i as int),
        decreases chars.len() - i,
    {
        push_char(s, chars[i]);
        assert(s@ =~= old(s)@ + chars@.take(i + 1));
        i += 1;
    }
    assert(chars@.take(chars.len() as int) =~= chars@);
}

/// The digit that stands for `d`.
pub fn digit_of(d: u8) -> (c: char)
    requires
        d < 10,
    ensures
        c == digit_char(d as int),
        is_digit(c),
        digit_value(c) == d,
{
    (('0' as u8) + d) as char
}

/// Puts the decimal digits of `n` at the end of `s`.
pub fn push_nat(s: &mut String, n: u32)
    ensures
        final(s)@ == old(s)@ + nat_text(n as nat),
    decreases n,
{
    if n >= 10 {
        push_nat(s, n / 10);
    }
    push_char(s, digit_of((n % 10) as u8));
    proof {
        if n >= 10 {
            assert(s@ =~= old(s)@ + nat_text(n as nat));
        } else {
            assert(s@ =~= old(s)@ + nat_text(n as nat));
        }
    }
}

} // verus!
