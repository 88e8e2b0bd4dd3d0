//! Words, parts and decimal numbers.

use vstd::prelude::*;
use crate::text::{
    closed_word, digit_char, digit_value, is_digit, is_space, join, nat_text, split, split_from,
    tokens, tokens_from,
};

verus! {

/// No character of `s` separates words.
pub open spec fn spaceless(s: Seq<char>) -> bool {
    forall|i: int| 0 <= i < s.len() ==> !is_space(#[trigger] s[i])
}

/// No character of `s` is `c`.
pub open spec fn free_of(s: Seq<char>, c: char) -> bool {
    forall|i: int| 0 <= i < s.len() ==> #[trigger] s[i] != c
}

/// Every character of `s` is a decimal digit.
pub open spec fn all_digits(s: Seq<char>) -> bool {
    forall|i: int| 0 <= i < s.len() ==> is_digit(#[trigger] s[i])
}

/// Characters that do not separate words only make the word that is being
/// read longer.
pub proof fn lemma_tokens_through_word(cur: Seq<char>, word: Seq<char>, rest: Seq<char>)
    requires
        spaceless(word),
    ensures
        tokens_from(cur, word + rest) == tokens_from(cur + word, rest),
    decreases word.len(),
{
    if word.len() == 0 {
        assert(word + rest =~= rest);
        assert(cur + word =~= cur);
    } else {
        let tail = word.drop_first();
        assert((word + rest)[0] == word[0]);
        assert((word + rest).drop_first() =~= tail + rest);
        assert forall|i: int| 0 <= i < tail.len() implies !is_space(#[trigger] tail[i]) by {
            assert(tail[i] == word[i + 1]);
        }
        lemma_tokens_through_word(cur.push(word[0]), tail, rest);
        assert(cur.push(word[0]) + tail =~= cur + word);
    }
}

/// The words of a text made of words with one space between each two are
/// those words.
pub proof fn lemma_tokens_of_join(words: Seq<Seq<char>>)
    requires
        forall|i: int| 0 <= i < words.len() ==> (#[trigger] words[i]).len() > 0,
        forall|i: int| 0 <= i < words.len() ==> spaceless(#[trigger] words[i]),
    ensures
        tokens(join(words, " "@)) == words,
    decreases words.len(),
{
    reveal_strlit(" ");
    let empty = Seq::<char>::empty();
    if words.len() == 0 {
        assert(tokens(join(words, " "@)) =~= words);
    } else if words.len() == 1 {
        lemma_tokens_through_word(empty, words[0], empty);
        assert(words[0] + empty =~= words[0]);
        assert(empty + words[0] =~= words[0]);
        assert(seq![words[0]] =~= words);
    } else {
        let rest = words.drop_first();
        let tail = " "@ + join(rest, " "@);
        assert(words[0] + " "@ + join(rest, " "@) =~= words[0] + tail);
        lemma_tokens_through_word(empty, words[0], tail);
        assert(empty + words[0] =~= words[0]);
        assert(tail[0] == ' ');
        assert(tail.drop_first() =~= join(rest, " "@));
        assert forall|i: int| 0 <= i < rest.len() implies (#[trigger] rest[i]).len() > 0
            && spaceless(rest[i]) by {
            assert(rest[i] == words[i + 1]);
        }
        lemma_tokens_of_join(rest);
        assert(closed_word(words[0]) + rest =~= words);
    }
}

/// Characters other than the separator only make the part that is being read
/// longer.
pub proof fn lemma_split_through_part(cur: Seq<char>, part: Seq<char>, rest: Seq<char>, sep: char)
    requires
        free_of(part, sep),
    ensures
        split_from(cur, part + rest, sep) == split_from(cur + part, rest, sep),
    decreases part.len(),
{
    if part.len() == 0 {
        assert(part + rest =~= rest);
        assert(cur + part =~= cur);
    } else {
        let tail = part.drop_first();
        assert((part + rest)[0] == part[0]);
        assert((part + rest).drop_first() =~= tail + rest);
        assert forall|i: int| 0 <= i < tail.len() implies #[trigger] tail[i] != sep by {
            assert(tail[i] == part[i + 1]);
        }
        lemma_split_through_part(cur.push(part[0]), tail, rest, sep);
        assert(cur.push(part[0]) + tail =~= cur + part);
    }
}

/// The parts of a text made of parts with the separator between each two are
/// those parts.
pub proof fn lemma_split_of_join(parts: Seq<Seq<char>>, sep: char)
    requires
        parts.len() > 0,
        forall|i: int| 0 <= i < parts.len() ==> free_of(#[trigger] parts[i], sep),
    ensures
        split(join(parts, seq![sep]), sep) == parts,
    decreases parts.len(),
{
    let empty = Seq::<char>::empty();
    if parts.len() == 1 {
        lemma_split_through_part(empty, parts[0], empty, sep);
        assert(parts[0] + empty =~= parts[0]);
        assert(empty + parts[0] =~= parts[0]);
        assert(seq![parts[0]] =~= parts);
    } else {
        let rest = parts.drop_first();
        let tail = seq![sep] + join(rest, seq![sep]);
        assert(parts[0] + seq![sep] + join(rest, seq![sep]) =~= parts[0] + tail);
        lemma_split_through_part(empty, parts[0], tail, sep);
        assert(empty + parts[0] =~= parts[0]);
        assert(tail[0] == sep);
        assert(tail.drop_first() =~= join(rest, seq![sep]));
        assert forall|i: int| 0 <= i < rest.len() implies free_of(#[trigger] rest[i], sep) by {
            assert(rest[i] == parts[i + 1]);
        }
        lemma_split_of_join(rest, sep);
        assert(seq![parts[0]] + rest =~= parts);
    }
}

/// A digit stands for the number that it was made from.
pub proof fn lemma_digit_char(d: int)
    requires
        0 <= d <= 9,
    ensures
        is_digit(digit_char(d)),
        digit_value(digit_char(d)) == d,
        !is_space(digit_char(d)),
{
}

/// The decimal text of a number is made of digits, and at least one.
pub proof fn lemma_nat_text_digits(n: nat)
    ensures
        nat_text(n).len() > 0,
        all_digits(nat_text(n)),
    decreases n,
{
    if n < 10 {
        lemma_digit_char(n as int);
    } else {
        lemma_nat_text_digits(n / 10);
        lemma_digit_char((n % 10) as int);
    }
}

} // verus!
