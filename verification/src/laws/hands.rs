//! Hands.

use vstd::prelude::*;
use crate::grammar::{
    hand_entry_text, hand_order, hands_of, hands_scan, hands_step, hands_text, hands_text_from,
    piece_letter, HandsScan, Reading,
};
use crate::hand::{empty_hand, hand_is_empty};
use crate::laws::board::{is_letter, lemma_letter_of_piece};
use crate::laws::words::{lemma_digit_char, lemma_nat_text_digits, spaceless};
use crate::piece::{PieceType, Side};
use crate::text::{digit_char, is_digit, nat_text};

verus! {

/// Every character of `s` is a letter or a digit.
pub open spec fn entry_chars(s: Seq<char>) -> bool {
    forall|i: int| 0 <= i < s.len() ==> is_letter(#[trigger] s[i]) || is_digit(s[i])
}

/// The place in the writing order of the hand piece type whose count stands
/// at place `i` of a hand.
pub open spec fn order_place(i: int) -> int {
    if i == 0 {
        6
    } else if i == 1 {
        5
    } else if i == 2 {
        4
    } else if i == 3 {
        3
    } else if i == 4 {
        1
    } else if i == 5 {
        0
    } else {
        2
    }
}

/// The counts of a hand of which only the first `k` of the writing order
/// have been written.
pub open spec fn written(counts: Seq<u8>, k: int) -> Seq<u8> {
    Seq::new(
        7,
        |i: int|
            if order_place(i) < k {
                counts[i]
            } else {
                0u8
            },
    )
}

/// The counts that the reading holds for `side`.
pub open spec fn counts_of(st: HandsScan, side: Side) -> Seq<u8> {
    match side {
        Side::Sente => st.sente,
        Side::Gote => st.gote,
    }
}

/// The reading `st` with `counts` in the place of the counts of `side`, and
/// no count waiting.
pub open spec fn with_counts(st: HandsScan, side: Side, counts: Seq<u8>) -> HandsScan {
    match side {
        Side::Sente => HandsScan { sente: counts, gote: st.gote, pending: 0 },
        Side::Gote => HandsScan { sente: st.sente, gote: counts, pending: 0 },
    }
}

/// Reading a text in two pieces is reading the first piece and then, from
/// where that ended, the second.
pub proof fn lemma_hands_scan_concat(st: HandsScan, a: Seq<char>, b: Seq<char>)
    ensures
        hands_scan(st, a + b) == match hands_scan(st, a) {
            Err(msg) => Err(msg),
            Ok(mid) => hands_scan(mid, b),
        },
    decreases a.len(),
{
    if a.len() == 0 {
        assert(a + b =~= b);
    } else {
        assert((a + b)[0] == a[0]);
        assert((a + b).drop_first() =~= a.drop_first() + b);
        match hands_step(st, a[0]) {
            Err(_) => {},
            Ok(next) => {
                lemma_hands_scan_concat(next, a.drop_first(), b);
            },
        }
    }
}

/// Reading the decimal text of a count makes that count wait for its letter.
pub proof fn lemma_hands_scan_count(st: HandsScan, n: nat)
    requires
        st.pending == 0,
        n <= 255,
    ensures
        hands_scan(st, nat_text(n)) == Reading::<HandsScan>::Ok(
            HandsScan { sente: st.sente, gote: st.gote, pending: n as u8 },
        ),
    decreases n,
{
    reveal_with_fuel(hands_scan, 2);
    lemma_digit_char((n % 10) as int);
    let last = seq![digit_char((n % 10) as int)];
    assert(last.drop_first() =~= Seq::<char>::empty());
    if n >= 10 {
        let mid = HandsScan { sente: st.sente, gote: st.gote, pending: (n / 10) as u8 };
        lemma_hands_scan_count(st, n / 10);
        lemma_hands_scan_concat(st, nat_text(n / 10), last);
        assert(nat_text(n) =~= nat_text(n / 10) + last);
        assert(hands_step(mid, last[0]) == Reading::<HandsScan>::Ok(
            HandsScan { sente: st.sente, gote: st.gote, pending: n as u8 },
        ));
    } else {
        assert(nat_text(n) =~= last);
    }
}

/// Reading the entry of a piece type that has no count yet sets its count.
pub proof fn lemma_hands_scan_entry(st: HandsScan, side: Side, pt: PieceType, n: u8)
    requires
        pt.spec_is_hand(),
        st.pending == 0,
        st.sente.len() == 7,
        st.gote.len() == 7,
        counts_of(st, side)[pt.spec_hand_index()] == 0,
    ensures
        hands_scan(st, hand_entry_text(side, pt, n)) == Reading::<HandsScan>::Ok(
            with_counts(st, side, counts_of(st, side).update(pt.spec_hand_index(), n)),
        ),
        entry_chars(hand_entry_text(side, pt, n)),
        n != 0 ==> hand_entry_text(side, pt, n).len() > 0,
{
    reveal_with_fuel(hands_scan, 2);
    lemma_letter_of_piece(side, pt);
    let i = pt.spec_hand_index();
    let letter = seq![piece_letter(side, pt)];
    assert(letter.drop_first() =~= Seq::<char>::empty());
    if n == 0 {
        assert(counts_of(st, side).update(i, n) =~= counts_of(st, side));
    } else if n == 1 {
    } else {
        let mid = HandsScan { sente: st.sente, gote: st.gote, pending: n };
        lemma_hands_scan_count(st, n as nat);
        lemma_nat_text_digits(n as nat);
        lemma_hands_scan_concat(st, nat_text(n as nat), letter);
        assert(hand_entry_text(side, pt, n) =~= nat_text(n as nat) + letter);
        assert(hands_step(mid, letter[0]) == Reading::<HandsScan>::Ok(
            with_counts(st, side, counts_of(st, side).update(i, n)),
        ));
    }
}

/// The reading in which the first `k` entries of the writing order of both
/// hands have been read.
pub open spec fn read_so_far(sente: Seq<u8>, gote: Seq<u8>, k: int) -> HandsScan {
    HandsScan { sente: written(sente, k), gote: written(gote, k), pending: 0 }
}

/// Reading the text of both hands from place `k` of the writing order on,
/// where the entries before it have been read, gives both hands.
pub proof fn lemma_hands_scan_hands(sente: Seq<u8>, gote: Seq<u8>, k: int)
    requires
        0 <= k <= 7,
        sente.len() == 7,
        gote.len() == 7,
    ensures
        hands_scan(read_so_far(sente, gote, k), hands_text_from(sente, gote, k)) == Reading::<
            HandsScan,
        >::Ok(HandsScan { sente, gote, pending: 0 }),
        entry_chars(hands_text_from(sente, gote, k)),
    decreases 7 - k,
{
    let st = read_so_far(sente, gote, k);
    if k == 7 {
        assert(written(sente, 7) =~= sente);
        assert(written(gote, 7) =~= gote);
    } else {
        let pt = hand_order()[k];
        let i = pt.spec_hand_index();
        let first = hand_entry_text(Side::Sente, pt, sente[i]);
        let second = hand_entry_text(Side::Gote, pt, gote[i]);
        let rest = hands_text_from(sente, gote, k + 1);
        let mid = HandsScan { sente: written(sente, k + 1), gote: written(gote, k), pending: 0 };
        assert(order_place(i) == k);
        lemma_hands_scan_entry(st, Side::Sente, pt, sente[i]);
        assert(written(sente, k).update(i, sente[i]) =~= written(sente, k + 1));
        lemma_hands_scan_entry(mid, Side::Gote, pt, gote[i]);
        assert(written(gote, k).update(i, gote[i]) =~= written(gote, k + 1));
        lemma_hands_scan_concat(st, first, second);
        lemma_hands_scan_concat(st, first + second, rest);
        lemma_hands_scan_hands(sente, gote, k + 1);
    }
}

/// Hands whose text from place `k` of the writing order on is empty hold
/// none of the pieces that are written from there on.
pub proof fn lemma_hands_text_empty(sente: Seq<u8>, gote: Seq<u8>, k: int)
    requires
        0 <= k <= 7,
        sente.len() == 7,
        gote.len() == 7,
        hands_text_from(sente, gote, k).len() == 0,
    ensures
        forall|i: int| 0 <= i < 7 && order_place(i) >= k ==> sente[i] == 0 && gote[i] == 0,
    decreases 7 - k,
{
    if k < 7 {
        let pt = hand_order()[k];
        let i = pt.spec_hand_index();
        assert(order_place(i) == k);
        lemma_nat_text_digits(sente[i] as nat);
        lemma_nat_text_digits(gote[i] as nat);
        lemma_hands_text_empty(sente, gote, k + 1);
    }
}

/// The text of both hands ends in a letter.
pub proof fn lemma_hands_text_last(sente: Seq<u8>, gote: Seq<u8>, k: int)
    requires
        0 <= k <= 7,
        sente.len() == 7,
        gote.len() == 7,
        hands_text_from(sente, gote, k).len() > 0,
    ensures
        is_letter(hands_text_from(sente, gote, k).last()),
    decreases 7 - k,
{
    let pt = hand_order()[k];
    let i = pt.spec_hand_index();
    let first = hand_entry_text(Side::Sente, pt, sente[i]);
    let second = hand_entry_text(Side::Gote, pt, gote[i]);
    let rest = hands_text_from(sente, gote, k + 1);
    lemma_letter_of_piece(Side::Sente, pt);
    lemma_letter_of_piece(Side::Gote, pt);
    if rest.len() > 0 {
        lemma_hands_text_last(sente, gote, k + 1);
        assert((first + second + rest).last() == rest.last());
    } else if second.len() > 0 {
        assert((first + second + rest).last() == second.last());
    } else {
        assert((first + second + rest).last() == first.last());
    }
}

/// Reading the text of two hands gives the two hands. The text is one word.
pub proof fn lemma_hands_of_text(sente: Seq<u8>, gote: Seq<u8>)
    requires
        sente.len() == 7,
        gote.len() == 7,
    ensures
        hands_of(hands_text(sente, gote)) == Reading::<(Seq<u8>, Seq<u8>)>::Ok((sente, gote)),
        hands_text(sente, gote).len() > 0,
        spaceless(hands_text(sente, gote)),
{
    reveal_strlit("-");
    if hand_is_empty(sente) && hand_is_empty(gote) {
        assert(sente =~= empty_hand());
        assert(gote =~= empty_hand());
    } else {
        let text = hands_text_from(sente, gote, 0);
        assert(written(sente, 0) =~= empty_hand());
        assert(written(gote, 0) =~= empty_hand());
        lemma_hands_scan_hands(sente, gote, 0);
        if text.len() == 0 {
            lemma_hands_text_empty(sente, gote, 0);
        }
        lemma_hands_text_last(sente, gote, 0);
        assert(text[0] != '-');
    }
}

/// A hands word that ends in a digit is refused.
pub proof fn lemma_trailing_count_refused(word: Seq<char>)
    requires
        word.len() > 0,
        is_digit(word.last()),
    ensures
        hands_of(word) is Err,
{
    reveal_strlit("-");
}

/// A hand with no piece in it is written `-` where the other hand is empty
/// too, and `-` is read as two empty hands.
pub proof fn lemma_empty_hands(sente: Seq<u8>, gote: Seq<u8>)
    requires
        hand_is_empty(sente),
        hand_is_empty(gote),
    ensures
        hands_text(sente, gote) == "-"@,
        hands_of("-"@) == Reading::<(Seq<u8>, Seq<u8>)>::Ok((empty_hand(), empty_hand())),
        hand_is_empty(empty_hand()),
{
}

/// One piece of a type is written as its letter alone, two or more as their
/// count and the letter, and none is not written.
pub proof fn lemma_count_elision(side: Side, pt: PieceType, n: u8)
    ensures
        n == 0 ==> hand_entry_text(side, pt, n) == Seq::<char>::empty(),
        n == 1 ==> hand_entry_text(side, pt, n) == seq![piece_letter(side, pt)],
        n >= 2 ==> hand_entry_text(side, pt, n) == nat_text(n as nat) + seq![
            piece_letter(side, pt),
        ],
        n >= 2 ==> nat_text(n as nat) != seq!['1'],
{
    if n >= 2 {
        assert(nat_text(n as nat).push(piece_letter(side, pt)) =~= nat_text(n as nat) + seq![
            piece_letter(side, pt),
        ]);
        lemma_nat_text_not_one(n as nat);
    }
}

/// The decimal text of a number of two or more is not `1`.
pub proof fn lemma_nat_text_not_one(n: nat)
    requires
        n >= 2,
    ensures
        nat_text(n) != seq!['1'],
{
    lemma_digit_char((n % 10) as int);
    if n >= 10 {
        lemma_nat_text_digits(n / 10);
        assert(nat_text(n).len() >= 2);
    } else {
        assert(nat_text(n)[0] == digit_char(n as int));
    }
}

} // verus!
