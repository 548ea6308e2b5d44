//! Cards and hands of blackjack: the deck, hand totals, aces, and how hands are shown.

use vstd::prelude::*;
use crate::text::{push_u64, dec};
use crate::random::shuffle_usize;

verus! {

/// The values of one suit in the order the deck is built: 2 to 11 (the ace counts
/// 11 at first), then three more tens for the face cards (jack, queen, king).
pub open spec fn suit_cards() -> Seq<usize> {
    seq![2, 3, 4, 5, 6, 7, 8, 9, 10, 11, 10, 10, 10]
}

/// `k` suits one after the other.
pub open spec fn suits(k: nat) -> Seq<usize>
    decreases k,
{
    if k == 0 { Seq::empty() } else { suits((k - 1) as nat) + suit_cards() }
}

/// The deck before shuffling: four suits, 52 cards.
pub open spec fn standard_deck() -> Seq<usize> {
    suits(4)
}

/// The sum of the card values.
pub open spec fn total(s: Seq<usize>) -> int
    decreases s.len(),
{
    if s.len() == 0 { 0 } else { total(s.drop_last()) + s.last() }
}

/// An ace, counting 11 or 1.
pub open spec fn is_ace(c: usize) -> bool {
    c == 1 || c == 11
}

/// How many aces there are, counting 11 or 1.
pub open spec fn aces(s: Seq<usize>) -> nat
    decreases s.len(),
{
    if s.len() == 0 { 0 } else { aces(s.drop_last()) + (if is_ace(s.last()) { 1nat } else { 0nat }) }
}

/// How many aces count 1.
pub open spec fn ones(s: Seq<usize>) -> nat
    decreases s.len(),
{
    if s.len() == 0 { 0 } else { ones(s.drop_last()) + (if s.last() == 1 { 1nat } else { 0nat }) }
}

/// Every card value is from 1 to 11.
pub open spec fn valid_cards(s: Seq<usize>) -> bool {
    forall|i: int| 0 <= i < s.len() ==> 1 <= #[trigger] s[i] <= 11
}

/// The position of the first ace that counts 11.
pub open spec fn first_eleven(s: Seq<usize>) -> int
    decreases s.len(),
{
    if s.len() == 0 { 0 } else if s[0] == 11 { 0 } else { 1 + first_eleven(s.drop_first()) }
}

/// The hand with its first 11 counted as 1 instead; unchanged when there is no 11.
pub open spec fn soften(s: Seq<usize>) -> Seq<usize> {
    if s.contains(11) { s.update(first_eleven(s), 1) } else { s }
}

/// In a hand with an 11, `first_eleven` is the position of its first 11.
pub proof fn lemma_first_eleven(s: Seq<usize>)
    requires
        s.contains(11),
    ensures
        0 <= first_eleven(s) < s.len(),
        s[first_eleven(s)] == 11,
        forall|j: int| 0 <= j < first_eleven(s) ==> s[j] != 11,
    decreases s.len(),
{
    if s[0] != 11 {
        let k = choose|k: int| 0 <= k < s.len() && s[k] == 11;
        assert(s.drop_first()[k - 1] == 11);
        lemma_first_eleven(s.drop_first());
        assert forall|j: int| 0 <= j < first_eleven(s) implies s[j] != 11 by {
            if j > 0 {
                assert(s[j] == s.drop_first()[j - 1]);
            }
        }
    }
}

proof fn lemma_first_eleven_is(s: Seq<usize>, i: int)
    requires
        0 <= i < s.len(),
        s[i] == 11,
        forall|j: int| 0 <= j < i ==> s[j] != 11,
    ensures
        first_eleven(s) == i,
    decreases i,
{
    if i > 0 {
        assert forall|j: int| 0 <= j < i - 1 implies s.drop_first()[j] != 11 by {
            assert(s.drop_first()[j] == s[j + 1]);
        }
        lemma_first_eleven_is(s.drop_first(), i - 1);
    }
}

/// Changing one card changes the total, the aces and the ones by what that card was
/// and what it becomes.
pub proof fn lemma_update(s: Seq<usize>, i: int, v: usize)
    requires
        0 <= i < s.len(),
    ensures
        total(s.update(i, v)) == total(s) - s[i] + v,
        aces(s.update(i, v)) == aces(s) - (if is_ace(s[i]) { 1int } else { 0 }) + (if is_ace(v) { 1int } else { 0 }),
        ones(s.update(i, v)) == ones(s) - (if s[i] == 1 { 1int } else { 0 }) + (if v == 1 { 1int } else { 0 }),
    decreases s.len(),
{
    let t = s.update(i, v);
    if i == s.len() - 1 {
        assert(t.drop_last() =~= s.drop_last());
    } else {
        lemma_update(s.drop_last(), i, v);
        assert(t.drop_last() =~= s.drop_last().update(i, v));
    }
}

/// Counting 11 as 1 keeps the aces, lowers the total by 10 and adds one ace that
/// counts 1.
pub proof fn lemma_soften(s: Seq<usize>)
    requires
        s.contains(11),
    ensures
        total(soften(s)) == total(s) - 10,
        aces(soften(s)) == aces(s),
        ones(soften(s)) == ones(s) + 1,
        soften(s).len() == s.len(),
        valid_cards(s) ==> valid_cards(soften(s)),
{
    lemma_first_eleven(s);
    lemma_update(s, first_eleven(s), 1);
}

/// Taking a card adds its value to the total, and counts it among the aces and the
/// ones when it is one.
pub proof fn lemma_push(s: Seq<usize>, c: usize)
    ensures
        total(s.push(c)) == total(s) + c,
        aces(s.push(c)) == aces(s) + (if is_ace(c) { 1int } else { 0 }),
        ones(s.push(c)) == ones(s) + (if c == 1 { 1int } else { 0 }),
{
    assert(s.push(c).drop_last() =~= s);
}

/// Aces that count 1 are among the aces.
pub proof fn lemma_ones_le_aces(s: Seq<usize>)
    ensures
        ones(s) <= aces(s),
    decreases s.len(),
{
    if s.len() > 0 {
        lemma_ones_le_aces(s.drop_last());
    }
}

/// Every card is worth at least 2 but for the aces that count 1, so a hand holds at
/// most half its total plus its ones in cards.
pub proof fn lemma_total_bounds_len(s: Seq<usize>)
    requires
        valid_cards(s),
    ensures
        total(s) >= 2 * s.len() - ones(s),
        total(s) <= 11 * s.len(),
        total(s) >= 0,
    decreases s.len(),
{
    if s.len() > 0 {
        assert(valid_cards(s.drop_last())) by {
            assert forall|i: int| 0 <= i < s.drop_last().len() implies 1 <= #[trigger] s.drop_last()[i] <= 11 by {
                assert(s.drop_last()[i] == s[i]);
            }
        }
        lemma_total_bounds_len(s.drop_last());
        assert(1 <= s[s.len() - 1] <= 11);
    }
}

proof fn lemma_total_take(s: Seq<usize>, i: int)
    requires
        0 <= i < s.len(),
    ensures
        total(s.take(i + 1)) == total(s.take(i)) + s[i],
{
    assert(s.take(i + 1).drop_last() =~= s.take(i));
}

proof fn lemma_total_prefix_le(s: Seq<usize>, i: int)
    requires
        0 <= i <= s.len(),
    ensures
        total(s.take(i)) <= total(s),
        total(s.take(i)) >= 0,
    decreases s.len(),
{
    if i < s.len() {
        lemma_total_prefix_le(s.drop_last(), i);
        assert(s.drop_last().take(i) =~= s.take(i));
    } else {
        assert(s.take(i) =~= s);
        lemma_total_nonneg(s);
    }
}

proof fn lemma_total_nonneg(s: Seq<usize>)
    ensures
        total(s) >= 0,
    decreases s.len(),
{
    if s.len() > 0 {
        lemma_total_nonneg(s.drop_last());
    }
}

/// The sum of the card values, as `hand.iter().sum()` computes it.
pub fn hand_total(hand: &Vec<usize>) -> (sum: usize)
    requires
        total(hand@) <= usize::MAX,
    ensures
        sum == total(hand@),
{
    let mut sum: usize = 0;
    let mut i: usize = 0;
    while i < hand.len()
        invariant
            i <= hand@.len(),
            total(hand@) <= usize::MAX,
            sum == total(hand@.take(i as int)),
        decreases hand.len() - i,
    {
        proof {
            lemma_total_take(hand@, i as int);
            lemma_total_prefix_le(hand@, i + 1);
        }
        sum = sum + hand[i];
        i = i + 1;
    }
    assert(hand@.take(i as int) =~= hand@);
    sum
}

/// Whether the hand holds an ace that counts 11, as `hand.contains(&11)` tells.
pub fn has_eleven(hand: &Vec<usize>) -> (b: bool)
    ensures
        b == hand@.contains(11),
{
    let mut i: usize = 0;
    while i < hand.len()
        invariant
            i <= hand@.len(),
            forall|j: int| 0 <= j < i ==> hand@[j] != 11,
        decreases hand.len() - i,
    {
        if hand[i] == 11 {
            return true;
        }
        i = i + 1;
    }
    false
}

/// Counts the first ace that counts 11 as 1 instead, if there is one; tells whether
/// there was one.
pub fn soften_ace(hand: &mut Vec<usize>) -> (changed: bool)
    ensures
        changed == old(hand)@.contains(11),
        final(hand)@ == soften(old(hand)@),
{
    let mut i: usize = 0;
    while i < hand.len()
        invariant
            i <= hand@.len(),
            hand@ == old(hand)@,
            forall|j: int| 0 <= j < i ==> hand@[j] != 11,
        decreases hand.len() - i,
    {
        if hand[i] == 11 {
            proof {
                lemma_first_eleven_is(hand@, i as int);
            }
            hand.set(i, 1);
            return true;
        }
        i = i + 1;
    }
    false
}

proof fn lemma_suits_len(k: nat)
    ensures
        suits(k).len() == 13 * k,
    decreases k,
{
    if k > 0 {
        lemma_suits_len((k - 1) as nat);
    }
}

/// Builds the deck in order and shuffles it.
pub fn deck_gen() -> (deck: Vec<usize>)
    ensures
        deck@.len() == 52,
        deck@.to_multiset() == standard_deck().to_multiset(),
{
    let mut deck: Vec<usize> = Vec::new();
    let mut s: usize = 0;
    while s < 4
        invariant
            s <= 4,
            deck@ == suits(s as nat),
        decreases 4 - s,
    {
        let mut i: usize = 2;
        while i < 12
            invariant
                2 <= i <= 12,
                deck@ == suits(s as nat) + suit_cards().take(i - 2),
            decreases 12 - i,
        {
            deck.push(i);
            assert(suit_cards().take(i - 1) =~= suit_cards().take(i - 2).push(i));
            i = i + 1;
        }
        let mut j: usize = 0;
        while j < 3
            invariant
                j <= 3,
                deck@ == suits(s as nat) + suit_cards().take(10 + j),
            decreases 3 - j,
        {
            deck.push(10);
            assert(suit_cards().take(11 + j) =~= suit_cards().take(10 + j).push(10));
            j = j + 1;
        }
        assert(suit_cards().take(13) =~= suit_cards());
        assert(deck@ =~= suits((s + 1) as nat));
        s = s + 1;
    }
    proof {
        lemma_suits_len(4);
    }
    shuffle_usize(&mut deck);
    deck
}

proof fn lemma_aces_concat(a: Seq<usize>, b: Seq<usize>)
    ensures
        aces(a + b) == aces(a) + aces(b),
        ones(a + b) == ones(a) + ones(b),
    decreases b.len(),
{
    if b.len() > 0 {
        assert((a + b).drop_last() =~= a + b.drop_last());
        lemma_aces_concat(a, b.drop_last());
    } else {
        assert(a + b =~= a);
    }
}

proof fn lemma_suit_counts()
    ensures
        aces(suit_cards()) == 1,
        ones(suit_cards()) == 0,
        suit_cards().len() == 13,
        forall|i: int| 0 <= i < 13 ==> 2 <= #[trigger] suit_cards()[i] <= 11,
{
    let s0 = Seq::<usize>::empty();
    assert(aces(s0) == 0 && ones(s0) == 0);
    let s1 = s0.push(2);
    lemma_push(s0, 2);
    let s2 = s1.push(3);
    lemma_push(s1, 3);
    let s3 = s2.push(4);
    lemma_push(s2, 4);
    let s4 = s3.push(5);
    lemma_push(s3, 5);
    let s5 = s4.push(6);
    lemma_push(s4, 6);
    let s6 = s5.push(7);
    lemma_push(s5, 7);
    let s7 = s6.push(8);
    lemma_push(s6, 8);
    let s8 = s7.push(9);
    lemma_push(s7, 9);
    let s9 = s8.push(10);
    lemma_push(s8, 10);
    let s10 = s9.push(11);
    lemma_push(s9, 11);
    let s11 = s10.push(10);
    lemma_push(s10, 10);
    let s12 = s11.push(10);
    lemma_push(s11, 10);
    let s13 = s12.push(10);
    lemma_push(s12, 10);
    assert(suit_cards() =~= s13);
}

proof fn lemma_suits_counts(k: nat)
    ensures
        aces(suits(k)) == k,
        ones(suits(k)) == 0,
        suits(k).len() == 13 * k,
        forall|i: int| 0 <= i < suits(k).len() ==> 2 <= #[trigger] suits(k)[i] <= 11,
    decreases k,
{
    lemma_suit_counts();
    if k > 0 {
        lemma_suits_counts((k - 1) as nat);
        lemma_aces_concat(suits((k - 1) as nat), suit_cards());
        let prev = suits((k - 1) as nat);
        assert forall|i: int| 0 <= i < suits(k).len() implies 2 <= #[trigger] suits(k)[i] <= 11 by {
            if i < prev.len() {
                assert(suits(k)[i] == prev[i]);
            } else {
                assert(suits(k)[i] == suit_cards()[i - prev.len()]);
            }
        }
    }
}

proof fn lemma_counts_multiset(s: Seq<usize>)
    ensures
        aces(s) == s.to_multiset().count(1) + s.to_multiset().count(11),
        ones(s) == s.to_multiset().count(1),
    decreases s.len(),
{
    broadcast use vstd::multiset::group_multiset_axioms, vstd::seq_lib::group_to_multiset_ensures;
    if s.len() == 0 {
        assert(!s.contains(1));
        assert(!s.contains(11));
    } else {
        lemma_counts_multiset(s.drop_last());
        assert(s.drop_last().push(s.last()) =~= s);
        vstd::seq_lib::to_multiset_build(s.drop_last(), s.last());
    }
}

/// A shuffled deck holds 52 cards from 2 to 11, four of them aces and none counting 1.
pub proof fn lemma_shuffled_deck(deck: Seq<usize>)
    requires
        deck.to_multiset() == standard_deck().to_multiset(),
    ensures
        deck.len() == 52,
        aces(deck) == 4,
        ones(deck) == 0,
        forall|i: int| 0 <= i < deck.len() ==> 2 <= #[trigger] deck[i] <= 11,
        valid_cards(deck),
{
    broadcast use vstd::seq_lib::group_to_multiset_ensures;
    lemma_suits_counts(4);
    lemma_counts_multiset(deck);
    lemma_counts_multiset(standard_deck());
    assert(deck.to_multiset().len() == deck.len());
    assert(standard_deck().to_multiset().len() == standard_deck().len());
    assert forall|i: int| 0 <= i < deck.len() implies 2 <= #[trigger] deck[i] <= 11 by {
        let x = deck[i];
        assert(deck.contains(x));
        assert(standard_deck().to_multiset().count(x) > 0);
        assert(standard_deck().contains(x));
        let j = choose|j: int| 0 <= j < standard_deck().len() && standard_deck()[j] == x;
        assert(2 <= standard_deck()[j] <= 11);
    }
}

/// Splitting off the last four cards of the deck splits its counts.
pub proof fn lemma_aces_split(d: Seq<usize>)
    requires
        d.len() >= 4,
    ensures
        aces(d) == aces(d.take(d.len() - 4)) + aces(seq![d[d.len() - 1], d[d.len() - 2]])
            + aces(seq![d[d.len() - 3], d[d.len() - 4]]),
        valid_cards(d) ==> valid_cards(d.take(d.len() - 4)) && valid_cards(seq![d[d.len() - 1], d[d.len() - 2]])
            && valid_cards(seq![d[d.len() - 3], d[d.len() - 4]]),
{
    let n = d.len();
    let t = d.take(n - 4);
    assert(d =~= t + seq![d[n - 4], d[n - 3], d[n - 2], d[n - 1]]);
    lemma_aces_concat(t, seq![d[n - 4], d[n - 3], d[n - 2], d[n - 1]]);
    lemma_push(Seq::empty(), d[n - 4]);
    assert(Seq::<usize>::empty().push(d[n - 4]) =~= seq![d[n - 4]]);
    lemma_push(seq![d[n - 4]], d[n - 3]);
    assert(seq![d[n - 4]].push(d[n - 3]) =~= seq![d[n - 4], d[n - 3]]);
    lemma_push(seq![d[n - 4], d[n - 3]], d[n - 2]);
    assert(seq![d[n - 4], d[n - 3]].push(d[n - 2]) =~= seq![d[n - 4], d[n - 3], d[n - 2]]);
    lemma_push(seq![d[n - 4], d[n - 3], d[n - 2]], d[n - 1]);
    assert(seq![d[n - 4], d[n - 3], d[n - 2]].push(d[n - 1]) =~= seq![d[n - 4], d[n - 3], d[n - 2], d[n - 1]]);
    lemma_push(Seq::empty(), d[n - 1]);
    assert(Seq::<usize>::empty().push(d[n - 1]) =~= seq![d[n - 1]]);
    lemma_push(seq![d[n - 1]], d[n - 2]);
    assert(seq![d[n - 1]].push(d[n - 2]) =~= seq![d[n - 1], d[n - 2]]);
    lemma_push(Seq::empty(), d[n - 3]);
    assert(Seq::<usize>::empty().push(d[n - 3]) =~= seq![d[n - 3]]);
    lemma_push(seq![d[n - 3]], d[n - 4]);
    assert(seq![d[n - 3]].push(d[n - 4]) =~= seq![d[n - 3], d[n - 4]]);
    if valid_cards(d) {
        assert(valid_cards(t)) by {
            assert forall|i: int| 0 <= i < t.len() implies 1 <= #[trigger] t[i] <= 11 by {
                assert(t[i] == d[i]);
            }
        }
        assert(1 <= d[n - 1] <= 11 && 1 <= d[n - 2] <= 11 && 1 <= d[n - 3] <= 11 && 1 <= d[n - 4] <= 11);
    }
}

/// The total of a two-card hand.
pub proof fn lemma_total_pair(h: Seq<usize>)
    requires
        h.len() == 2,
    ensures
        total(h) == h[0] + h[1],
{
    let h1 = h.drop_last();
    assert(h1.drop_last().len() == 0);
    assert(total(h1.drop_last()) == 0);
    assert(h1.last() == h[0]);
    assert(total(h1) == h[0]);
}

/// The cards of a hand as shown: each value followed by two spaces.
pub open spec fn cards_text(h: Seq<usize>) -> Seq<char>
    decreases h.len(),
{
    if h.len() == 0 { Seq::empty() } else { cards_text(h.drop_last()) + dec(h.last() as nat) + "  "@ }
}

/// The game status shown in the embed: the player's hand and total, then either the
/// whole hand of the dealer with its total, or only the dealer's second card.
pub open spec fn status_text(starting_text: Option<Seq<char>>, hand1: Seq<usize>, hand2: Seq<usize>, all_of_dealer: bool) -> Seq<char> {
    let start = match starting_text { Some(x) => x, None => Seq::empty() };
    let player = start + "Your hand: \n"@ + cards_text(hand1) + "\nTotal: "@ + dec(total(hand1) as nat) + ".\n\n"@;
    if all_of_dealer {
        player + "Dealer's hand: \n"@ + cards_text(hand2) + "\nTotal: "@ + dec(total(hand2) as nat) + "."@
    } else {
        player + "One of the dealer's cards: "@ + dec(hand2[0] as nat)
    }
}

fn push_cards(out: &mut String, hand: &Vec<usize>)
    ensures
        final(out)@ == old(out)@ + cards_text(hand@),
{
    let mut i: usize = 0;
    while i < hand.len()
        invariant
            i <= hand@.len(),
            out@ == old(out)@ + cards_text(hand@.take(i as int)),
        decreases hand.len() - i,
    {
        push_u64(out, hand[i] as u64);
        out.append("  ");
        assert(hand@.take(i + 1).drop_last() =~= hand@.take(i as int));
        assert(out@ =~= old(out)@ + cards_text(hand@.take(i + 1)));
        i = i + 1;
    }
    assert(hand@.take(i as int) =~= hand@);
}

/// Formats the game status for the embed.
pub fn format_game_status(starting_text: Option<&str>, hand1: &Vec<usize>, hand2: &Vec<usize>, all_of_dealer: bool) -> (output: String)
    requires
        total(hand1@) <= usize::MAX,
        total(hand2@) <= usize::MAX,
        !all_of_dealer ==> hand2@.len() >= 1,
    ensures
        output@ == status_text(match starting_text { Some(x) => Some(x@), None => None }, hand1@, hand2@, all_of_dealer),
{
    let sum1 = hand_total(hand1);
    let sum2 = hand_total(hand2);
    let mut output = String::new();
    match starting_text {
        Some(x) => output.append(x),
        None => {},
    }
    output.append("Your hand: \n");
    push_cards(&mut output, hand1);
    output.append("\nTotal: ");
    push_u64(&mut output, sum1 as u64);
    output.append(".\n\n");
    if all_of_dealer {
        output.append("Dealer's hand: \n");
        push_cards(&mut output, hand2);
        output.append("\nTotal: ");
        push_u64(&mut output, sum2 as u64);
        output.append(".");
    } else {
        output.append("One of the dealer's cards: ");
        push_u64(&mut output, hand2[0] as u64);
    }
    assert(output@ =~= status_text(match starting_text { Some(x) => Some(x@), None => None }, hand1@, hand2@, all_of_dealer));
    output
}

/// Who wins when both stay: the higher total.
#[derive(Clone, Copy, PartialEq, Eq, Debug, Structural)]
pub enum Showdown {
    Win,
    Lose,
    Tie,
}

pub open spec fn showdown(hand1: Seq<usize>, hand2: Seq<usize>) -> Showdown {
    if total(hand1) > total(hand2) { Showdown::Win }
    else if total(hand1) < total(hand2) { Showdown::Lose }
    else { Showdown::Tie }
}

/// Compares the player's total (`hand1`) with the dealer's (`hand2`).
pub fn compare_hands(hand1: &Vec<usize>, hand2: &Vec<usize>) -> (r: Showdown)
    requires
        total(hand1@) <= usize::MAX,
        total(hand2@) <= usize::MAX,
    ensures
        r == showdown(hand1@, hand2@),
{
    let sum1 = hand_total(hand1);
    let sum2 = hand_total(hand2);
    if sum1 > sum2 {
        Showdown::Win
    } else if sum1 < sum2 {
        Showdown::Lose
    } else {
        Showdown::Tie
    }
}

/// The word for a showdown: "win", "lose" or "tie".
pub open spec fn showdown_word(r: Showdown) -> Seq<char> {
    match r {
        Showdown::Win => "win"@,
        Showdown::Lose => "lose"@,
        Showdown::Tie => "tie"@,
    }
}

/// "win" if the player's total is higher, "lose" if lower, "tie" if equal.
pub fn test_win(hand1: &Vec<usize>, hand2: &Vec<usize>) -> (r: String)
    requires
        total(hand1@) <= usize::MAX,
        total(hand2@) <= usize::MAX,
    ensures
        r@ == showdown_word(showdown(hand1@, hand2@)),
{
    match compare_hands(hand1, hand2) {
        Showdown::Win => "win".to_string(),
        Showdown::Lose => "lose".to_string(),
        Showdown::Tie => "tie".to_string(),
    }
}

/// The same comparison as `test_win`, as a static word.
pub fn testwin(hand1: &Vec<usize>, hand2: &Vec<usize>) -> (r: &'static str)
    requires
        total(hand1@) <= usize::MAX,
        total(hand2@) <= usize::MAX,
    ensures
        r@ == showdown_word(showdown(hand1@, hand2@)),
{
    match compare_hands(hand1, hand2) {
        Showdown::Win => "win",
        Showdown::Lose => "lose",
        Showdown::Tie => "tie",
    }
}

} // verus!
