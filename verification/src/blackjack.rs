//! The blackjack engine: a game that waits for the player's reactions and answers
//! each one with the edits, pauses and wallet changes that the game calls for.
//!
//! Two tables share it: the table for money, where the bet was taken from the
//! wallet before the deal and comes back with winnings, or goes to the server's
//! pool, and the practice table, where nothing is at stake.

use vstd::prelude::*;
use crate::cards::{
    lemma_shuffled_deck, lemma_aces_split, lemma_total_pair,
    total, ones, aces, valid_cards, soften, status_text, showdown, Showdown, soften_ace, has_eleven,
    hand_total, format_game_status, compare_hands, lemma_soften, lemma_push, lemma_total_bounds_len,
    lemma_ones_le_aces, deck_gen, standard_deck,
};
use crate::actions::{Action, ActionView, actions_view, emit};
use crate::text::{push_i64, int_text, push_char, trim, trimmed, parse_i32, parsed_in_range};

verus! {

broadcast use vstd::seq_lib::group_to_multiset_ensures, vstd::multiset::group_multiset_axioms;

/// The player's answer to the game, read from a reaction.
#[derive(Clone, Copy, PartialEq, Eq, Debug, Structural)]
pub enum Reaction {
    /// ✋: take another card.
    Hit,
    /// 🛑: stay.
    Stay,
    /// Any other emoji.
    Other,
}

/// What the game waits for.
#[derive(Clone, Copy, PartialEq, Eq, Debug, Structural)]
pub enum Event {
    /// Someone reacted to the game's message; `by_player` tells whether it was the
    /// player who started the game.
    Reacted { reaction: Reaction, by_player: bool },
    /// A minute passed with no reaction.
    TimedOut,
}

/// Reads a reaction's emoji: ✋ is a hit, 🛑 is stay.
pub fn reaction_of(emoji: &str) -> (r: Reaction)
    ensures
        r == (if emoji@ == "✋"@ { Reaction::Hit } else if emoji@ == "🛑"@ { Reaction::Stay } else { Reaction::Other }),
{
    let e = emoji.to_string();
    if e == "✋".to_string() {
        Reaction::Hit
    } else if e == "🛑".to_string() {
        Reaction::Stay
    } else {
        Reaction::Other
    }
}

/// The state of a game as the contracts see it.
pub struct GameView {
    pub deck: Seq<usize>,
    pub player: Seq<usize>,
    pub dealer: Seq<usize>,
    pub stay: bool,
    pub bet: i32,
    pub over: bool,
}

/// A game of blackjack in progress or finished.
pub struct Blackjack {
    deck: Vec<usize>,
    player: Vec<usize>,
    dealer: Vec<usize>,
    stay: bool,
    bet: i32,
    over: bool,
}

impl View for Blackjack {
    type V = GameView;

    closed spec fn view(&self) -> GameView {
        GameView {
            deck: self.deck@,
            player: self.player@,
            dealer: self.dealer@,
            stay: self.stay,
            bet: self.bet,
            over: self.over,
        }
    }
}

/// The cards of a game: 52 in all, each from 1 to 11, four of them aces.
pub open spec fn cards_kept(g: GameView) -> bool {
    &&& g.deck.len() + g.player.len() + g.dealer.len() == 52
    &&& valid_cards(g.deck)
    &&& valid_cards(g.player)
    &&& valid_cards(g.dealer)
    &&& aces(g.deck) + aces(g.player) + aces(g.dealer) == 4
    &&& g.player.len() >= 2
    &&& g.dealer.len() >= 2
}

/// The invariant of a game: its cards are kept, and while it is not over the player's
/// total stays within 22 plus the aces counted as 1, the player has not stayed (a
/// player who stays ends the game) and the dealer holds the two cards of the deal.
pub open spec fn game_inv(g: GameView) -> bool {
    &&& cards_kept(g)
    &&& !g.over ==> total(g.player) <= 22 + ones(g.player)
    &&& !g.over ==> !g.stay && g.dealer.len() == 2
    &&& g.bet >= 0
}

/// The state in which the checks after the player's turn begin: the player stayed,
/// or has just reached 21, or has gone over 21 with no ace counting 11.
pub open spec fn turn_done(g: GameView) -> bool {
    &&& cards_kept(g)
    &&& !g.over
    &&& g.bet >= 0
    &&& g.stay ==> total(g.player) <= 22 + ones(g.player)
    &&& !g.stay ==> g.dealer.len() == 2 && (total(g.player) == 21 || (total(g.player) > 21
        && !g.player.contains(11)))
}

pub open spec fn ended(g: GameView) -> GameView {
    GameView { over: true, ..g }
}

pub open spec fn edit(title: Seq<char>, description: Seq<char>) -> ActionView {
    ActionView::Edit(title, Some(description))
}

pub open spec fn shown(g: GameView, all_of_dealer: bool) -> Seq<char> {
    status_text(None, g.player, g.dealer, all_of_dealer)
}

/// The player wins `amount` (the bet and the winnings): the hands are shown, the
/// amount goes to the wallet, and the reply tells half of it.
pub open spec fn money_win(g: GameView, amount: i64) -> Seq<ActionView> {
    seq![
        edit("You won!"@, shown(g, true)),
        ActionView::Credit(amount),
        ActionView::Reply("You won **"@ + int_text(amount / 2) + "** monies."@),
    ]
}

/// The dealer wins: the hands are shown and the bet, already taken, goes to the pool.
pub open spec fn money_lose(g: GameView) -> Seq<ActionView> {
    seq![
        edit("You lose."@, shown(g, true)),
        ActionView::AddToPool(g.bet as i64),
        ActionView::Reply("You lost **"@ + int_text(g.bet as int) + "** monies."@),
    ]
}

/// A tie: the bet comes back and the hands are shown.
pub open spec fn money_tie(g: GameView) -> Seq<ActionView> {
    seq![
        ActionView::Credit(g.bet as i64),
        edit("Tie."@, status_text(Some("Tie. \n"@), g.player, g.dealer, true)),
    ]
}

pub open spec fn timeout_text(bet: i32) -> Seq<char> {
    "One minute passed with no reactions, so the game ended with no results. As a result, you lost your bet, which was **"@
        + int_text(bet as int) + "** monies."@
}

/// The checks after the dealer's turn, for the table for money.
pub open spec fn money_final(g: GameView, acts: Seq<ActionView>) -> (GameView, Seq<ActionView>) {
    let a = acts.push(ActionView::Pause(250));
    let s1 = total(g.player);
    let s2 = total(g.dealer);
    if s2 > 21 {
        if g.dealer.contains(11) {
            (GameView { dealer: soften(g.dealer), ..g }, a)
        } else {
            (ended(g), a + seq![edit("The dealer bust!"@, "The dealer bust!"@), ActionView::Pause(250)]
                + money_win(g, (2 * g.bet) as i64))
        }
    } else if s2 == 21 {
        if s1 == 21 {
            (ended(g), a + money_tie(g))
        } else {
            (ended(g), a + seq![edit("The dealer got a blackjack!"@, "The dealer got a blackjack!"@),
                ActionView::Pause(250)] + money_lose(g))
        }
    } else {
        let a2 = a.push(ActionView::Pause(250));
        let a3 = if !g.stay { a2.push(edit(shown(g, false), "description"@)) } else { a2 };
        (g, a3.push(ActionView::Pause(250)))
    }
}

/// One pass of the game's main loop after the player's turn, at the table for money:
/// the checks of the player's hand, the dealer's turn and the checks after it.
pub open spec fn money_rest(g: GameView) -> (GameView, Seq<ActionView>) {
    let s1 = total(g.player);
    let s2 = total(g.dealer);
    let a0 = seq![ActionView::Pause(250)];
    if s1 > 21 && !g.player.contains(11) {
        (ended(g), a0 + seq![edit("Bust!"@, "Bust"@), ActionView::Pause(500)] + money_lose(g))
    } else if s1 == 21 && s2 == 21 {
        (ended(g), a0 + money_tie(g))
    } else if s1 == 21 {
        (ended(g), a0 + seq![edit("Blackjack!"@, "Blackjack!"@), ActionView::Pause(500)]
            + money_win(g, (3 * g.bet) as i64))
    } else {
        let ga = if s1 > 21 { GameView { player: soften(g.player), ..g } } else { g };
        money_dealer(ga, a0)
    }
}

/// The dealer's turn at the table for money, and the checks after it: under 17 the
/// dealer draws; otherwise the dealer stays and, when the player has stayed too, the
/// higher total wins.
pub open spec fn money_dealer(ga: GameView, a0: Seq<ActionView>) -> (GameView, Seq<ActionView>) {
    let s2 = total(ga.dealer);
    if s2 < 17 {
        let gb = GameView { dealer: ga.dealer.push(ga.deck.last()), deck: ga.deck.drop_last(), ..ga };
        money_final(gb, a0.push(edit(shown(gb, true), "Dealer's turn."@)))
    } else {
        let gb = if s2 > 21 && ga.player.contains(11) { GameView { player: soften(ga.player), ..ga } } else { ga };
        let a1 = a0 + seq![edit("The dealer stays."@, "The dealer stays."@), ActionView::Pause(250)];
        if ga.stay {
            match showdown(gb.player, gb.dealer) {
                Showdown::Win => (ended(gb), a1 + money_win(gb, (2 * ga.bet) as i64)),
                Showdown::Lose => (ended(gb), a1 + money_lose(gb)),
                Showdown::Tie => (ended(gb), a1 + money_tie(gb)),
            }
        } else {
            money_final(gb, a1)
        }
    }
}

/// The main loop after the player's turn at the table for money: it repeats while the
/// player has stayed and the game goes on, and gives the game back to the player's
/// reactions when they have not stayed.
pub open spec fn money_settle(g: GameView, acts: Seq<ActionView>) -> (GameView, Seq<ActionView>)
    decreases g.deck.len(),
{
    let r = money_rest(g);
    let a = acts + r.1;
    if r.0.over || !r.0.stay || r.0.deck.len() >= g.deck.len() {
        (r.0, a)
    } else {
        money_settle(r.0, a)
    }
}

/// A hit: the player takes the top card. When the total goes over 21 an ace that
/// counts 11 counts 1 instead; without one, or at exactly 21, the player's turn ends
/// (the `bool` is then `true`). While the turn goes on the embed shows the new status
/// with `prompt`.
pub open spec fn hit(g: GameView, prompt: Seq<char>) -> (GameView, Seq<ActionView>, bool) {
    let p = g.player.push(g.deck.last());
    let g1 = GameView { player: p, deck: g.deck.drop_last(), ..g };
    let s = total(p);
    if s > 21 {
        if p.contains(11) {
            let g2 = GameView { player: soften(p), ..g1 };
            (g2, seq![edit(shown(g2, false), prompt)], false)
        } else {
            (g1, Seq::empty(), true)
        }
    } else if s == 21 {
        (g1, Seq::empty(), true)
    } else {
        (g1, seq![edit(shown(g1, false), prompt)], false)
    }
}

/// How the table for money answers an event.
pub open spec fn money_react(g: GameView, e: Event) -> (GameView, Seq<ActionView>) {
    if g.over {
        (g, Seq::empty())
    } else {
        match e {
            Event::TimedOut => (ended(g), seq![
                ActionView::AddToPool(g.bet as i64),
                edit("Timed out."@, timeout_text(g.bet)),
            ]),
            Event::Reacted { reaction, by_player } => if !by_player {
                (g, Seq::empty())
            } else {
                match reaction {
                    Reaction::Other => (g, Seq::empty()),
                    Reaction::Stay => money_settle(GameView { stay: true, ..g }, Seq::empty()),
                    Reaction::Hit => {
                        let h = hit(g, "Hit or stay? (React)"@);
                        if h.2 { money_settle(h.0, h.1) } else { (h.0, h.1) }
                    },
                }
            },
        }
    }
}

/// The deal at the table for money: two cards each from the top of the deck, the
/// player's first. A pair of aces counts 12, not 22. The embed first shows
/// "Loading...", then the reactions are added and the status is shown.
pub open spec fn money_deal(deck: Seq<usize>, bet: i32) -> (GameView, Seq<ActionView>) {
    let p0 = seq![deck[deck.len() - 1], deck[deck.len() - 2]];
    let d0 = seq![deck[deck.len() - 3], deck[deck.len() - 4]];
    let p = if p0[0] == 11 && p0[1] == 11 { soften(p0) } else { p0 };
    let d = if d0[0] == 11 && d0[1] == 11 { soften(d0) } else { d0 };
    let g = GameView { deck: deck.take(deck.len() - 4), player: p, dealer: d, stay: false, bet, over: false };
    (g, seq![
        ActionView::Edit("Loading..."@, None),
        ActionView::React('✋'),
        ActionView::React('🛑'),
        edit(shown(g, false), "Hit or stay? (React)"@),
    ])
}

/// The practice table's end of a game: the player wins.
pub open spec fn practice_win(g: GameView) -> Seq<ActionView> {
    seq![edit("You won!"@, shown(g, true))]
}

/// The practice table's end of a game: the dealer wins.
pub open spec fn practice_lose(g: GameView) -> Seq<ActionView> {
    seq![edit("You lose."@, shown(g, true))]
}

/// The practice table's end of a game: a tie.
pub open spec fn practice_tie(g: GameView) -> Seq<ActionView> {
    seq![edit("Tie."@, status_text(Some("Tie. \n"@), g.player, g.dealer, true))]
}

/// The checks after the dealer's turn at the practice table.
pub open spec fn practice_final(g: GameView, acts: Seq<ActionView>) -> (GameView, Seq<ActionView>) {
    let a = acts.push(ActionView::Pause(250));
    let s2 = total(g.dealer);
    if s2 > 21 {
        (ended(g), a.push(edit("Dealer bust!"@, "Dealer bust!"@)) + practice_win(g))
    } else if s2 == 21 {
        (ended(g), a.push(edit("Dealer blackjack!"@, "Dealer blackjack!"@)) + practice_lose(g))
    } else {
        let a2 = a.push(ActionView::Pause(250));
        let a3 = if !g.stay { a2.push(edit(shown(g, false), "description"@)) } else { a2 };
        (g, a3.push(ActionView::Pause(250)))
    }
}

/// The dealer's turn at the practice table, and the checks after it.
pub open spec fn practice_dealer(ga: GameView, a0: Seq<ActionView>) -> (GameView, Seq<ActionView>) {
    if total(ga.dealer) < 17 {
        let gb = GameView { dealer: ga.dealer.push(ga.deck.last()), deck: ga.deck.drop_last(), ..ga };
        practice_final(gb, a0.push(edit(shown(gb, true), "Dealer's turn."@)))
    } else {
        let a1 = a0.push(edit("The dealer stays."@, "The dealer stays."@));
        if ga.stay {
            let a2 = a1.push(edit("You stayed... testing."@, "test"@));
            match showdown(ga.player, ga.dealer) {
                Showdown::Win => (ended(ga), a2 + practice_win(ga)),
                Showdown::Lose => (ended(ga), a2 + practice_lose(ga)),
                Showdown::Tie => (ended(ga), a2 + practice_tie(ga)),
            }
        } else {
            practice_final(ga, a1)
        }
    }
}

/// One pass of the main loop after the player's turn at the practice table.
pub open spec fn practice_rest(g: GameView) -> (GameView, Seq<ActionView>) {
    let s1 = total(g.player);
    let a0 = seq![ActionView::Pause(250)];
    if s1 > 21 && !g.player.contains(11) {
        (ended(g), a0.push(edit("Bust!"@, "Bust"@)) + practice_lose(g))
    } else if s1 == 21 {
        (ended(g), a0.push(edit("Blackjack"@, "Blackjack"@)) + practice_win(g))
    } else {
        let ga = if s1 > 21 { GameView { player: soften(g.player), ..g } } else { g };
        practice_dealer(ga, a0)
    }
}

/// The main loop after the player's turn at the practice table.
pub open spec fn practice_settle(g: GameView, acts: Seq<ActionView>) -> (GameView, Seq<ActionView>)
    decreases g.deck.len(),
{
    let r = practice_rest(g);
    let a = acts + r.1;
    if r.0.over || !r.0.stay || r.0.deck.len() >= g.deck.len() {
        (r.0, a)
    } else {
        practice_settle(r.0, a)
    }
}

/// How the practice table answers an event: anyone's reaction counts, and the game
/// waits as long as it takes.
pub open spec fn practice_react(g: GameView, e: Event) -> (GameView, Seq<ActionView>) {
    if g.over {
        (g, Seq::empty())
    } else {
        match e {
            Event::TimedOut => (g, Seq::empty()),
            Event::Reacted { reaction, by_player } => match reaction {
                Reaction::Other => (g, Seq::empty()),
                Reaction::Stay => practice_settle(GameView { stay: true, ..g }, Seq::empty()),
                Reaction::Hit => {
                    let h = hit(g, "hit or stay (react)"@);
                    if h.2 { practice_settle(h.0, h.1) } else { (h.0, h.1) }
                },
            },
        }
    }
}

/// The deal at the practice table: two cards each from the top of the deck, the
/// player's first; the status replaces the embed's title, the reactions follow.
pub open spec fn practice_deal(deck: Seq<usize>) -> (GameView, Seq<ActionView>) {
    let g = GameView {
        deck: deck.take(deck.len() - 4),
        player: seq![deck[deck.len() - 1], deck[deck.len() - 2]],
        dealer: seq![deck[deck.len() - 3], deck[deck.len() - 4]],
        stay: false,
        bet: 0,
        over: false,
    };
    (g, seq![edit(shown(g, false), "react to this!"@), ActionView::React('✋'), ActionView::React('🛑')])
}

proof fn lemma_cards_bounded(g: GameView)
    requires
        cards_kept(g),
    ensures
        0 <= total(g.player) <= 572,
        0 <= total(g.dealer) <= 572,
        ones(g.player) + ones(g.dealer) <= 4,
        total(g.player) >= 2 * g.player.len() - ones(g.player),
        total(g.dealer) >= 2 * g.dealer.len() - ones(g.dealer),
{
    lemma_total_bounds_len(g.player);
    lemma_total_bounds_len(g.dealer);
    lemma_ones_le_aces(g.player);
    lemma_ones_le_aces(g.dealer);
}

impl Blackjack {
    /// The player's hand.
    pub fn player_hand(&self) -> (h: &Vec<usize>)
        ensures
            h@ == self@.player,
    {
        &self.player
    }

    /// The dealer's hand.
    pub fn dealer_hand(&self) -> (h: &Vec<usize>)
        ensures
            h@ == self@.dealer,
    {
        &self.dealer
    }

    /// Whether the game is over.
    pub fn is_over(&self) -> (b: bool)
        ensures
            b == self@.over,
    {
        self.over
    }

    /// Takes the top card of the deck.
    fn draw(&mut self) -> (c: usize)
        requires
            old(self)@.deck.len() > 0,
        ensures
            c == old(self)@.deck.last(),
            final(self)@ == (GameView { deck: old(self)@.deck.drop_last(), ..old(self)@ }),
    {
        match self.deck.pop() {
            Some(c) => c,
            None => 0,
        }
    }

    /// The game status for the embed.
    fn show(&self, all_of_dealer: bool) -> (s: String)
        requires
            cards_kept(self@),
        ensures
            s@ == shown(self@, all_of_dealer),
    {
        proof {
            lemma_cards_bounded(self@);
        }
        format_game_status(None, &self.player, &self.dealer, all_of_dealer)
    }

    fn emit_edit(&self, acts: &mut Vec<Action>, title: &str, description: &str)
        ensures
            actions_view(final(acts)@) == actions_view(old(acts)@).push(edit(title@, description@)),
    {
        emit(acts, Action::Edit { title: title.to_string(), description: Some(description.to_string()) });
    }

    fn emit_money_win(&self, acts: &mut Vec<Action>, amount: i64)
        requires
            cards_kept(self@),
            amount >= 0,
        ensures
            actions_view(final(acts)@) == actions_view(old(acts)@) + money_win(self@, amount),
    {
        let status = self.show(true);
        emit(acts, Action::Edit { title: "You won!".to_string(), description: Some(status) });
        emit(acts, Action::Credit(amount));
        let mut r = "You won **".to_string();
        push_i64(&mut r, amount / 2);
        r.append("** monies.");
        emit(acts, Action::Reply(r));
        assert(actions_view(acts@) =~= actions_view(old(acts)@) + money_win(self@, amount));
    }

    fn emit_money_lose(&self, acts: &mut Vec<Action>)
        requires
            cards_kept(self@),
        ensures
            actions_view(final(acts)@) == actions_view(old(acts)@) + money_lose(self@),
    {
        let status = self.show(true);
        emit(acts, Action::Edit { title: "You lose.".to_string(), description: Some(status) });
        emit(acts, Action::AddToPool(self.bet as i64));
        let mut r = "You lost **".to_string();
        push_i64(&mut r, self.bet as i64);
        r.append("** monies.");
        emit(acts, Action::Reply(r));
        assert(actions_view(acts@) =~= actions_view(old(acts)@) + money_lose(self@));
    }

    fn emit_money_tie(&self, acts: &mut Vec<Action>)
        requires
            cards_kept(self@),
        ensures
            actions_view(final(acts)@) == actions_view(old(acts)@) + money_tie(self@),
    {
        emit(acts, Action::Credit(self.bet as i64));
        proof {
            lemma_cards_bounded(self@);
        }
        let status = format_game_status(Some("Tie. \n"), &self.player, &self.dealer, true);
        emit(acts, Action::Edit { title: "Tie.".to_string(), description: Some(status) });
        assert(actions_view(acts@) =~= actions_view(old(acts)@) + money_tie(self@));
    }

    #[verifier::rlimit(100)]
    fn money_rest(&mut self, acts: &mut Vec<Action>)
        requires
            turn_done(old(self)@),
        ensures
            final(self)@ == money_rest(old(self)@).0,
            actions_view(final(acts)@) == actions_view(old(acts)@) + money_rest(old(self)@).1,
            cards_kept(final(self)@),
            final(self)@.bet == old(self)@.bet,
            final(self)@.stay == old(self)@.stay,
            !final(self)@.over ==> old(self)@.stay && final(self)@.deck.len() < old(self)@.deck.len()
                && total(final(self)@.player) <= 22 + ones(final(self)@.player),
    {
        let ghost g = self@;
        let ghost a = actions_view(acts@);
        emit(acts, Action::Pause(250));
        proof {
            lemma_cards_bounded(self@);
        }
        let sum1 = hand_total(&self.player);
        let sum2 = hand_total(&self.dealer);
        let eleven = has_eleven(&self.player);
        if sum1 > 21 && !eleven {
            self.emit_edit(acts, "Bust!", "Bust");
            emit(acts, Action::Pause(500));
            self.emit_money_lose(acts);
            self.over = true;
            assert(actions_view(acts@) =~= a + money_rest(g).1);
            return;
        } else if sum1 == 21 {
            if sum2 == 21 {
                self.emit_money_tie(acts);
                self.over = true;
                assert(actions_view(acts@) =~= a + money_rest(g).1);
                return;
            }
            self.emit_edit(acts, "Blackjack!", "Blackjack!");
            emit(acts, Action::Pause(500));
            self.emit_money_win(acts, 3 * (self.bet as i64));
            self.over = true;
            assert(actions_view(acts@) =~= a + money_rest(g).1);
            return;
        }
        if sum1 > 21 {
            soften_ace(&mut self.player);
            proof {
                lemma_soften(g.player);
            }
        }
        let ghost ga = self@;
        let ghost aa = actions_view(acts@);
        assert(aa =~= a + seq![ActionView::Pause(250)]);
        self.money_dealer(acts);
        proof {
            let md = money_dealer(ga, seq![ActionView::Pause(250)]);
            let md2 = money_dealer(ga, aa);
            assert(md2.0 == md.0);
            assert(md2.1 =~= a + md.1);
        }
    }

    fn money_dealer(&mut self, acts: &mut Vec<Action>)
        requires
            cards_kept(old(self)@),
            !old(self)@.over,
            old(self)@.bet >= 0,
            old(self)@.stay,
            total(old(self)@.player) <= 22 + ones(old(self)@.player),
        ensures
            (final(self)@, actions_view(final(acts)@)) == money_dealer(old(self)@, actions_view(old(acts)@)),
            cards_kept(final(self)@),
            final(self)@.bet == old(self)@.bet,
            final(self)@.stay == old(self)@.stay,
            !final(self)@.over ==> final(self)@.deck.len() < old(self)@.deck.len()
                && total(final(self)@.player) <= 22 + ones(final(self)@.player),
    {
        let ghost ga = self@;
        let ghost a = actions_view(acts@);
        proof {
            lemma_cards_bounded(ga);
        }
        let sum2 = hand_total(&self.dealer);
        if sum2 < 17 {
            proof {
                assert(self@.deck.len() > 0);
            }
            let c = self.draw();
            self.dealer.push(c);
            proof {
                lemma_push(ga.dealer, c);
                assert(ga.deck.drop_last().push(c) =~= ga.deck);
                lemma_push(ga.deck.drop_last(), c);
                assert(valid_cards(self@.dealer)) by {
                    assert forall|i: int| 0 <= i < self@.dealer.len() implies 1 <= #[trigger] self@.dealer[i] <= 11 by {
                        if i < ga.dealer.len() {
                            assert(self@.dealer[i] == ga.dealer[i]);
                        } else {
                            assert(c == ga.deck[ga.deck.len() - 1]);
                        }
                    }
                }
                assert(valid_cards(self@.deck)) by {
                    assert forall|i: int| 0 <= i < self@.deck.len() implies 1 <= #[trigger] self@.deck[i] <= 11 by {
                        assert(self@.deck[i] == ga.deck[i]);
                    }
                }
            }
            let status = self.show(true);
            emit(acts, Action::Edit { title: status, description: Some("Dealer's turn.".to_string()) });
            self.money_final(acts);
        } else {
            if sum2 > 21 {
                if soften_ace(&mut self.player) {
                    proof {
                        lemma_soften(ga.player);
                    }
                }
            }
            let ghost gb = self@;
            self.emit_edit(acts, "The dealer stays.", "The dealer stays.");
            emit(acts, Action::Pause(250));
            proof {
                lemma_cards_bounded(gb);
            }
            match compare_hands(&self.player, &self.dealer) {
                Showdown::Win => self.emit_money_win(acts, 2 * (self.bet as i64)),
                Showdown::Lose => self.emit_money_lose(acts),
                Showdown::Tie => self.emit_money_tie(acts),
            }
            self.over = true;
            assert(actions_view(acts@) =~= money_dealer(ga, a).1);
        }
    }

    /// Deals from `deck` and hands out the first actions. The deck is the output of
    /// `deck_gen`: the 52 cards in some order.
    fn deal(deck: Vec<usize>, bet: i32) -> (g: Blackjack)
        requires
            deck@.to_multiset() == standard_deck().to_multiset(),
            bet >= 0,
        ensures
            g@ == (GameView { stay: false, over: false, bet, ..g@ }),
            g@.deck == deck@.take(48),
            g@.player == seq![deck@[51], deck@[50]],
            g@.dealer == seq![deck@[49], deck@[48]],
            cards_kept(g@),
    {
        proof {
            lemma_shuffled_deck(deck@);
        }
        let ghost d = deck@;
        let mut g = Blackjack { deck, player: Vec::new(), dealer: Vec::new(), stay: false, bet, over: false };
        let c1 = g.draw();
        g.player.push(c1);
        let c2 = g.draw();
        g.player.push(c2);
        let c3 = g.draw();
        g.dealer.push(c3);
        let c4 = g.draw();
        g.dealer.push(c4);
        proof {
            assert(g@.deck =~= d.take(48));
            assert(g@.player =~= seq![d[51], d[50]]);
            assert(g@.dealer =~= seq![d[49], d[48]]);
            assert(d =~= d.take(48) + seq![d[48], d[49], d[50], d[51]]);
            lemma_aces_split(d);
        }
        g
    }

    /// Starts a game at the table for money with the bet, already taken from the
    /// player's wallet, and the deck from `deck_gen`.
    pub fn start_with_deck(bet: i32, deck: Vec<usize>) -> (r: (Blackjack, Vec<Action>))
        requires
            deck@.to_multiset() == standard_deck().to_multiset(),
            bet >= 0,
        ensures
            game_inv(r.0@),
            (r.0@, actions_view(r.1@)) == money_deal(deck@, bet),
    {
        let ghost d = deck@;
        proof {
            lemma_shuffled_deck(d);
        }
        let mut g = Blackjack::deal(deck, bet);
        let ghost g0 = g@;
        if g.player[0] == 11 && g.player[1] == 11 {
            soften_ace(&mut g.player);
            proof { lemma_soften(g0.player); }
        }
        let ghost g1 = g@;
        if g.dealer[0] == 11 && g.dealer[1] == 11 {
            soften_ace(&mut g.dealer);
            proof { lemma_soften(g1.dealer); }
        }
        proof {
            lemma_cards_bounded(g@);
            lemma_total_pair(g0.player);
            if g0.player[0] == 11 && g0.player[1] == 11 {
                lemma_total_pair(g@.player);
            }
        }
        proof {
            let m = money_deal(d, bet).0;
            assert(g@.player =~= m.player);
            assert(g@.dealer =~= m.dealer);
            assert(g@.deck =~= m.deck);
        }
        assert(g@ == money_deal(d, bet).0);
        let mut acts: Vec<Action> = Vec::new();
        emit(&mut acts, Action::Edit { title: "Loading...".to_string(), description: None });
        emit(&mut acts, Action::React('✋'));
        emit(&mut acts, Action::React('🛑'));
        let status = g.show(false);
        emit(&mut acts, Action::Edit { title: status, description: Some("Hit or stay? (React)".to_string()) });
        assert(actions_view(acts@) =~= money_deal(d, bet).1);
        (g, acts)
    }

    /// Starts a game at the table for money with a freshly shuffled deck.
    pub fn start(bet: i32) -> (r: (Blackjack, Vec<Action>))
        requires
            bet >= 0,
        ensures
            game_inv(r.0@),
            exists|deck: Seq<usize>|
                deck.to_multiset() == standard_deck().to_multiset() && (r.0@, actions_view(r.1@))
                    == #[trigger] money_deal(deck, bet),
    {
        let deck = deck_gen();
        let ghost d = deck@;
        let r = Blackjack::start_with_deck(bet, deck);
        assert((r.0@, actions_view(r.1@)) == money_deal(d, bet));
        r
    }

    /// The player takes a card; `prompt` is the embed's description while the turn
    /// goes on. Tells whether the player's turn ended.
    fn hit(&mut self, acts: &mut Vec<Action>, prompt: &str) -> (done: bool)
        requires
            game_inv(old(self)@),
            !old(self)@.over,
            !old(self)@.stay,
        ensures
            ({
                let h = hit(old(self)@, prompt@);
                &&& final(self)@ == h.0
                &&& actions_view(final(acts)@) == actions_view(old(acts)@) + h.1
                &&& done == h.2
            }),
            done ==> turn_done(final(self)@),
            !done ==> game_inv(final(self)@),
    {
        let ghost g = self@;
        let ghost a = actions_view(acts@);
        proof {
            lemma_cards_bounded(g);
            lemma_ones_le_aces(g.deck);
        }
        let c = self.draw();
        self.player.push(c);
        let ghost g1 = self@;
        proof {
            lemma_push(g.player, c);
            assert(g.deck.drop_last().push(c) =~= g.deck);
            lemma_push(g.deck.drop_last(), c);
            assert(valid_cards(g1.player)) by {
                assert forall|i: int| 0 <= i < g1.player.len() implies 1 <= #[trigger] g1.player[i] <= 11 by {
                    if i < g.player.len() {
                        assert(g1.player[i] == g.player[i]);
                    } else {
                        assert(c == g.deck[g.deck.len() - 1]);
                    }
                }
            }
            assert(valid_cards(g1.deck)) by {
                assert forall|i: int| 0 <= i < g1.deck.len() implies 1 <= #[trigger] g1.deck[i] <= 11 by {
                    assert(g1.deck[i] == g.deck[i]);
                }
            }
            lemma_cards_bounded(g1);
        }
        let sum = hand_total(&self.player);
        if sum > 21 {
            if soften_ace(&mut self.player) {
                proof {
                    lemma_soften(g1.player);
                }
                let status = self.show(false);
                emit(acts, Action::Edit { title: status, description: Some(prompt.to_string()) });
                assert(actions_view(acts@) =~= a + hit(g, prompt@).1);
                false
            } else {
                assert(actions_view(acts@) =~= a + hit(g, prompt@).1);
                true
            }
        } else if sum == 21 {
            assert(actions_view(acts@) =~= a + hit(g, prompt@).1);
            true
        } else {
            let status = self.show(false);
            emit(acts, Action::Edit { title: status, description: Some(prompt.to_string()) });
            assert(actions_view(acts@) =~= a + hit(g, prompt@).1);
            false
        }
    }

    /// The main loop after the player's turn at the table for money.
    fn money_settle(&mut self, acts: &mut Vec<Action>)
        requires
            turn_done(old(self)@),
        ensures
            (final(self)@, actions_view(final(acts)@)) == money_settle(old(self)@, actions_view(old(acts)@)),
            game_inv(final(self)@),
            old(self)@.stay ==> final(self)@.over,
    {
        loop
            invariant
                turn_done(self@),
                self@.stay == old(self)@.stay,
                money_settle(old(self)@, actions_view(old(acts)@)) == money_settle(self@, actions_view(acts@)),
            decreases self@.deck.len(),
        {
            let ghost g = self@;
            let ghost a = actions_view(acts@);
            self.money_rest(acts);
            if self.over || !self.stay {
                return;
            }
            assert(money_settle(g, a) == money_settle(self@, actions_view(acts@)));
        }
    }

    /// How the table for money answers an event.
    pub fn money_react(&mut self, e: Event) -> (acts: Vec<Action>)
        requires
            game_inv(old(self)@),
        ensures
            game_inv(final(self)@),
            (final(self)@, actions_view(acts@)) == money_react(old(self)@, e),
            (e matches Event::Reacted { reaction: Reaction::Stay, by_player: true }) ==> final(self)@.over,
    {
        let mut acts: Vec<Action> = Vec::new();
        if self.over {
            return acts;
        }
        let ghost g = self@;
        match e {
            Event::TimedOut => {
                emit(&mut acts, Action::AddToPool(self.bet as i64));
                let mut d = "One minute passed with no reactions, so the game ended with no results. As a result, you lost your bet, which was **".to_string();
                push_i64(&mut d, self.bet as i64);
                d.append("** monies.");
                emit(&mut acts, Action::Edit { title: "Timed out.".to_string(), description: Some(d) });
                self.over = true;
                assert(actions_view(acts@) =~= money_react(g, e).1);
            },
            Event::Reacted { reaction, by_player } => {
                if !by_player {
                    assert(actions_view(acts@) =~= Seq::<ActionView>::empty());
                    return acts;
                }
                match reaction {
                    Reaction::Other => {
                        assert(actions_view(acts@) =~= Seq::<ActionView>::empty());
                    },
                    Reaction::Stay => {
                        self.stay = true;
                        assert(actions_view(acts@) =~= Seq::<ActionView>::empty());
                        self.money_settle(&mut acts);
                    },
                    Reaction::Hit => {
                        assert(actions_view(acts@) =~= Seq::<ActionView>::empty());
                        let done = self.hit(&mut acts, "Hit or stay? (React)");
                        if done {
                            self.money_settle(&mut acts);
                        }
                    },
                }
            },
        }
        acts
    }

    /// Starts a game at the practice table with the deck from `deck_gen`.
    pub fn practice_with_deck(deck: Vec<usize>) -> (r: (Blackjack, Vec<Action>))
        requires
            deck@.to_multiset() == standard_deck().to_multiset(),
        ensures
            game_inv(r.0@),
            (r.0@, actions_view(r.1@)) == practice_deal(deck@),
    {
        let ghost d = deck@;
        proof {
            lemma_shuffled_deck(d);
        }
        let g = Blackjack::deal(deck, 0);
        proof {
            lemma_cards_bounded(g@);
            lemma_total_pair(g@.player);
            let m = practice_deal(d).0;
            assert(g@.player =~= m.player);
            assert(g@.dealer =~= m.dealer);
            assert(g@.deck =~= m.deck);
        }
        assert(g@ == practice_deal(d).0);
        let mut acts: Vec<Action> = Vec::new();
        let status = g.show(false);
        emit(&mut acts, Action::Edit { title: status, description: Some("react to this!".to_string()) });
        emit(&mut acts, Action::React('✋'));
        emit(&mut acts, Action::React('🛑'));
        assert(actions_view(acts@) =~= practice_deal(d).1);
        (g, acts)
    }

    /// Starts a game at the practice table with a freshly shuffled deck.
    pub fn practice() -> (r: (Blackjack, Vec<Action>))
        ensures
            game_inv(r.0@),
            exists|deck: Seq<usize>|
                deck.to_multiset() == standard_deck().to_multiset() && (r.0@, actions_view(r.1@))
                    == #[trigger] practice_deal(deck),
    {
        let deck = deck_gen();
        let ghost d = deck@;
        let r = Blackjack::practice_with_deck(deck);
        assert((r.0@, actions_view(r.1@)) == practice_deal(d));
        r
    }

    fn emit_practice_end(&self, acts: &mut Vec<Action>, title: &str, tie: bool)
        requires
            cards_kept(self@),
        ensures
            actions_view(final(acts)@) == actions_view(old(acts)@).push(edit(title@,
                if tie { status_text(Some("Tie. \n"@), self@.player, self@.dealer, true) } else { shown(self@, true) })),
    {
        proof {
            lemma_cards_bounded(self@);
        }
        let status = if tie {
            format_game_status(Some("Tie. \n"), &self.player, &self.dealer, true)
        } else {
            self.show(true)
        };
        emit(acts, Action::Edit { title: title.to_string(), description: Some(status) });
    }

    fn practice_final(&mut self, acts: &mut Vec<Action>)
        requires
            cards_kept(old(self)@),
            !old(self)@.over,
        ensures
            (final(self)@, actions_view(final(acts)@)) == practice_final(old(self)@, actions_view(old(acts)@)),
            final(self)@ == old(self)@ || final(self)@ == ended(old(self)@),
    {
        let ghost g = self@;
        let ghost a = actions_view(acts@);
        emit(acts, Action::Pause(250));
        proof {
            lemma_cards_bounded(self@);
        }
        let sum2 = hand_total(&self.dealer);
        if sum2 > 21 {
            self.emit_edit(acts, "Dealer bust!", "Dealer bust!");
            self.emit_practice_end(acts, "You won!", false);
            self.over = true;
            assert(actions_view(acts@) =~= practice_final(g, a).1);
        } else if sum2 == 21 {
            self.emit_edit(acts, "Dealer blackjack!", "Dealer blackjack!");
            self.emit_practice_end(acts, "You lose.", false);
            self.over = true;
            assert(actions_view(acts@) =~= practice_final(g, a).1);
        } else {
            emit(acts, Action::Pause(250));
            if !self.stay {
                let status = self.show(false);
                emit(acts, Action::Edit { title: status, description: Some("description".to_string()) });
            }
            emit(acts, Action::Pause(250));
            assert(actions_view(acts@) =~= practice_final(g, a).1);
        }
    }

    fn practice_dealer(&mut self, acts: &mut Vec<Action>)
        requires
            cards_kept(old(self)@),
            !old(self)@.over,
            old(self)@.stay,
            total(old(self)@.player) <= 22 + ones(old(self)@.player),
        ensures
            (final(self)@, actions_view(final(acts)@)) == practice_dealer(old(self)@, actions_view(old(acts)@)),
            cards_kept(final(self)@),
            final(self)@.stay == old(self)@.stay,
            final(self)@.player == old(self)@.player,
            !final(self)@.over ==> final(self)@.deck.len() < old(self)@.deck.len(),
    {
        let ghost ga = self@;
        let ghost a = actions_view(acts@);
        proof {
            lemma_cards_bounded(ga);
        }
        let sum2 = hand_total(&self.dealer);
        if sum2 < 17 {
            proof {
                assert(self@.deck.len() > 0);
            }
            let c = self.draw();
            self.dealer.push(c);
            proof {
                lemma_push(ga.dealer, c);
                assert(ga.deck.drop_last().push(c) =~= ga.deck);
                lemma_push(ga.deck.drop_last(), c);
                assert(valid_cards(self@.dealer)) by {
                    assert forall|i: int| 0 <= i < self@.dealer.len() implies 1 <= #[trigger] self@.dealer[i] <= 11 by {
                        if i < ga.dealer.len() {
                            assert(self@.dealer[i] == ga.dealer[i]);
                        } else {
                            assert(c == ga.deck[ga.deck.len() - 1]);
                        }
                    }
                }
                assert(valid_cards(self@.deck)) by {
                    assert forall|i: int| 0 <= i < self@.deck.len() implies 1 <= #[trigger] self@.deck[i] <= 11 by {
                        assert(self@.deck[i] == ga.deck[i]);
                    }
                }
            }
            let status = self.show(true);
            emit(acts, Action::Edit { title: status, description: Some("Dealer's turn.".to_string()) });
            self.practice_final(acts);
        } else {
            self.emit_edit(acts, "The dealer stays.", "The dealer stays.");
            self.emit_edit(acts, "You stayed... testing.", "test");
            match compare_hands(&self.player, &self.dealer) {
                Showdown::Win => self.emit_practice_end(acts, "You won!", false),
                Showdown::Lose => self.emit_practice_end(acts, "You lose.", false),
                Showdown::Tie => self.emit_practice_end(acts, "Tie.", true),
            }
            self.over = true;
            assert(actions_view(acts@) =~= practice_dealer(ga, a).1);
        }
    }

    #[verifier::rlimit(100)]
    fn practice_rest(&mut self, acts: &mut Vec<Action>)
        requires
            turn_done(old(self)@),
        ensures
            final(self)@ == practice_rest(old(self)@).0,
            actions_view(final(acts)@) == actions_view(old(acts)@) + practice_rest(old(self)@).1,
            cards_kept(final(self)@),
            final(self)@.bet == old(self)@.bet,
            final(self)@.stay == old(self)@.stay,
            !final(self)@.over ==> old(self)@.stay && final(self)@.deck.len() < old(self)@.deck.len()
                && total(final(self)@.player) <= 22 + ones(final(self)@.player),
    {
        let ghost g = self@;
        let ghost a = actions_view(acts@);
        emit(acts, Action::Pause(250));
        proof {
            lemma_cards_bounded(self@);
        }
        let sum1 = hand_total(&self.player);
        let eleven = has_eleven(&self.player);
        if sum1 > 21 && !eleven {
            self.emit_edit(acts, "Bust!", "Bust");
            self.emit_practice_end(acts, "You lose.", false);
            self.over = true;
            assert(actions_view(acts@) =~= a + practice_rest(g).1);
            return;
        } else if sum1 == 21 {
            self.emit_edit(acts, "Blackjack", "Blackjack");
            self.emit_practice_end(acts, "You won!", false);
            self.over = true;
            assert(actions_view(acts@) =~= a + practice_rest(g).1);
            return;
        }
        if sum1 > 21 {
            soften_ace(&mut self.player);
            proof {
                lemma_soften(g.player);
            }
        }
        let ghost ga = self@;
        let ghost aa = actions_view(acts@);
        assert(aa =~= a + seq![ActionView::Pause(250)]);
        self.practice_dealer(acts);
        proof {
            let md = practice_dealer(ga, seq![ActionView::Pause(250)]);
            let md2 = practice_dealer(ga, aa);
            assert(md2.0 == md.0);
            assert(md2.1 =~= a + md.1);
        }
    }

    /// The main loop after the player's turn at the practice table.
    fn practice_settle(&mut self, acts: &mut Vec<Action>)
        requires
            turn_done(old(self)@),
        ensures
            (final(self)@, actions_view(final(acts)@)) == practice_settle(old(self)@, actions_view(old(acts)@)),
            game_inv(final(self)@),
            old(self)@.stay ==> final(self)@.over,
    {
        loop
            invariant
                turn_done(self@),
                self@.stay == old(self)@.stay,
                practice_settle(old(self)@, actions_view(old(acts)@)) == practice_settle(self@, actions_view(acts@)),
            decreases self@.deck.len(),
        {
            let ghost g = self@;
            let ghost a = actions_view(acts@);
            self.practice_rest(acts);
            if self.over || !self.stay {
                return;
            }
            assert(practice_settle(g, a) == practice_settle(self@, actions_view(acts@)));
        }
    }

    /// How the practice table answers an event.
    pub fn practice_react(&mut self, e: Event) -> (acts: Vec<Action>)
        requires
            game_inv(old(self)@),
        ensures
            game_inv(final(self)@),
            (final(self)@, actions_view(acts@)) == practice_react(old(self)@, e),
            (e matches Event::Reacted { reaction: Reaction::Stay, .. }) ==> final(self)@.over,
    {
        let mut acts: Vec<Action> = Vec::new();
        if self.over {
            return acts;
        }
        match e {
            Event::TimedOut => {
                assert(actions_view(acts@) =~= Seq::<ActionView>::empty());
            },
            Event::Reacted { reaction, by_player } => {
                match reaction {
                    Reaction::Other => {
                        assert(actions_view(acts@) =~= Seq::<ActionView>::empty());
                    },
                    Reaction::Stay => {
                        self.stay = true;
                        assert(actions_view(acts@) =~= Seq::<ActionView>::empty());
                        self.practice_settle(&mut acts);
                    },
                    Reaction::Hit => {
                        assert(actions_view(acts@) =~= Seq::<ActionView>::empty());
                        let done = self.hit(&mut acts, "hit or stay (react)");
                        if done {
                            self.practice_settle(&mut acts);
                        }
                    },
                }
            },
        }
        acts
    }

    fn money_final(&mut self, acts: &mut Vec<Action>)
        requires
            cards_kept(old(self)@),
            !old(self)@.over,
            old(self)@.bet >= 0,
        ensures
            (final(self)@, actions_view(final(acts)@)) == money_final(old(self)@, actions_view(old(acts)@)),
            cards_kept(final(self)@),
            final(self)@.deck == old(self)@.deck,
            final(self)@.stay == old(self)@.stay,
            final(self)@.bet == old(self)@.bet,
            final(self)@.player == old(self)@.player,
            final(self)@.dealer.len() == old(self)@.dealer.len(),
    {
        let ghost g = self@;
        let ghost a = actions_view(acts@);
        emit(acts, Action::Pause(250));
        proof {
            lemma_cards_bounded(self@);
        }
        let sum1 = hand_total(&self.player);
        let sum2 = hand_total(&self.dealer);
        if sum2 > 21 {
            if soften_ace(&mut self.dealer) {
                proof {
                    lemma_soften(g.dealer);
                }
                return;
            }
            self.emit_edit(acts, "The dealer bust!", "The dealer bust!");
            emit(acts, Action::Pause(250));
            self.emit_money_win(acts, 2 * (self.bet as i64));
            self.over = true;
            assert(actions_view(acts@) =~= money_final(g, a).1);
        } else if sum2 == 21 {
            if sum1 == 21 {
                self.emit_money_tie(acts);
                self.over = true;
                assert(actions_view(acts@) =~= money_final(g, a).1);
                return;
            }
            self.emit_edit(acts, "The dealer got a blackjack!", "The dealer got a blackjack!");
            emit(acts, Action::Pause(250));
            self.emit_money_lose(acts);
            self.over = true;
            assert(actions_view(acts@) =~= money_final(g, a).1);
        } else {
            emit(acts, Action::Pause(250));
            if !self.stay {
                let status = self.show(false);
                emit(acts, Action::Edit { title: status, description: Some("description".to_string()) });
            }
            emit(acts, Action::Pause(250));
            assert(actions_view(acts@) =~= money_final(g, a).1);
        }
    }
}


/// The money that a list of actions puts into the player's wallet.
pub open spec fn credited(acts: Seq<ActionView>) -> int
    decreases acts.len(),
{
    if acts.len() == 0 {
        0
    } else {
        credited(acts.drop_last()) + match acts.last() {
            ActionView::Credit(a) => a as int,
            _ => 0,
        }
    }
}

/// The money that a list of actions puts into the server's pool.
pub open spec fn pooled(acts: Seq<ActionView>) -> int
    decreases acts.len(),
{
    if acts.len() == 0 {
        0
    } else {
        pooled(acts.drop_last()) + match acts.last() {
            ActionView::AddToPool(a) => a as int,
            _ => 0,
        }
    }
}

/// Where the actions `x` move money, for a game with `bet` that ends (`over`) or not:
/// an ending pays the bet back twice or three times (a win), pays it back once (a
/// tie) or puts it into the pool (a loss); a step that does not end the game moves
/// no money.
pub open spec fn settles(x: Seq<ActionView>, bet: i32, over: bool) -> bool {
    if over {
        ||| credited(x) == 2 * bet && pooled(x) == 0
        ||| credited(x) == 3 * bet && pooled(x) == 0
        ||| credited(x) == bet && pooled(x) == 0
        ||| credited(x) == 0 && pooled(x) == bet
    } else {
        credited(x) == 0 && pooled(x) == 0
    }
}

proof fn lemma_money_concat(a: Seq<ActionView>, b: Seq<ActionView>)
    ensures
        credited(a + b) == credited(a) + credited(b),
        pooled(a + b) == pooled(a) + pooled(b),
    decreases b.len(),
{
    if b.len() == 0 {
        assert(a + b =~= a);
    } else {
        assert((a + b).drop_last() =~= a + b.drop_last());
        lemma_money_concat(a, b.drop_last());
    }
}

/// Actions that are neither credits nor pool additions move no money.
proof fn lemma_no_money(x: Seq<ActionView>)
    requires
        forall|i: int| 0 <= i < x.len() ==> !(#[trigger] x[i] is Credit) && !(x[i] is AddToPool),
    ensures
        credited(x) == 0,
        pooled(x) == 0,
    decreases x.len(),
{
    if x.len() > 0 {
        assert forall|i: int| 0 <= i < x.drop_last().len() implies !(#[trigger] x.drop_last()[i] is Credit)
            && !(x.drop_last()[i] is AddToPool) by {
            assert(x.drop_last()[i] == x[i]);
        }
        lemma_no_money(x.drop_last());
    }
}

proof fn lemma_one_move(x: Seq<ActionView>, k: int)
    requires
        0 <= k < x.len(),
        forall|i: int| 0 <= i < x.len() && i != k ==> !(#[trigger] x[i] is Credit) && !(x[i] is AddToPool),
    ensures
        credited(x) == match x[k] { ActionView::Credit(a) => a as int, _ => 0 },
        pooled(x) == match x[k] { ActionView::AddToPool(a) => a as int, _ => 0 },
{
    let pre = x.take(k);
    let mid = seq![x[k]];
    let post = x.skip(k + 1);
    assert(x =~= pre + mid + post);
    lemma_money_concat(pre + mid, post);
    lemma_money_concat(pre, mid);
    assert forall|i: int| 0 <= i < pre.len() implies !(#[trigger] pre[i] is Credit) && !(pre[i] is AddToPool) by {
        assert(pre[i] == x[i]);
    }
    assert forall|i: int| 0 <= i < post.len() implies !(#[trigger] post[i] is Credit) && !(post[i] is AddToPool) by {
        assert(post[i] == x[k + 1 + i]);
    }
    lemma_no_money(pre);
    lemma_no_money(post);
    assert(mid.drop_last().len() == 0);
    assert(credited(mid.drop_last()) == 0);
    assert(pooled(mid.drop_last()) == 0);
    assert(mid.last() == x[k]);
}

proof fn lemma_endings_move(g: GameView, amount: i64)
    ensures
        credited(money_win(g, amount)) == amount && pooled(money_win(g, amount)) == 0,
        credited(money_lose(g)) == 0 && pooled(money_lose(g)) == g.bet,
        credited(money_tie(g)) == g.bet && pooled(money_tie(g)) == 0,
{
    lemma_one_move(money_win(g, amount), 1);
    lemma_one_move(money_lose(g), 1);
    lemma_one_move(money_tie(g), 0);
}

proof fn lemma_money_final_settles(g: GameView, acts: Seq<ActionView>)
    requires
        g.bet >= 0,
        !g.over,
    ensures
        ({
            let r = money_final(g, acts);
            exists|x: Seq<ActionView>| #[trigger] settles(x, g.bet, r.0.over) && r.1 == acts + x
        }),
        money_final(g, acts).0.bet == g.bet,
{
    let r = money_final(g, acts);
    let a = acts.push(ActionView::Pause(250));
    lemma_endings_move(g, (2 * g.bet) as i64);
    let s1 = total(g.player);
    let s2 = total(g.dealer);
    if s2 > 21 {
        if g.dealer.contains(11) {
            let x = seq![ActionView::Pause(250)];
            lemma_no_money(x);
            assert(r.1 =~= acts + x);
            assert(settles(x, g.bet, r.0.over));
        } else {
            let y = seq![ActionView::Pause(250), edit("The dealer bust!"@, "The dealer bust!"@), ActionView::Pause(250)];
            let x = y + money_win(g, (2 * g.bet) as i64);
            lemma_no_money(y);
            lemma_money_concat(y, money_win(g, (2 * g.bet) as i64));
            assert(r.1 =~= acts + x);
            assert(settles(x, g.bet, r.0.over));
        }
    } else if s2 == 21 {
        if s1 == 21 {
            let y = seq![ActionView::Pause(250)];
            let x = y + money_tie(g);
            lemma_no_money(y);
            lemma_money_concat(y, money_tie(g));
            assert(r.1 =~= acts + x);
            assert(settles(x, g.bet, r.0.over));
        } else {
            let y = seq![ActionView::Pause(250), edit("The dealer got a blackjack!"@, "The dealer got a blackjack!"@), ActionView::Pause(250)];
            let x = y + money_lose(g);
            lemma_no_money(y);
            lemma_money_concat(y, money_lose(g));
            assert(r.1 =~= acts + x);
            assert(settles(x, g.bet, r.0.over));
        }
    } else {
        let y = seq![ActionView::Pause(250), ActionView::Pause(250)];
        let x = if !g.stay { y.push(edit(shown(g, false), "description"@)).push(ActionView::Pause(250)) } else { y.push(ActionView::Pause(250)) };
        lemma_no_money(x);
        assert(r.1 =~= acts + x);
        assert(settles(x, g.bet, r.0.over));
    }
}

/// A dealer who goes over 21 with no ace counting 11 loses: the game ends, the
/// player's wallet gets twice the bet (the bet back and as much again), nothing
/// goes into the pool, and the last reply tells the player the bet was won.
pub proof fn lemma_dealer_bust_pays_double(g: GameView, acts: Seq<ActionView>)
    requires
        g.bet >= 0,
        !g.over,
        total(g.dealer) > 21,
        !g.dealer.contains(11),
    ensures
        money_final(g, acts).0.over,
        credited(money_final(g, acts).1) == credited(acts) + 2 * g.bet,
        pooled(money_final(g, acts).1) == pooled(acts),
        money_final(g, acts).1.last() == ActionView::Reply("You won **"@ + int_text(g.bet as int) + "** monies."@),
{
    let r = money_final(g, acts);
    let w = money_win(g, (2 * g.bet) as i64);
    let y = seq![ActionView::Pause(250), edit("The dealer bust!"@, "The dealer bust!"@), ActionView::Pause(250)];
    assert(r.1 =~= acts + (y + w));
    lemma_no_money(y);
    lemma_one_move(w, 1);
    lemma_money_concat(y, w);
    lemma_money_concat(acts, y + w);
    assert((2 * g.bet) as i64 / 2 == g.bet as int);
}

proof fn lemma_money_rest_settles(g: GameView)
    requires
        g.bet >= 0,
        !g.over,
    ensures
        settles(money_rest(g).1, g.bet, money_rest(g).0.over),
        money_rest(g).0.bet == g.bet,
{
    let r = money_rest(g);
    let s1 = total(g.player);
    let s2 = total(g.dealer);
    let a0 = seq![ActionView::Pause(250)];
    lemma_endings_move(g, (3 * g.bet) as i64);
    if s1 > 21 && !g.player.contains(11) {
        let y = seq![ActionView::Pause(250), edit("Bust!"@, "Bust"@), ActionView::Pause(500)];
        lemma_no_money(y);
        lemma_money_concat(y, money_lose(g));
        assert(r.1 =~= y + money_lose(g));
    } else if s1 == 21 && s2 == 21 {
        lemma_no_money(a0);
        lemma_money_concat(a0, money_tie(g));
    } else if s1 == 21 {
        let y = seq![ActionView::Pause(250), edit("Blackjack!"@, "Blackjack!"@), ActionView::Pause(500)];
        lemma_no_money(y);
        lemma_money_concat(y, money_win(g, (3 * g.bet) as i64));
        assert(r.1 =~= y + money_win(g, (3 * g.bet) as i64));
    } else {
        let ga = if s1 > 21 { GameView { player: soften(g.player), ..g } } else { g };
        lemma_no_money(a0);
        if s2 < 17 {
            let gb = GameView { dealer: ga.dealer.push(ga.deck.last()), deck: ga.deck.drop_last(), ..ga };
            let a1 = a0.push(edit(shown(gb, true), "Dealer's turn."@));
            lemma_no_money(a1);
            lemma_money_final_settles(gb, a1);
            let x = choose|x: Seq<ActionView>| #[trigger] settles(x, gb.bet, r.0.over) && r.1 == a1 + x;
            lemma_money_concat(a1, x);
        } else {
            let gb = if s2 > 21 && ga.player.contains(11) { GameView { player: soften(ga.player), ..ga } } else { ga };
            let a1 = a0 + seq![edit("The dealer stays."@, "The dealer stays."@), ActionView::Pause(250)];
            lemma_no_money(a1);
            lemma_endings_move(gb, (2 * g.bet) as i64);
            if g.stay {
                lemma_money_concat(a1, money_win(gb, (2 * g.bet) as i64));
                lemma_money_concat(a1, money_lose(gb));
                lemma_money_concat(a1, money_tie(gb));
            } else {
                lemma_money_final_settles(gb, a1);
                let x = choose|x: Seq<ActionView>| #[trigger] settles(x, gb.bet, r.0.over) && r.1 == a1 + x;
                lemma_money_concat(a1, x);
            }
        }
    }
}

proof fn lemma_money_settle_settles(g: GameView, acts: Seq<ActionView>)
    requires
        g.bet >= 0,
        !g.over,
    ensures
        ({
            let r = money_settle(g, acts);
            exists|x: Seq<ActionView>| #[trigger] settles(x, g.bet, r.0.over) && r.1 == acts + x
        }),
    decreases g.deck.len(),
{
    let r = money_rest(g);
    let a = acts + r.1;
    lemma_money_rest_settles(g);
    if r.0.over || !r.0.stay || r.0.deck.len() >= g.deck.len() {
        assert(settles(r.1, g.bet, money_settle(g, acts).0.over));
    } else {
        lemma_money_settle_settles(r.0, a);
        let y = choose|y: Seq<ActionView>| #[trigger] settles(y, g.bet, money_settle(r.0, a).0.over) && money_settle(r.0, a).1 == a + y;
        lemma_money_concat(r.1, y);
        assert(acts + (r.1 + y) =~= a + y);
        assert(settles(r.1 + y, g.bet, money_settle(g, acts).0.over));
    }
}

/// The bet is settled exactly once. The bet was taken from the wallet before the
/// deal; when a reaction ends the game, its actions pay the bet back with winnings
/// (twice the bet, or three times for a blackjack), pay it back alone (a tie), or put
/// it into the server's pool (a loss or a timeout); a reaction that does not end the
/// game, or one after the end, moves no money.
pub proof fn lemma_bet_settled_once(g: GameView, e: Event)
    requires
        game_inv(g),
    ensures
        settles(money_react(g, e).1, g.bet, money_react(g, e).0.over && !g.over),
{
    let r = money_react(g, e);
    if g.over {
        lemma_no_money(r.1);
    } else {
        match e {
            Event::TimedOut => {
                lemma_one_move(r.1, 0);
            },
            Event::Reacted { reaction, by_player } => {
                if !by_player {
                    lemma_no_money(r.1);
                } else {
                    match reaction {
                        Reaction::Other => lemma_no_money(r.1),
                        Reaction::Stay => {
                            lemma_money_settle_settles(GameView { stay: true, ..g }, Seq::empty());
                            let x = choose|x: Seq<ActionView>| #[trigger] settles(x, g.bet, r.0.over) && r.1 == Seq::<ActionView>::empty() + x;
                            assert(r.1 =~= x);
                        },
                        Reaction::Hit => {
                            let h = hit(g, "Hit or stay? (React)"@);
                            assert forall|i: int| 0 <= i < h.1.len() implies !(#[trigger] h.1[i] is Credit) && !(h.1[i] is AddToPool) by {}
                            lemma_no_money(h.1);
                            if h.2 {
                                lemma_money_settle_settles(h.0, h.1);
                                let x = choose|x: Seq<ActionView>| #[trigger] settles(x, g.bet, r.0.over) && r.1 == h.1 + x;
                                lemma_money_concat(h.1, x);
                            }
                        },
                    }
                }
            },
        }
    }
}


/// No action of the list moves money.
pub open spec fn moves_no_money(x: Seq<ActionView>) -> bool {
    forall|i: int| 0 <= i < x.len() ==> !(#[trigger] x[i] is Credit) && !(x[i] is AddToPool)
}

proof fn lemma_practice_final_no_money(g: GameView, acts: Seq<ActionView>)
    requires
        moves_no_money(acts),
    ensures
        moves_no_money(practice_final(g, acts).1),
{
    let a = acts.push(ActionView::Pause(250));
    assert(moves_no_money(a));
    let s2 = total(g.dealer);
    if s2 > 21 {
        let b = a.push(edit("Dealer bust!"@, "Dealer bust!"@));
        assert(moves_no_money(b));
        assert(moves_no_money(b + practice_win(g)));
    } else if s2 == 21 {
        let b = a.push(edit("Dealer blackjack!"@, "Dealer blackjack!"@));
        assert(moves_no_money(b));
        assert(moves_no_money(b + practice_lose(g)));
    } else {
        let a2 = a.push(ActionView::Pause(250));
        let a3 = if !g.stay { a2.push(edit(shown(g, false), "description"@)) } else { a2 };
        assert(moves_no_money(a2));
        assert(moves_no_money(a3));
        assert(moves_no_money(a3.push(ActionView::Pause(250))));
    }
}

proof fn lemma_practice_rest_no_money(g: GameView)
    ensures
        moves_no_money(practice_rest(g).1),
{
    let s1 = total(g.player);
    let a0 = seq![ActionView::Pause(250)];
    assert(moves_no_money(a0));
    if s1 > 21 && !g.player.contains(11) {
        let b = a0.push(edit("Bust!"@, "Bust"@));
        assert(moves_no_money(b));
        assert(moves_no_money(b + practice_lose(g)));
    } else if s1 == 21 {
        let b = a0.push(edit("Blackjack"@, "Blackjack"@));
        assert(moves_no_money(b));
        assert(moves_no_money(b + practice_win(g)));
    } else {
        let ga = if s1 > 21 { GameView { player: soften(g.player), ..g } } else { g };
        if total(ga.dealer) < 17 {
            let gb = GameView { dealer: ga.dealer.push(ga.deck.last()), deck: ga.deck.drop_last(), ..ga };
            let a1 = a0.push(edit(shown(gb, true), "Dealer's turn."@));
            assert(moves_no_money(a1));
            lemma_practice_final_no_money(gb, a1);
        } else {
            let a1 = a0.push(edit("The dealer stays."@, "The dealer stays."@));
            assert(moves_no_money(a1));
            if ga.stay {
                let a2 = a1.push(edit("You stayed... testing."@, "test"@));
                assert(moves_no_money(a2));
                assert(moves_no_money(a2 + practice_win(ga)));
                assert(moves_no_money(a2 + practice_lose(ga)));
                assert(moves_no_money(a2 + practice_tie(ga)));
            } else {
                lemma_practice_final_no_money(ga, a1);
            }
        }
    }
}

proof fn lemma_practice_settle_no_money(g: GameView, acts: Seq<ActionView>)
    requires
        moves_no_money(acts),
    ensures
        moves_no_money(practice_settle(g, acts).1),
    decreases g.deck.len(),
{
    let r = practice_rest(g);
    lemma_practice_rest_no_money(g);
    let a = acts + r.1;
    assert(moves_no_money(a));
    if !(r.0.over || !r.0.stay || r.0.deck.len() >= g.deck.len()) {
        lemma_practice_settle_no_money(r.0, a);
    }
}

/// The practice table plays for nothing: whatever happens, none of its actions
/// credits the wallet or adds to the server's pool.
pub proof fn lemma_practice_moves_no_money(g: GameView, e: Event)
    ensures
        moves_no_money(practice_react(g, e).1),
        credited(practice_react(g, e).1) == 0,
        pooled(practice_react(g, e).1) == 0,
{
    let r = practice_react(g, e);
    if !g.over {
        match e {
            Event::TimedOut => {},
            Event::Reacted { reaction, by_player } => match reaction {
                Reaction::Other => {},
                Reaction::Stay => {
                    assert(moves_no_money(Seq::<ActionView>::empty()));
                    lemma_practice_settle_no_money(GameView { stay: true, ..g }, Seq::empty());
                },
                Reaction::Hit => {
                    let h = hit(g, "hit or stay (react)"@);
                    assert(moves_no_money(h.1));
                    if h.2 {
                        lemma_practice_settle_no_money(h.0, h.1);
                    }
                },
            },
        }
    }
    lemma_no_money(r.1);
}

/// The answer to the bet given to `^blackjack [bet]` by a user with `money`: the bet,
/// or the reply that refuses it.
pub open spec fn bet_check(text: Seq<char>, money: i32) -> Result<i32, Seq<char>> {
    match parsed_in_range(trimmed(text), true, i32::MIN as int, i32::MAX as int) {
        None => Err("Please enter an amount to bet as an argument."@),
        Some(b) => if b > money || b < 0 {
            Err("You can't bet more money than you have."@)
        } else {
            Ok(b as i32)
        },
    }
}

/// Reads the bet of `^blackjack [bet]`: a whole number, no more than the user has
/// and not negative.
pub fn check_bet(text: &str, money: i32) -> (r: Result<i32, String>)
    ensures
        match r {
            Ok(b) => bet_check(text@, money) == Ok::<i32, Seq<char>>(b),
            Err(m) => bet_check(text@, money) == Err::<i32, Seq<char>>(m@),
        },
{
    let t = trim(text);
    match parse_i32(t.as_str()) {
        None => Err("Please enter an amount to bet as an argument.".to_string()),
        Some(b) => if b > money || b < 0 {
            Err("You can't bet more money than you have.".to_string())
        } else {
            Ok(b)
        },
    }
}

/// The reply that opens a game for money: "**name** bet **bet** monies on blackjack."
pub fn bet_announcement(name: &str, bet: i32) -> (r: String)
    ensures
        r@ == "**"@ + name@ + "** bet **"@ + int_text(bet as int) + "** monies on blackjack."@,
{
    let mut r = "**".to_string();
    r.append(name);
    r.append("** bet **");
    push_i64(&mut r, bet as i64);
    r.append("** monies on blackjack.");
    r
}

} // verus!
