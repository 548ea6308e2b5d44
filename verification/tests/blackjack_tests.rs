use cafebot::actions::Action;
use cafebot::blackjack::{bet_announcement, check_bet, reaction_of, Blackjack, Event, Reaction};

/// A full deck whose top cards (the last ones) are `top`, the first of them on top.
fn deck_with_top(top: &[usize]) -> Vec<usize> {
    let mut rest: Vec<usize> = Vec::new();
    for _ in 0..4 {
        for v in 2..12 {
            rest.push(v);
        }
        rest.push(10);
        rest.push(10);
        rest.push(10);
    }
    for c in top {
        let i = rest.iter().position(|x| x == c).unwrap();
        rest.remove(i);
    }
    for c in top.iter().rev() {
        rest.push(*c);
    }
    rest
}

fn money_moved(acts: &[Action]) -> (i64, i64, usize) {
    let mut credited = 0;
    let mut pooled = 0;
    let mut moves = 0;
    for a in acts {
        match a {
            Action::Credit(x) => {
                credited += *x;
                moves += 1;
            }
            Action::AddToPool(x) => {
                pooled += *x;
                moves += 1;
            }
            _ => {}
        }
    }
    (credited, pooled, moves)
}

fn stay() -> Event {
    Event::Reacted { reaction: Reaction::Stay, by_player: true }
}

fn hit() -> Event {
    Event::Reacted { reaction: Reaction::Hit, by_player: true }
}

#[test]
fn reactions() {
    assert_eq!(reaction_of("✋"), Reaction::Hit);
    assert_eq!(reaction_of("🛑"), Reaction::Stay);
    assert_eq!(reaction_of("👍"), Reaction::Other);
}

#[test]
fn the_deal_for_money() {
    let (g, acts) = Blackjack::start_with_deck(50, deck_with_top(&[10, 10, 10, 7]));
    assert_eq!(g.player_hand(), &vec![10, 10]);
    assert_eq!(g.dealer_hand(), &vec![10, 7]);
    assert!(!g.is_over());
    assert_eq!(acts.len(), 4);
    assert!(matches!(&acts[0], Action::Edit { title, description: None } if title == "Loading..."));
    assert!(matches!(acts[1], Action::React('✋')));
    assert!(matches!(acts[2], Action::React('🛑')));
    match &acts[3] {
        Action::Edit { title, description: Some(d) } => {
            assert_eq!(title, "Your hand: \n10  10  \nTotal: 20.\n\nOne of the dealer's cards: 10");
            assert_eq!(d, "Hit or stay? (React)");
        }
        _ => panic!("expected the status"),
    }
}

#[test]
fn a_pair_of_aces_counts_twelve() {
    let (g, _) = Blackjack::start_with_deck(5, deck_with_top(&[11, 11, 11, 11]));
    assert_eq!(g.player_hand(), &vec![1, 11]);
    assert_eq!(g.dealer_hand(), &vec![1, 11]);
}

#[test]
fn staying_on_a_higher_total_wins_twice_the_bet() {
    let (mut g, _) = Blackjack::start_with_deck(50, deck_with_top(&[10, 10, 10, 7]));
    let acts = g.money_react(stay());
    assert!(g.is_over());
    assert_eq!(money_moved(&acts), (100, 0, 1));
    assert!(matches!(acts.last(), Some(Action::Reply(r)) if r == "You won **50** monies."));
    assert!(acts.iter().any(|a| matches!(a, Action::Edit { title, .. } if title == "You won!")));
    // the game answers nothing more once it is over
    assert!(g.money_react(stay()).is_empty());
    assert!(g.money_react(Event::TimedOut).is_empty());
}

#[test]
fn staying_on_a_lower_total_loses_the_bet_to_the_pool() {
    let (mut g, _) = Blackjack::start_with_deck(30, deck_with_top(&[10, 7, 10, 8]));
    let acts = g.money_react(stay());
    assert!(g.is_over());
    assert_eq!(money_moved(&acts), (0, 30, 1));
    assert!(matches!(acts.last(), Some(Action::Reply(r)) if r == "You lost **30** monies."));
}

#[test]
fn a_tie_gives_the_bet_back() {
    let (mut g, _) = Blackjack::start_with_deck(40, deck_with_top(&[10, 8, 10, 8]));
    let acts = g.money_react(stay());
    assert!(g.is_over());
    assert_eq!(money_moved(&acts), (40, 0, 1));
}

#[test]
fn busting_loses_the_bet() {
    let (mut g, _) = Blackjack::start_with_deck(20, deck_with_top(&[10, 6, 10, 10, 10]));
    let acts = g.money_react(hit());
    assert!(g.is_over());
    assert_eq!(g.player_hand(), &vec![10, 6, 10]);
    assert_eq!(money_moved(&acts), (0, 20, 1));
    assert!(acts.iter().any(|a| matches!(a, Action::Edit { title, .. } if title == "Bust!")));
}

#[test]
fn hitting_below_twenty_one_goes_on() {
    let (mut g, _) = Blackjack::start_with_deck(20, deck_with_top(&[5, 6, 10, 10, 4]));
    let acts = g.money_react(hit());
    assert!(!g.is_over());
    assert_eq!(g.player_hand(), &vec![5, 6, 4]);
    assert_eq!(acts.len(), 1);
    assert_eq!(money_moved(&acts), (0, 0, 0));
}

#[test]
fn twenty_one_after_a_hit_is_a_blackjack_for_three_times_the_bet() {
    let (mut g, _) = Blackjack::start_with_deck(10, deck_with_top(&[10, 5, 10, 9, 6]));
    let acts = g.money_react(hit());
    assert!(g.is_over());
    assert_eq!(money_moved(&acts), (30, 0, 1));
}

#[test]
fn an_ace_counts_one_rather_than_bust() {
    let (mut g, _) = Blackjack::start_with_deck(10, deck_with_top(&[11, 5, 10, 9, 9]));
    let acts = g.money_react(hit());
    assert!(!g.is_over());
    assert_eq!(g.player_hand(), &vec![1, 5, 9]);
    assert_eq!(money_moved(&acts), (0, 0, 0));
}

#[test]
fn a_timeout_loses_the_bet() {
    let (mut g, _) = Blackjack::start_with_deck(15, deck_with_top(&[10, 6, 10, 10]));
    let acts = g.money_react(Event::TimedOut);
    assert!(g.is_over());
    assert_eq!(money_moved(&acts), (0, 15, 1));
    assert!(matches!(&acts[1], Action::Edit { title, description: Some(d) }
        if title == "Timed out." && d == "One minute passed with no reactions, so the game ended with no results. As a result, you lost your bet, which was **15** monies."));
}

#[test]
fn other_people_and_other_emojis_change_nothing() {
    let (mut g, _) = Blackjack::start_with_deck(15, deck_with_top(&[10, 6, 10, 10]));
    assert!(g.money_react(Event::Reacted { reaction: Reaction::Stay, by_player: false }).is_empty());
    assert!(g.money_react(Event::Reacted { reaction: Reaction::Other, by_player: true }).is_empty());
    assert!(!g.is_over());
    assert_eq!(g.player_hand(), &vec![10, 6]);
}

#[test]
fn the_dealer_draws_under_seventeen() {
    let (mut g, _) = Blackjack::start_with_deck(10, deck_with_top(&[10, 9, 10, 5, 4]));
    let acts = g.money_react(stay());
    assert!(g.is_over());
    assert_eq!(g.dealer_hand(), &vec![10, 5, 4]);
    // 19 against 19
    assert_eq!(money_moved(&acts), (10, 0, 1));
}

#[test]
fn whatever_happens_the_bet_is_settled_once() {
    for _ in 0..50 {
        let (mut g, _) = Blackjack::start(25);
        let mut all: Vec<Action> = Vec::new();
        let mut n = 0;
        while !g.is_over() && n < 30 {
            let e = if n % 3 == 2 { stay() } else { hit() };
            all.extend(g.money_react(e));
            n += 1;
        }
        assert!(g.is_over());
        let (credited, pooled, moves) = money_moved(&all);
        assert_eq!(moves, 1);
        assert!(credited == 0 || credited == 25 || credited == 50 || credited == 75);
        assert!(pooled == 0 || pooled == 25);
    }
}

#[test]
fn the_practice_table() {
    let (mut g, acts) = Blackjack::practice_with_deck(deck_with_top(&[10, 10, 10, 7]));
    assert_eq!(acts.len(), 3);
    assert!(matches!(&acts[0], Action::Edit { description: Some(d), .. } if d == "react to this!"));
    // anyone's reaction counts, and a timeout changes nothing
    assert!(g.practice_react(Event::TimedOut).is_empty());
    let acts = g.practice_react(Event::Reacted { reaction: Reaction::Stay, by_player: false });
    assert!(g.is_over());
    assert_eq!(money_moved(&acts), (0, 0, 0));
    assert!(acts.iter().any(|a| matches!(a, Action::Edit { title, .. } if title == "You won!")));
    let (g2, _) = Blackjack::practice();
    assert!(!g2.is_over());
}

#[test]
fn bets() {
    assert_eq!(check_bet("20", 100), Ok(20));
    assert_eq!(check_bet(" 20 ", 100), Ok(20));
    assert_eq!(check_bet("100", 100), Ok(100));
    assert_eq!(check_bet("200", 100), Err("You can't bet more money than you have.".to_string()));
    assert_eq!(check_bet("-5", 100), Err("You can't bet more money than you have.".to_string()));
    assert_eq!(check_bet("abc", 100), Err("Please enter an amount to bet as an argument.".to_string()));
    assert_eq!(check_bet("", 100), Err("Please enter an amount to bet as an argument.".to_string()));
    assert_eq!(bet_announcement("joe", 20), "**joe** bet **20** monies on blackjack.");
}
