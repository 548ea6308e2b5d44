use cafebot::cards::{
    compare_hands, deck_gen, format_game_status, has_eleven, hand_total, soften_ace, test_win, testwin, Showdown,
};

#[test]
fn a_new_deck_holds_every_card_once() {
    let mut deck = deck_gen();
    assert_eq!(deck.len(), 52);
    deck.sort();
    let mut expected: Vec<usize> = Vec::new();
    for _ in 0..4 {
        for v in 2..12 {
            expected.push(v);
        }
        expected.push(10);
        expected.push(10);
        expected.push(10);
    }
    expected.sort();
    assert_eq!(deck, expected);
}

#[test]
fn a_new_deck_is_shuffled() {
    let mut in_order: Vec<usize> = Vec::new();
    for _ in 0..4 {
        for v in 2..12 {
            in_order.push(v);
        }
        in_order.push(10);
        in_order.push(10);
        in_order.push(10);
    }
    assert!((0..5).any(|_| deck_gen() != in_order));
}

#[test]
fn totals_and_aces() {
    assert_eq!(hand_total(&vec![10, 11]), 21);
    assert_eq!(hand_total(&vec![]), 0);
    assert!(has_eleven(&vec![3, 11]));
    assert!(!has_eleven(&vec![3, 1]));
    let mut h = vec![11, 5, 11];
    assert!(soften_ace(&mut h));
    assert_eq!(h, vec![1, 5, 11]);
    let mut h = vec![2, 3];
    assert!(!soften_ace(&mut h));
    assert_eq!(h, vec![2, 3]);
}

#[test]
fn the_game_status() {
    let s = format_game_status(None, &vec![10, 10], &vec![10, 7], false);
    assert_eq!(s, "Your hand: \n10  10  \nTotal: 20.\n\nOne of the dealer's cards: 10");
    // the dealer's first card is the one shown
    let s = format_game_status(None, &vec![10, 7], &vec![5, 9], false);
    assert_eq!(s, "Your hand: \n10  7  \nTotal: 17.\n\nOne of the dealer's cards: 5");
    let s = format_game_status(Some("Tie. \n"), &vec![10, 7], &vec![9, 8], true);
    assert_eq!(s, "Tie. \nYour hand: \n10  7  \nTotal: 17.\n\nDealer's hand: \n9  8  \nTotal: 17.");
}

#[test]
fn comparing_hands() {
    assert_eq!(compare_hands(&vec![10, 9], &vec![10, 8]), Showdown::Win);
    assert_eq!(compare_hands(&vec![10, 7], &vec![10, 8]), Showdown::Lose);
    assert_eq!(compare_hands(&vec![10, 8], &vec![9, 9]), Showdown::Tie);
    assert_eq!(test_win(&vec![10, 9], &vec![10, 8]), "win");
    assert_eq!(testwin(&vec![2], &vec![3]), "lose");
    assert_eq!(testwin(&vec![5], &vec![5]), "tie");
}
