use cafebot::actions::Action;
use cafebot::tictactoe::{
    computer_diff_gen, computer_move, computer_turn, format_board, go_middle, go_two_os, go_two_xs, print_tile,
    tictactoe_args, tile_of_reaction, win_check, Event, TicTacToe, Tile,
};

use Tile::{E, O, X};

#[test]
fn the_win_check() {
    assert_eq!(win_check(&[X, X, X, E, O, O, E, E, E]), 1);
    assert_eq!(win_check(&[O, X, X, E, O, X, E, E, O]), 1);
    assert_eq!(win_check(&[X, O, X, X, O, O, O, X, X]), 2);
    assert_eq!(win_check(&[E; 9]), 0);
    assert_eq!(win_check(&[X, O, E, E, E, E, E, E, E]), 0);
}

#[test]
fn showing_the_board() {
    assert_eq!(print_tile(X), 'X');
    assert_eq!(print_tile(O), 'O');
    assert_eq!(print_tile(E), '-');
    assert_eq!(
        format_board(&[X, E, O, E, E, E, E, E, X]),
        "```X | - | O\n- | - | -\n- | - | X```\n\n`Key:\n1 | 2 | 3\n4 | 5 | 6\n7 | 8 | 9`"
    );
}

#[test]
fn the_bot_wins_first_then_blocks() {
    // O can win at 2; X threatens at 8.
    let b = [O, O, E, E, X, E, E, X, E];
    assert_eq!(go_two_os(&b), (2, true));
    assert_eq!(computer_move(&b, true), (2, true));
    // no O line to finish: block X at 6
    let b = [X, O, E, X, E, E, E, E, O];
    assert_eq!(go_two_os(&b).1, false);
    assert_eq!(go_two_xs(&b), (6, true));
    assert_eq!(computer_move(&b, true), (6, true));
    // otherwise the middle
    let b = [X, E, E, E, E, E, E, E, E];
    assert_eq!(go_middle(&b), (4, true));
    assert_eq!(computer_move(&b, true), (4, true));
    // at full difficulty the bot always plays well
    let b = [O, O, E, E, X, E, E, X, E];
    assert_eq!(computer_turn(&b, 100), (2, true));
    assert!(computer_diff_gen(100));
}

#[test]
fn a_bot_that_plays_badly_takes_an_empty_tile() {
    let b = [X, O, X, O, X, O, E, X, O];
    for _ in 0..20 {
        assert_eq!(computer_move(&b, false), (6, true));
    }
    let full = [X, O, X, O, X, O, O, X, O];
    assert_eq!(computer_move(&full, false), (0, false));
    assert_eq!(computer_move(&full, true), (0, false));
}

#[test]
fn moves_land_on_empty_tiles() {
    let b = [X, E, E, E, O, E, E, E, X];
    for diff in [1, 50, 100] {
        for _ in 0..30 {
            let (t, moved) = computer_turn(&b, diff);
            assert!(moved);
            assert!(t < 9);
            assert_eq!(b[t], E);
        }
    }
}

#[test]
fn reactions_and_arguments() {
    assert_eq!(tile_of_reaction("🎫"), Some(0));
    assert_eq!(tile_of_reaction("📈"), Some(1));
    assert_eq!(tile_of_reaction("🛑"), Some(2));
    assert_eq!(tile_of_reaction("x"), None);
    assert_eq!(tictactoe_args(Some("50")), Ok(50));
    assert_eq!(tictactoe_args(None), Err("Please [correct arguments]".to_string()));
    assert_eq!(tictactoe_args(Some("ten")), Err("Please [correct arguments]".to_string()));
}

#[test]
fn a_game_the_player_wins() {
    let (mut g, acts) = TicTacToe::new(100);
    assert!(matches!(&acts[0], Action::Edit { description: Some(d), .. } if d == "What is your first move?"));
    assert!(!g.bot_to_move());
    assert_eq!(g.bot_difficulty(), 100);
    let acts = g.play(Event::Reacted { tile: Some(0), by_player: true }, 3);
    assert!(matches!(acts[0], Action::Pause(1000)));
    assert!(g.bot_to_move());
    // the bot's reply is handed in
    let acts = g.bot_plays((4, true), 4);
    assert!(!g.bot_to_move());
    assert!(matches!(&acts[0], Action::Edit { title, .. } if title == "playing"));
    g.play(Event::Reacted { tile: Some(1), by_player: true }, 5);
    g.bot_plays((5, true), 6);
    let acts = g.play(Event::Reacted { tile: Some(2), by_player: true }, 7);
    assert!(g.is_over());
    assert!(matches!(&acts[0], Action::Edit { title, description: Some(d) }
        if title == "You win!" && d == "Difficulty was: 100, so you won WIP monies.\nTime: 7 seconds"));
    // a finished game answers nothing
    assert!(g.play(Event::Reacted { tile: Some(3), by_player: true }, 8).is_empty());
}

#[test]
fn marks_stay_where_they_are() {
    let (mut g, _) = TicTacToe::new(1);
    g.play(Event::Reacted { tile: Some(4), by_player: true }, 1);
    g.bot_plays((0, true), 1);
    let acts = g.play(Event::Reacted { tile: Some(0), by_player: true }, 2);
    assert_eq!(g.board()[0], O);
    assert_eq!(g.board()[4], X);
    assert!(matches!(&acts[0], Action::Log(l) if l == "someone has already gone there!"));
    assert!(!g.bot_to_move());
    // other people's reactions are ignored
    assert!(g.play(Event::Reacted { tile: Some(8), by_player: false }, 2).is_empty());
    assert_eq!(g.board()[8], E);
}

#[test]
fn the_bot_can_win() {
    let (mut g, _) = TicTacToe::new(100);
    g.play(Event::Reacted { tile: Some(0), by_player: true }, 1);
    g.bot_plays((4, true), 1);
    g.play(Event::Reacted { tile: Some(1), by_player: true }, 1);
    g.bot_plays((2, true), 1);
    g.play(Event::Reacted { tile: Some(8), by_player: true }, 1);
    let acts = g.bot_plays((6, true), 9);
    assert!(g.is_over());
    assert!(matches!(&acts[1], Action::Edit { title, .. } if title == "You lose!"));
}

#[test]
fn a_timeout_ends_the_game() {
    let (mut g, _) = TicTacToe::new(3);
    let acts = g.play(Event::TimedOut, 120);
    assert!(g.is_over());
    assert!(matches!(&acts[0], Action::Edit { title, .. } if title == "Timed out."));
}

#[test]
fn an_empty_board_always_gets_a_move() {
    let b = [E; 9];
    for diff in [0, 1, 50, 99, 100] {
        for _ in 0..40 {
            let (t, moved) = computer_turn(&b, diff);
            assert!(moved);
            assert!(t < 9);
        }
    }
    for _ in 0..40 {
        assert!(computer_move(&b, false).1);
    }
}

#[test]
fn a_taken_middle_is_answered_with_a_corner() {
    let b = [E, E, E, E, X, E, E, E, E];
    for _ in 0..40 {
        let (t, moved) = computer_move(&b, true);
        assert!(moved);
        assert!([0, 2, 6, 8].contains(&t));
        let (t, moved) = computer_turn(&b, 100);
        assert!(moved);
        assert!([0, 2, 6, 8].contains(&t));
    }
}

#[test]
fn x_on_opposite_corners_is_answered_with_an_edge() {
    // X on two opposite corners and O in the middle: neither side can win at once,
    // so the bot takes an edge
    let b = [X, E, E, E, O, E, E, E, X];
    for _ in 0..40 {
        let (t, moved) = computer_move(&b, true);
        assert!(moved);
        assert!([1, 3, 5, 7].contains(&t));
    }
}
