use cafebot::rps::{
    bet_round_for_turn, bet_round_random, judge, lose, move_of_turn, name_of, parse_move, rockpaperscissors,
    rps_reply, tie, win, Move, RoundResult,
};

#[test]
fn tie_names_the_bot_move() {
    assert_eq!(tie("rock"), "I picked rock - tie!");
}

#[test]
fn win_and_lose_texts() {
    assert_eq!(win("paper", 25), "I picked paper - you win! You got **25** monies.");
    assert_eq!(lose("scissors", 7), "I picked scissors - you lose! You lost **7** monies.");
}

#[test]
fn moves_of_turns_and_names() {
    assert_eq!(move_of_turn(1), Move::Rock);
    assert_eq!(move_of_turn(2), Move::Paper);
    assert_eq!(move_of_turn(3), Move::Scissors);
    assert_eq!(name_of(Move::Scissors), "scissors");
    assert_eq!(parse_move("paper"), Some(Move::Paper));
    assert_eq!(parse_move("Paper"), None);
    assert_eq!(parse_move(""), None);
}

#[test]
fn every_pair_of_moves_is_judged_symmetrically() {
    let all = [Move::Rock, Move::Paper, Move::Scissors];
    for a in all {
        for b in all {
            let ab = judge(a, b);
            let ba = judge(b, a);
            match ab {
                RoundResult::Win => assert_eq!(ba, RoundResult::Lose),
                RoundResult::Lose => assert_eq!(ba, RoundResult::Win),
                RoundResult::Tie => {
                    assert_eq!(ba, RoundResult::Tie);
                    assert_eq!(a, b);
                }
            }
        }
    }
    assert_eq!(judge(Move::Rock, Move::Scissors), RoundResult::Win);
    assert_eq!(judge(Move::Rock, Move::Paper), RoundResult::Lose);
}

#[test]
fn each_move_is_beaten_by_exactly_one() {
    let all = [Move::Rock, Move::Paper, Move::Scissors];
    for a in all {
        let beaten_by = all.iter().filter(|b| judge(**b, a) == RoundResult::Win).count();
        assert_eq!(beaten_by, 1);
    }
}

#[test]
fn fun_replies_for_each_turn() {
    assert_eq!(rps_reply("rock", 1), "I picked rock - tie!");
    assert_eq!(rps_reply("rock", 2), "I picked paper - you lose!");
    assert_eq!(rps_reply("rock", 3), "I picked scissors - you win!");
    assert_eq!(rps_reply("lizard", 3), "Please enter rock, paper, or scissors");
}

#[test]
fn random_fun_reply_is_one_of_three() {
    let r = rockpaperscissors("paper");
    assert!(r == "I picked rock - you win!" || r == "I picked paper - tie!" || r == "I picked scissors - you lose!");
}

#[test]
fn bet_rounds() {
    let r = bet_round_for_turn(Some("rock"), Some("50"), 100, 3);
    assert_eq!(r.reply, "I picked scissors - you win! You got **50** monies.");
    assert_eq!(r.increment, 50);
    let r = bet_round_for_turn(Some("rock"), Some("50"), 100, 2);
    assert_eq!(r.reply, "I picked paper - you lose! You lost **50** monies.");
    assert_eq!(r.increment, -50);
    let r = bet_round_for_turn(Some("rock"), Some("50"), 100, 1);
    assert_eq!(r.reply, "I picked rock - tie!");
    assert_eq!(r.increment, 0);
}

#[test]
fn bet_round_errors() {
    let syntax = "Please enter in this syntax: `^rps [move] [bet]`";
    assert_eq!(bet_round_for_turn(None, None, 100, 1).reply, syntax);
    assert_eq!(bet_round_for_turn(Some("rock"), None, 100, 1).reply, syntax);
    assert_eq!(bet_round_for_turn(Some("rock"), Some("lots"), 100, 1).reply, syntax);
    assert_eq!(bet_round_for_turn(Some("rock"), Some("101"), 100, 1).reply, "You can't bet more money than you have.");
    assert_eq!(bet_round_for_turn(Some("rock"), Some("-1"), 100, 1).reply, "You can't bet more money than you have.");
    let r = bet_round_for_turn(Some("spock"), Some("10"), 100, 1);
    assert_eq!(r.reply, syntax);
    assert_eq!(r.increment, 0);
}

#[test]
fn random_bet_round_moves_the_bet_or_nothing() {
    let r = bet_round_random(Some("scissors"), Some("30"), 30);
    assert!(r.increment == 30 || r.increment == -30 || r.increment == 0);
}
