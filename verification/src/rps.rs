//! Rock, paper, scissors against the bot, for fun or for money.

use vstd::prelude::*;
use crate::text::{push_i64, int_text, parse_i32, parsed_in_range, opt_text};
use crate::random::random_u32;

verus! {

/// A move of rock, paper, scissors.
#[derive(Clone, Copy, PartialEq, Eq, Debug, Structural)]
pub enum Move {
    Rock,
    Paper,
    Scissors,
}

/// How a round ends for the user.
#[derive(Clone, Copy, PartialEq, Eq, Debug, Structural)]
pub enum RoundResult {
    Win,
    Lose,
    Tie,
}

/// The bot's move for a turn number: 1 is rock, 2 paper, 3 scissors.
pub open spec fn turn_move(turn: u32) -> Move {
    if turn == 1 { Move::Rock } else if turn == 2 { Move::Paper } else { Move::Scissors }
}

/// Which move beats which.
pub open spec fn beats(a: Move, b: Move) -> bool {
    ||| a == Move::Rock && b == Move::Scissors
    ||| a == Move::Paper && b == Move::Rock
    ||| a == Move::Scissors && b == Move::Paper
}

/// The result of the user's move against the bot's.
pub open spec fn round_result(user: Move, bot: Move) -> RoundResult {
    if beats(user, bot) { RoundResult::Win }
    else if beats(bot, user) { RoundResult::Lose }
    else { RoundResult::Tie }
}

/// The name of a move.
pub open spec fn move_name(m: Move) -> Seq<char> {
    match m {
        Move::Rock => "rock"@,
        Move::Paper => "paper"@,
        Move::Scissors => "scissors"@,
    }
}

/// The move that a word names, if any: exactly "rock", "paper" or "scissors".
pub open spec fn named_move(s: Seq<char>) -> Option<Move> {
    if s == "rock"@ { Some(Move::Rock) }
    else if s == "paper"@ { Some(Move::Paper) }
    else if s == "scissors"@ { Some(Move::Scissors) }
    else { None }
}

/// The bot's move for a turn number from 1 to 3.
pub fn move_of_turn(turn: u32) -> (m: Move)
    requires
        1 <= turn <= 3,
    ensures
        m == turn_move(turn),
{
    if turn == 1 { Move::Rock } else if turn == 2 { Move::Paper } else { Move::Scissors }
}

/// The name of a move.
pub fn name_of(m: Move) -> (s: &'static str)
    ensures
        s@ == move_name(m),
{
    match m {
        Move::Rock => "rock",
        Move::Paper => "paper",
        Move::Scissors => "scissors",
    }
}

/// Reads a move from the word the user gave.
pub fn parse_move(s: &str) -> (m: Option<Move>)
    ensures
        m == named_move(s@),
{
    let t = s.to_string();
    if t == "rock".to_string() {
        Some(Move::Rock)
    } else if t == "paper".to_string() {
        Some(Move::Paper)
    } else if t == "scissors".to_string() {
        Some(Move::Scissors)
    } else {
        None
    }
}

/// Judges a round.
pub fn judge(user: Move, bot: Move) -> (r: RoundResult)
    ensures
        r == round_result(user, bot),
{
    match (user, bot) {
        (Move::Rock, Move::Scissors) => RoundResult::Win,
        (Move::Paper, Move::Rock) => RoundResult::Win,
        (Move::Scissors, Move::Paper) => RoundResult::Win,
        (Move::Rock, Move::Paper) => RoundResult::Lose,
        (Move::Paper, Move::Scissors) => RoundResult::Lose,
        (Move::Scissors, Move::Rock) => RoundResult::Lose,
        _ => RoundResult::Tie,
    }
}

/// The rules are fair: swapping the two players swaps winning and losing, and a
/// move against itself is a tie.
pub proof fn lemma_round_result_symmetric(a: Move, b: Move)
    ensures
        round_result(a, b) == RoundResult::Win <==> round_result(b, a) == RoundResult::Lose,
        round_result(a, b) == RoundResult::Tie <==> round_result(b, a) == RoundResult::Tie,
        round_result(a, a) == RoundResult::Tie,
{
}

/// Every move is beaten by exactly one move and beats exactly one move.
pub proof fn lemma_each_move_beaten_once(a: Move)
    ensures
        exists|b: Move| beats(b, a),
        forall|b: Move, c: Move| beats(b, a) && beats(c, a) ==> b == c,
        exists|b: Move| beats(a, b),
        forall|b: Move, c: Move| beats(a, b) && beats(a, c) ==> b == c,
{
    match a {
        Move::Rock => {
            assert(beats(Move::Paper, a));
            assert(beats(a, Move::Scissors));
        },
        Move::Paper => {
            assert(beats(Move::Scissors, a));
            assert(beats(a, Move::Rock));
        },
        Move::Scissors => {
            assert(beats(Move::Rock, a));
            assert(beats(a, Move::Paper));
        },
    }
}

/// The reply to a move in the game without a bet.
pub open spec fn fun_reply(user: Seq<char>, turn: u32) -> Seq<char> {
    let picked = "I picked "@ + move_name(turn_move(turn));
    match named_move(user) {
        Some(m) => match round_result(m, turn_move(turn)) {
            RoundResult::Win => picked + " - you win!"@,
            RoundResult::Lose => picked + " - you lose!"@,
            RoundResult::Tie => picked + " - tie!"@,
        },
        None => "Please enter rock, paper, or scissors"@,
    }
}

/// The reply of `^rps [move]` without a bet, for the bot's turn number (1 to 3).
pub fn rps_reply(user_move: &str, turn: u32) -> (r: String)
    requires
        1 <= turn <= 3,
    ensures
        r@ == fun_reply(user_move@, turn),
{
    let bot = move_of_turn(turn);
    match parse_move(user_move) {
        Some(m) => {
            let mut r = "I picked ".to_string();
            r.append(name_of(bot));
            match judge(m, bot) {
                RoundResult::Win => r.append(" - you win!"),
                RoundResult::Lose => r.append(" - you lose!"),
                RoundResult::Tie => r.append(" - tie!"),
            }
            r
        },
        None => "Please enter rock, paper, or scissors".to_string(),
    }
}

/// `^rps [move]` without a bet: the bot draws its move at random.
pub fn rockpaperscissors(user_move: &str) -> (r: String)
    ensures
        exists|turn: u32| 1 <= turn <= 3 && r@ == #[trigger] fun_reply(user_move@, turn),
{
    let turn = random_u32(1, 4);
    rps_reply(user_move, turn)
}

/// The text of a tie in the game for money.
pub fn tie(comp_move: &str) -> (r: String)
    ensures
        r@ == "I picked "@ + comp_move@ + " - tie!"@,
{
    let mut r = "I picked ".to_string();
    r.append(comp_move);
    r.append(" - tie!");
    r
}

/// The text of a win in the game for money.
pub fn win(comp_move: &str, to_increment: i32) -> (r: String)
    ensures
        r@ == "I picked "@ + comp_move@ + " - you win! You got **"@ + int_text(to_increment as int)
            + "** monies."@,
{
    let mut r = "I picked ".to_string();
    r.append(comp_move);
    r.append(" - you win! You got **");
    push_i64(&mut r, to_increment as i64);
    r.append("** monies.");
    r
}

/// The text of a loss in the game for money.
pub fn lose(comp_move: &str, to_subtract: i32) -> (r: String)
    ensures
        r@ == "I picked "@ + comp_move@ + " - you lose! You lost **"@ + int_text(to_subtract as int)
            + "** monies."@,
{
    let mut r = "I picked ".to_string();
    r.append(comp_move);
    r.append(" - you lose! You lost **");
    push_i64(&mut r, to_subtract as i64);
    r.append("** monies.");
    r
}

/// What a round for money does: the reply, and the amount to add to the user's
/// wallet (negative for a loss, which also goes to the server's pool; 0 for none).
pub struct BetRound {
    pub reply: String,
    pub increment: i32,
}

pub open spec fn bet_syntax() -> Seq<char> {
    "Please enter in this syntax: `^rps [move] [bet]`"@
}

/// The reply and wallet change of `^rps [move] [bet]`, for the bot's turn number.
/// `user_move` and `bet` are the first two words after the command, if there are any.
pub open spec fn bet_round(user_move: Option<Seq<char>>, bet: Option<Seq<char>>, money: i32, turn: u32)
    -> (Seq<char>, int)
{
    let bot = turn_move(turn);
    match user_move {
        None => (bet_syntax(), 0),
        Some(um) => match bet {
            None => (bet_syntax(), 0),
            Some(bt) => match parsed_in_range(bt, true, i32::MIN as int, i32::MAX as int) {
                None => (bet_syntax(), 0),
                Some(b) => if b > money || b < 0 {
                    ("You can't bet more money than you have."@, 0)
                } else {
                    match named_move(um) {
                        None => (bet_syntax(), 0),
                        Some(m) => match round_result(m, bot) {
                            RoundResult::Win => ("I picked "@ + move_name(bot) + " - you win! You got **"@
                                + int_text(b) + "** monies."@, b),
                            RoundResult::Lose => ("I picked "@ + move_name(bot) + " - you lose! You lost **"@
                                + int_text(b) + "** monies."@, -b),
                            RoundResult::Tie => ("I picked "@ + move_name(bot) + " - tie!"@, 0),
                        },
                    }
                },
            },
        },
    }
}

/// Plays `^rps [move] [bet]` for a user with `money` in the wallet, for the bot's
/// turn number (1 to 3).
pub fn bet_round_for_turn(user_move: Option<&str>, bet: Option<&str>, money: i32, turn: u32) -> (r: BetRound)
    requires
        1 <= turn <= 3,
    ensures
        (r.reply@, r.increment as int) == bet_round(opt_text(user_move), opt_text(bet), money, turn),
{
    let bot = move_of_turn(turn);
    let um = match user_move {
        Some(s) => s,
        None => return BetRound { reply: "Please enter in this syntax: `^rps [move] [bet]`".to_string(), increment: 0 },
    };
    let bt = match bet {
        Some(s) => s,
        None => return BetRound { reply: "Please enter in this syntax: `^rps [move] [bet]`".to_string(), increment: 0 },
    };
    let b = match parse_i32(bt) {
        Some(b) => b,
        None => return BetRound { reply: "Please enter in this syntax: `^rps [move] [bet]`".to_string(), increment: 0 },
    };
    if b > money || b < 0 {
        return BetRound { reply: "You can't bet more money than you have.".to_string(), increment: 0 };
    }
    match parse_move(um) {
        None => BetRound { reply: "Please enter in this syntax: `^rps [move] [bet]`".to_string(), increment: 0 },
        Some(m) => match judge(m, bot) {
            RoundResult::Win => BetRound { reply: win(name_of(bot), b), increment: b },
            RoundResult::Lose => BetRound { reply: lose(name_of(bot), b), increment: -b },
            RoundResult::Tie => BetRound { reply: tie(name_of(bot)), increment: 0 },
        },
    }
}

/// `^rps [move] [bet]`: the bot draws its move at random.
pub fn bet_round_random(user_move: Option<&str>, bet: Option<&str>, money: i32) -> (r: BetRound)
    ensures
        exists|turn: u32|
            1 <= turn <= 3 && (r.reply@, r.increment as int) == #[trigger] bet_round(
                opt_text(user_move),
                opt_text(bet),
                money,
                turn,
            ),
{
    let turn = random_u32(1, 4);
    bet_round_for_turn(user_move, bet, money, turn)
}

/// The turns of the bot that win, lose and tie against a move.
pub open spec fn turns_against(m: Move) -> (u32, u32, u32) {
    if m == Move::Rock { (3, 2, 1) } else if m == Move::Paper { (1, 3, 2) } else { (2, 1, 3) }
}

/// Every outcome of a round is one turn of the bot away: for a known move and a
/// bet from 0 to the user's money, the bot's three turns give a win (the bet
/// gained), a loss (the bet lost) and a tie (nothing), one each.
pub proof fn lemma_each_outcome_has_a_turn(um: Seq<char>, bt: Seq<char>, money: i32)
    requires
        named_move(um) is Some,
        parsed_in_range(bt, true, i32::MIN as int, i32::MAX as int) matches Some(b) && 0 <= b <= money,
    ensures
        ({
            let b = parsed_in_range(bt, true, i32::MIN as int, i32::MAX as int)->Some_0;
            let (w, l, t) = turns_against(named_move(um)->Some_0);
            &&& bet_round(Some(um), Some(bt), money, w) == ("I picked "@ + move_name(turn_move(w))
                + " - you win! You got **"@ + int_text(b) + "** monies."@, b)
            &&& bet_round(Some(um), Some(bt), money, l) == ("I picked "@ + move_name(turn_move(l))
                + " - you lose! You lost **"@ + int_text(b) + "** monies."@, -b)
            &&& bet_round(Some(um), Some(bt), money, t) == ("I picked "@ + move_name(turn_move(t)) + " - tie!"@, 0int)
            &&& 1 <= w <= 3 && 1 <= l <= 3 && 1 <= t <= 3 && w != l && l != t && w != t
        }),
{
}

} // verus!
