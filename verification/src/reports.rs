//! What the bot tells of its records: wallets, pools, server statistics, profiles and
//! leaderboards.

use vstd::prelude::*;
use crate::actions::EditContent;
use crate::economy::{ScratchOff, mention, push_mention};
use crate::custom::same_text;
use crate::text::{push_u64, push_i64, dec, int_text};

verus! {

/// `^wallet`: the user's money and lottery tickets.
pub fn wallet_reply(money: i64, tickets: i64) -> (r: String)
    ensures
        r@ == "You have **"@ + int_text(money as int) + "** monies and **"@ + int_text(tickets as int) + "** tickets."@,
{
    let mut r = "You have **".to_string();
    push_i64(&mut r, money);
    r.append("** monies and **");
    push_i64(&mut r, tickets);
    r.append("** tickets.");
    r
}

/// `^pool`: the pool of the server.
pub fn pool_reply(server: &str, pool: i64) -> (r: String)
    ensures
        r@ == "Your server, **"@ + server@ + "**, has a pool of **"@ + int_text(pool as int) + "** monies."@,
{
    let mut r = "Your server, **".to_string();
    r.append(server);
    r.append("**, has a pool of **");
    push_i64(&mut r, pool);
    r.append("** monies.");
    r
}

/// The money lost on a server, as the short statistics tell it.
pub fn lost_reply(server: &str, lost: i64) -> (r: String)
    ensures
        r@ == "Your server, **"@ + server@ + "**, has lost a total of of **"@ + int_text(lost as int) + "** monies."@,
{
    let mut r = "Your server, **".to_string();
    r.append(server);
    r.append("**, has lost a total of of **");
    push_i64(&mut r, lost);
    r.append("** monies.");
    r
}

/// The figures of `^stats`.
#[derive(Clone, Copy, PartialEq, Eq, Debug, Structural)]
pub struct Stats {
    /// Money lost on every server together.
    pub all_lost: i64,
    /// Money lost on this server.
    pub server_lost: i64,
    /// The money of every user together.
    pub wealth: i64,
    /// Games of blackjack played.
    pub blackjacks: u64,
    /// Coins flipped.
    pub coin_flips: u64,
}

pub open spec fn stats_text(s: Stats) -> Seq<char> {
    "**Money Stats**\n    Total monies lost: **"@ + int_text(s.all_lost as int)
        + "**\n    Total monies lost on this server: **"@ + int_text(s.server_lost as int)
        + "**\n    Collective wealth of all users: **"@ + int_text(s.wealth as int)
        + "**\n\n    **Gambling Stats (all since May 17th, 2021)**\n    Games of blackjack played: **"@
        + dec(s.blackjacks as nat) + "**\n    Total coins flipped: **"@ + dec(s.coin_flips as nat) + "**"@
}

/// `^stats`: the server's name in the title, the figures below.
pub fn stats_content(server: &str, s: Stats) -> (r: EditContent)
    ensures
        r.title@ == "Stats for "@ + server@,
        r.description@ == stats_text(s),
{
    let mut title = "Stats for ".to_string();
    title.append(server);
    let mut d = "**Money Stats**\n    Total monies lost: **".to_string();
    push_i64(&mut d, s.all_lost);
    d.append("**\n    Total monies lost on this server: **");
    push_i64(&mut d, s.server_lost);
    d.append("**\n    Collective wealth of all users: **");
    push_i64(&mut d, s.wealth);
    d.append("**\n\n    **Gambling Stats (all since May 17th, 2021)**\n    Games of blackjack played: **");
    push_u64(&mut d, s.blackjacks);
    d.append("**\n    Total coins flipped: **");
    push_u64(&mut d, s.coin_flips);
    d.append("**");
    EditContent { title, description: d }
}

/// Whose profile `^profile` shows.
pub enum ProfileTarget {
    /// The author's own.
    Author,
    /// The one user mentioned.
    Mentioned,
    /// Nobody: the reply says how to ask.
    Refused(String),
}

/// `^profile [user]`: the author's profile without a mention, the profile of the one
/// user mentioned, and no profile for more mentions.
pub fn profile_target(mentions: usize) -> (r: ProfileTarget)
    ensures
        mentions == 0 ==> r is Author,
        mentions == 1 ==> r is Mentioned,
        mentions > 1 ==> (r matches ProfileTarget::Refused(m) && m@
            == "Please enter either one user that you want to see the profile of, or enter no user to see your own profile."@),
{
    if mentions == 0 {
        ProfileTarget::Author
    } else if mentions == 1 {
        ProfileTarget::Mentioned
    } else {
        ProfileTarget::Refused(
            "Please enter either one user that you want to see the profile of, or enter no user to see your own profile.".to_string(),
        )
    }
}

/// The title of a profile: the user's name, and their nickname on the server in
/// quotes on a line of its own when they have one.
pub fn profile_title(name: &str, nick: Option<&str>) -> (r: String)
    ensures
        match nick {
            Some(n) => r@ == name@ + "\n\""@ + n@ + "\""@,
            None => r@ == name@,
        },
{
    let mut r = name.to_string();
    match nick {
        Some(n) => {
            r.append("\n\"");
            r.append(n);
            r.append("\"");
        },
        None => {},
    }
    r
}

/// The address of the user's picture, asked for in a small size.
pub fn profile_picture(face: &str) -> (r: String)
    ensures
        r@ == face@ + "?size=16"@,
{
    let mut r = face.to_string();
    r.append("?size=16");
    r
}

pub open spec fn profile_text(money: i64, incr: i64, streak: Option<u32>, so: ScratchOff) -> Seq<char> {
    "Monies: **"@ + int_text(money as int) + "**\n        Idle increase: **"@ + int_text(incr as int)
        + "**\n        Daily streak: **"@ + dec(match streak { Some(s) => s as nat, None => 0 })
        + "**\n        Tier 1 Scratch-Offs: **"@ + dec(so.tier1 as nat) + "**\n        Tier 2 Scratch-Offs: **"@
        + dec(so.tier2 as nat) + "**\n        Tier 3 Scratch-Offs: **"@ + dec(so.tier3 as nat) + "**"@
}

/// The text of a profile: money, hourly increase, daily streak (0 for one who never
/// claimed a daily reward) and scratch-off tickets.
pub fn profile_description(money: i64, incr: i64, streak: Option<u32>, so: ScratchOff) -> (r: String)
    ensures
        r@ == profile_text(money, incr, streak, so),
{
    let days: u32 = match streak {
        Some(s) => s,
        None => 0,
    };
    let mut r = "Monies: **".to_string();
    push_i64(&mut r, money);
    r.append("**\n        Idle increase: **");
    push_i64(&mut r, incr);
    r.append("**\n        Daily streak: **");
    push_u64(&mut r, days as u64);
    r.append("**\n        Tier 1 Scratch-Offs: **");
    push_u64(&mut r, so.tier1 as u64);
    r.append("**\n        Tier 2 Scratch-Offs: **");
    push_u64(&mut r, so.tier2 as u64);
    r.append("**\n        Tier 3 Scratch-Offs: **");
    push_u64(&mut r, so.tier3 as u64);
    r.append("**");
    r
}

/// The leaderboards there are.
#[derive(Clone, Copy, PartialEq, Eq, Debug, Structural)]
pub enum Board {
    /// Users by money, the richest first.
    Money,
    /// Users by daily streak, the longest first.
    Daily,
}

/// The answer to `^leaderboard` without a board there is.
pub open spec fn board_syntax() -> Seq<char> {
    "Please enter in this syntax: `^leaderboard [choice]`. The available leaderboards are `money` and `daily`."@
}

/// What `^leaderboard` is asked for.
pub enum BoardPick {
    /// No choice, or one with no leaderboard: the reply gives the syntax and the
    /// leaderboards there are.
    Syntax(String),
    /// A leaderboard there is.
    Show(Board),
}

/// `^leaderboard [choice]`: `money` and `daily` are the leaderboards; without one of
/// them the reply names them.
pub fn board_pick(choice: Option<&str>) -> (r: BoardPick)
    ensures
        match choice {
            Some(c) => if c@ == "money"@ {
                r matches BoardPick::Show(b) && b == Board::Money
            } else if c@ == "daily"@ {
                r matches BoardPick::Show(b) && b == Board::Daily
            } else {
                r matches BoardPick::Syntax(m) && m@ == board_syntax()
            },
            None => r matches BoardPick::Syntax(m) && m@ == board_syntax(),
        },
{
    let syntax = "Please enter in this syntax: `^leaderboard [choice]`. The available leaderboards are `money` and `daily`.";
    match choice {
        None => BoardPick::Syntax(syntax.to_string()),
        Some(c) => {
            if same_text(c, "money") {
                BoardPick::Show(Board::Money)
            } else if same_text(c, "daily") {
                BoardPick::Show(Board::Daily)
            } else {
                BoardPick::Syntax(syntax.to_string())
            }
        },
    }
}

/// The unit of a leaderboard's figures.
pub open spec fn unit(b: Board) -> Seq<char> {
    match b {
        Board::Money => "monies"@,
        Board::Daily => "days"@,
    }
}

/// The lines of a leaderboard: `#i: <@id>: **amount** unit`, counted from 1, in the
/// order of `rows`.
pub open spec fn board_text(b: Board, rows: Seq<(u64, i64)>) -> Seq<char>
    decreases rows.len(),
{
    if rows.len() == 0 {
        Seq::empty()
    } else {
        board_text(b, rows.drop_last()) + "#"@ + dec(rows.len()) + ": "@ + mention(rows.last().0) + ": **"@
            + int_text(rows.last().1 as int) + "** "@ + unit(b) + "\n"@
    }
}

/// The text of a leaderboard, made of its rows (user id and figure), already in
/// order.
pub fn leaderboard_text(b: Board, rows: &Vec<(u64, i64)>) -> (r: String)
    requires
        rows.len() < u64::MAX,
    ensures
        r@ == board_text(b, rows@),
{
    let mut r = String::new();
    let mut i: usize = 0;
    while i < rows.len()
        invariant
            i <= rows.len(),
            rows.len() < u64::MAX,
            r@ == board_text(b, rows@.take(i as int)),
        decreases rows.len() - i,
    {
        assert(rows@.take(i + 1).drop_last() =~= rows@.take(i as int));
        let (id, amount) = rows[i];
        r.append("#");
        push_u64(&mut r, (i + 1) as u64);
        r.append(": ");
        push_mention(&mut r, id);
        r.append(": **");
        push_i64(&mut r, amount);
        r.append("** ");
        match b {
            Board::Money => r.append("monies"),
            Board::Daily => r.append("days"),
        }
        r.append("\n");
        i = i + 1;
    }
    assert(rows@.take(rows.len() as int) =~= rows@);
    r
}

} // verus!
