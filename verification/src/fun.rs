//! The small fun commands: precepts of Zote, bruh emotes, the game, baldness, the
//! counter and loot boxes.

use vstd::prelude::*;
use crate::custom::same_text;
use crate::message_change::{bold_safe, bold_safe_inner};
use crate::random::{random_u32, random_usize, random_ratio};
use crate::text::{parse_u64, parsed_in_range, push_u64, push_i64, dec, int_text};

verus! {

/// The emoji in front of a precept.
pub open spec fn zote_emoji() -> Seq<char> {
    "<:zote:809592148805681193> "@
}

/// The server's own precept.
pub open spec fn bald_precept() -> Seq<char> {
    "<:zote:809592148805681193> Precept Bald: 'Never Be Bald'. A head without hair will make you weaker in battle. You must avoid this at all costs by growing hair."@
}

/// What `^zote` asks for.
pub enum ZotePick {
    /// A reply that needs no precept.
    Reply(String),
    /// The precept of this number (1 to 57 when drawn; 0 names none).
    Line(usize),
}

/// The number `^zote` reads from its text, as `usize`, or 100 where the text is no
/// such number.
pub open spec fn zote_number(args: Seq<char>) -> int {
    match parsed_in_range(args, false, 0, usize::MAX as int) {
        Some(v) => v,
        None => 100,
    }
}

/// `str::parse::<usize>`: `None` where Rust reports an error.
pub fn parse_usize(s: &str) -> (r: Option<usize>)
    ensures
        match r {
            Some(v) => parsed_in_range(s@, false, 0, usize::MAX as int) == Some(v as int),
            None => parsed_in_range(s@, false, 0, usize::MAX as int) is None,
        },
{
    match parse_u64(s) {
        Some(v) => if v as u128 <= usize::MAX as u128 { Some(v as usize) } else { None },
        None => None,
    }
}

/// `^zote [number | random | bald]`: `bald` gives the server's own precept, `random`
/// a precept drawn from 1 to 57, a number up to 57 that precept, and anything else
/// the syntax.
pub fn zote_pick(args: &str) -> (r: ZotePick)
    ensures
        args@ == "bald"@ ==> (r matches ZotePick::Reply(m) && m@ == bald_precept()),
        args@ == "random"@ ==> (r matches ZotePick::Line(n) && 1 <= n <= 57),
        args@ != "bald"@ && args@ != "random"@ && zote_number(args@) > 57 ==> (r matches ZotePick::Reply(m)
            && m@ == "Please select a number from 1 to 57, or 'random', or 'bald'."@),
        args@ != "bald"@ && args@ != "random"@ && zote_number(args@) <= 57 ==> r == ZotePick::Line(
            zote_number(args@) as usize,
        ),
{
    proof {
        reveal_strlit("random");
        reveal_strlit("bald");
    }
    let line: usize = if same_text(args, "random") {
        random_usize(1, 58)
    } else {
        match parse_usize(args) {
            Some(v) => v,
            None => 100,
        }
    };
    if same_text(args, "bald") {
        ZotePick::Reply(
            "<:zote:809592148805681193> Precept Bald: 'Never Be Bald'. A head without hair will make you weaker in battle. You must avoid this at all costs by growing hair.".to_string(),
        )
    } else if line > 57 {
        ZotePick::Reply("Please select a number from 1 to 57, or 'random', or 'bald'.".to_string())
    } else {
        ZotePick::Line(line)
    }
}

/// The precept of number `n` among the lines of the precepts: line `n`, counted
/// from 1, after the emoji. There is none for 0 or past the last line.
pub fn zote_reply(lines: &Vec<String>, n: usize) -> (r: Option<String>)
    ensures
        1 <= n <= lines.len() ==> (r matches Some(m) && m@ == zote_emoji() + lines[n - 1]@),
        !(1 <= n <= lines.len()) ==> r is None,
{
    if n >= 1 && n <= lines.len() {
        let mut m = "<:zote:809592148805681193> ".to_string();
        m.append(lines[n - 1].as_str());
        Some(m)
    } else {
        None
    }
}

/// The bruh emotes.
pub open spec fn bruh_emotes() -> Seq<Seq<char>> {
    seq![
        "<:CyberBruh:702876356287135864>"@,
        "<:burh:721124449252016158>"@,
        "<:certifiedbruhmoment:704060742034522213>"@,
        "<:bruh100:679483886241185823>"@,
    ]
}

/// The bruh emote of a choice from 1 to 4.
pub fn bruh_emote(choice: u32) -> (r: &'static str)
    requires
        1 <= choice <= 4,
    ensures
        r@ == bruh_emotes()[choice - 1],
{
    if choice == 1 {
        "<:CyberBruh:702876356287135864>"
    } else if choice == 2 {
        "<:burh:721124449252016158>"
    } else if choice == 3 {
        "<:certifiedbruhmoment:704060742034522213>"
    } else {
        "<:bruh100:679483886241185823>"
    }
}

/// `^bruh`: one of the emotes, drawn at random.
pub fn bruh() -> (r: &'static str)
    ensures
        exists|i: int| 0 <= i < 4 && r@ == #[trigger] bruh_emotes()[i],
{
    let choice = random_u32(1, 5);
    let r = bruh_emote(choice);
    assert(r@ == bruh_emotes()[choice - 1]);
    r
}

/// The answer of `^game` for a turn from 1 to 11.
pub open spec fn game_answer_of(turn: int) -> Seq<char> {
    if turn == 1 {
        "You have brought something terrible onto this planet. What you have done is unforgivable. But I, a measly bot, must also comply with the rules. I HAVE LOST THE GAME."@
    } else if turn == 2 {
        "fuck you, i lost the game"@
    } else if turn == 3 {
        "what have u brought upon this cursed land\ni lost the game"@
    } else if turn == 4 {
        "ew\n\ni lost the game"@
    } else if turn == 5 {
        "WHY ME? WHY MEEEEEEEEEEEEEEEEEEEEEEEEEEEEEEEEEEEEEEEEEEEEEEEEEEEEEEEEEEEEEEEEEEEEEEEEEEEEEEEEEEEEEEE i lost the game"@
    } else if turn == 6 {
        "u fool\nur bad\nur trash\ni lost the game"@
    } else if turn == 7 {
        "heyyyyyyyy\ni lost the game"@
    } else if turn == 8 {
        "I 🤦‍♂️🙎‍♂️🧔👶🧑LOST 😤😋😎😕🤣😛😏🏛🗻🚂🗼🛥🚉🚕🎗🎧THE 🈚️✴️📵🔅⛎🖤⚜️🚾🆒#️⃣GAME🏑🎽🥌🏓⚽️🎫🎖🏆SEND THIS TO 50 FRIENDS📲📲📲5️⃣0️⃣TO UNDO THE CURSE🧙‍♀️🧙‍♂️🎢🎩🗾🏨🏘⏲📹☎️"@
    } else if turn == 9 {
        "I.\nLost.\nThe.\nGame."@
    } else if turn == 10 {
        "gg i guess we're both noobs at this game. wanna play minecraft instead?"@
    } else {
        "sorry for your loss https://cdn.discordapp.com/attachments/646474285116030992/679674483472334858/3pnaex_1.jpg"@
    }
}

/// The answer of `^game` for a turn from 1 to 11.
pub fn game_answer(turn: u32) -> (r: &'static str)
    requires
        1 <= turn <= 11,
    ensures
        r@ == game_answer_of(turn as int),
{
    if turn == 1 {
        "You have brought something terrible onto this planet. What you have done is unforgivable. But I, a measly bot, must also comply with the rules. I HAVE LOST THE GAME."
    } else if turn == 2 {
        "fuck you, i lost the game"
    } else if turn == 3 {
        "what have u brought upon this cursed land\ni lost the game"
    } else if turn == 4 {
        "ew\n\ni lost the game"
    } else if turn == 5 {
        "WHY ME? WHY MEEEEEEEEEEEEEEEEEEEEEEEEEEEEEEEEEEEEEEEEEEEEEEEEEEEEEEEEEEEEEEEEEEEEEEEEEEEEEEEEEEEEEEE i lost the game"
    } else if turn == 6 {
        "u fool\nur bad\nur trash\ni lost the game"
    } else if turn == 7 {
        "heyyyyyyyy\ni lost the game"
    } else if turn == 8 {
        "I 🤦‍♂️🙎‍♂️🧔👶🧑LOST 😤😋😎😕🤣😛😏🏛🗻🚂🗼🛥🚉🚕🎗🎧THE 🈚️✴️📵🔅⛎🖤⚜️🚾🆒#️⃣GAME🏑🎽🥌🏓⚽️🎫🎖🏆SEND THIS TO 50 FRIENDS📲📲📲5️⃣0️⃣TO UNDO THE CURSE🧙‍♀️🧙‍♂️🎢🎩🗾🏨🏘⏲📹☎️"
    } else if turn == 9 {
        "I.\nLost.\nThe.\nGame."
    } else if turn == 10 {
        "gg i guess we're both noobs at this game. wanna play minecraft instead?"
    } else {
        "sorry for your loss https://cdn.discordapp.com/attachments/646474285116030992/679674483472334858/3pnaex_1.jpg"
    }
}

/// `^game`: one of the answers, drawn at random.
pub fn game() -> (r: &'static str)
    ensures
        exists|turn: int| 1 <= turn <= 11 && r@ == #[trigger] game_answer_of(turn),
{
    let turn = random_u32(1, 12);
    let r = game_answer(turn);
    assert(r@ == game_answer_of(turn as int));
    r
}

/// How bald someone is: their name (or the text given) in bold, made safe, and the
/// hair level.
pub open spec fn hair_text(who: Seq<char>, level: nat) -> Seq<char> {
    "**"@ + bold_safe_inner(who) + "** has **"@ + dec(level) + "**% hair."@
}

/// Whose hair is looked at: the text after the command, or the author's name when
/// that text is empty.
pub open spec fn hair_subject(args: Seq<char>, author: Seq<char>) -> Seq<char> {
    if args.len() == 0 { author } else { args }
}

/// The answer of `^hair` for a hair level: `args` is the text after the command, and
/// the author's name stands in for it when it is empty.
pub fn hair_reply(args: &str, author: &str, level: u32) -> (r: String)
    ensures
        r@ == hair_text(hair_subject(args@, author@), level as nat),
{
    let who = if args.unicode_len() == 0 { author } else { args };
    let mut r = bold_safe(who);
    r.append(" has ");
    let mut n = String::new();
    push_u64(&mut n, level as u64);
    proof {
        crate::text::lemma_dec_digits(level as nat);
        assert forall|i: int| 0 <= i < n@.len() implies crate::message_change::is_alnum(#[trigger] n@[i]) by {
            assert(crate::text::is_digit(dec(level as nat)[i]));
        }
    }
    let b = bold_safe(n.as_str());
    r.append(b.as_str());
    r.append("% hair.");
    proof {
        reveal_strlit("**");
        reveal_strlit(" has ");
        reveal_strlit("** has **");
        reveal_strlit("% hair.");
        reveal_strlit("**% hair.");
    }
    assert(r@ =~= hair_text(hair_subject(args@, author@), level as nat));
    r
}

/// `^hair`: a hair level drawn from 0 to 100.
pub fn hair(args: &str, author: &str) -> (r: String)
    ensures
        exists|level: nat| level <= 100 && r@ == #[trigger] hair_text(hair_subject(args@, author@), level),
{
    let level = random_u32(0, 101);
    let r = hair_reply(args, author, level);
    assert(r@ == hair_text(hair_subject(args@, author@), level as nat));
    r
}

/// The answer of `^balder` with the two people in the order they are compared.
pub open spec fn balder_text(first: Seq<char>, times: nat, second: Seq<char>) -> Seq<char> {
    first + " is **"@ + dec(times) + "x** balder than "@ + second + "."@
}

/// The answer of `^balder` when it is not given two people.
pub open spec fn balder_syntax() -> Seq<char> {
    "Please send two people to compare their baldness, e.g. `^balder @GamerPaul @UnorigionalLeon`"@
}

/// The answer of `^balder [person1] [person2]` for a level from 0 to 100 (shown in
/// tenths, rounded down) and a coin that says whether the first person is the
/// balder one.
pub fn balder_reply(people: &Vec<String>, level: u32, first_balder: bool) -> (r: String)
    ensures
        people.len() != 2 ==> r@ == balder_syntax(),
        people.len() == 2 && first_balder ==> r@ == balder_text(people[0]@, (level / 10) as nat, people[1]@),
        people.len() == 2 && !first_balder ==> r@ == balder_text(people[1]@, (level / 10) as nat, people[0]@),
{
    if people.len() != 2 {
        return "Please send two people to compare their baldness, e.g. `^balder @GamerPaul @UnorigionalLeon`".to_string();
    }
    let (a, b) = if first_balder { (&people[0], &people[1]) } else { (&people[1], &people[0]) };
    let mut r = a.clone();
    r.append(" is **");
    push_u64(&mut r, (level / 10) as u64);
    r.append("x** balder than ");
    r.append(b.as_str());
    r.append(".");
    r
}

/// `^balder`: a level drawn from 0 to 100 and a fair coin.
pub fn balder(people: &Vec<String>) -> (r: String)
    ensures
        people.len() != 2 ==> r@ == balder_syntax(),
        people.len() == 2 ==> exists|times: nat| times <= 10 && (r@ == #[trigger] balder_text(people[0]@, times, people[1]@)
            || r@ == balder_text(people[1]@, times, people[0]@)),
{
    let level = random_u32(0, 101);
    let first_balder = random_ratio(1, 2);
    let r = balder_reply(people, level, first_balder);
    assert(people.len() == 2 ==> (r@ == balder_text(people[0]@, (level / 10) as nat, people[1]@)
        || r@ == balder_text(people[1]@, (level / 10) as nat, people[0]@)));
    r
}

/// `^count`: the server's counter as it stands; the counter then goes up by one.
pub fn count_reply(count: u64) -> (r: String)
    ensures
        r@ == dec(count as nat),
{
    let mut r = String::new();
    push_u64(&mut r, count);
    r
}

/// The items a loot box can hold.
pub open spec fn loot_items() -> Seq<Seq<char>> {
    seq!["Item 1"@, "Item 2"@]
}

/// `^lootbox`: one of the items, drawn at random.
pub fn lootbox() -> (r: &'static str)
    ensures
        exists|i: int| 0 <= i < 2 && r@ == #[trigger] loot_items()[i],
{
    let i = random_usize(0, 2);
    if i == 0 {
        assert("Item 1"@ == loot_items()[0]);
        "Item 1"
    } else {
        assert("Item 2"@ == loot_items()[1]);
        "Item 2"
    }
}

/// `^latency`: the time from the message to its handling.
pub fn latency_reply(milliseconds: i64) -> (r: String)
    ensures
        r@ == "latency is "@ + int_text(milliseconds as int) + " milliseconds"@,
{
    let mut r = "latency is ".to_string();
    push_i64(&mut r, milliseconds);
    r.append(" milliseconds");
    r
}

/// The line `^say` writes to its log.
pub fn say_log_line(unix_seconds: u64, content: &str, author: &str, channel: u64) -> (r: String)
    ensures
        r@ == "at "@ + dec(unix_seconds as nat) + ": "@ + content@ + " written by "@ + author@
            + " using the say command in the channel "@ + dec(channel as nat) + "\n"@,
{
    let mut r = "at ".to_string();
    push_u64(&mut r, unix_seconds);
    r.append(": ");
    r.append(content);
    r.append(" written by ");
    r.append(author);
    r.append(" using the say command in the channel ");
    push_u64(&mut r, channel);
    r.append("\n");
    r
}

} // verus!
