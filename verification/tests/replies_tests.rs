use cafebot::dice::{dice_reply, rolled_reply};
use cafebot::economy::ScratchOff;
use cafebot::fun::{
    balder, balder_reply, bruh, bruh_emote, count_reply, game, game_answer, hair, hair_reply, latency_reply, lootbox,
    parse_usize, say_log_line, zote_pick, zote_reply, ZotePick,
};
use cafebot::lookup::{
    wiki_pages, wiki_url, xkcd_latest, xkcd_post_from, AnswerError,
    quoted_text, rjq, wiki_no_results, wiki_page_link, wiki_results, wiki_search_link, wiki_title, xkcd_link, xkcd_pick, xkcd_post,
    XkcdPick,
};
use cafebot::reports::{
    board_pick, leaderboard_text, lost_reply, pool_reply, profile_description, profile_picture, profile_target,
    profile_title, stats_content, wallet_reply, Board, BoardPick, ProfileTarget, Stats,
};

#[test]
fn json_quotes() {
    assert_eq!(rjq("\"hello\""), "hello");
    assert_eq!(rjq("\"\""), "");
    assert_eq!(rjq("\"héllo\""), "héllo");
    assert_eq!(rjq("null"), "ul");
    assert!(quoted_text("\"x\""));
    assert!(!quoted_text("5"));
    assert!(!quoted_text("é5"));
}

#[test]
fn which_xkcd() {
    assert!(matches!(xkcd_pick(None, 2500), XkcdPick::Comic(2500)));
    assert!(matches!(xkcd_pick(Some("303"), 2500), XkcdPick::Comic(303)));
    assert!(matches!(xkcd_pick(Some("2500"), 2500), XkcdPick::Comic(2500)));
    assert!(matches!(xkcd_pick(Some("0"), 2500), XkcdPick::Reply(m)
        if m == "Please enter no arguments, 'random', or a number between 1 and 2500."));
    assert!(matches!(xkcd_pick(Some("2501"), 2500), XkcdPick::Reply(_)));
    assert!(matches!(xkcd_pick(Some("latest"), 2500), XkcdPick::Reply(_)));
    for _ in 0..20 {
        assert!(matches!(xkcd_pick(Some("random"), 10), XkcdPick::Comic(n) if 1 <= n && n <= 10));
    }
    assert_eq!(xkcd_link(303), "https://xkcd.com/303/info.0.json");
}

#[test]
fn an_xkcd_post() {
    let p = xkcd_post("303", "\"Compiling\"", "\"10\"", "\"2\"", "\"2007\"", "\"https://imgs.xkcd.com/comics/compiling.png\"", "\"'Are you stealing those LCDs?'\"");
    assert_eq!(p.title, "**xkcd 303: Compiling**");
    assert_eq!(p.date, "10-2-2007");
    assert_eq!(p.image, "https://imgs.xkcd.com/comics/compiling.png");
    assert_eq!(p.footer, "'Are you stealing those LCDs?'");
}

#[test]
fn reading_xkcd_answers() {
    assert_eq!(xkcd_latest("{\"num\": 2500, \"title\": \"x\"}"), Ok(2500));
    assert_eq!(xkcd_latest("not json"), Err(AnswerError::NotJson));
    assert_eq!(xkcd_latest("{\"num\": \"many\"}"), Err(AnswerError::Malformed));
    assert_eq!(xkcd_latest("{}"), Err(AnswerError::Malformed));
    let body = "{\"month\": \"10\", \"num\": 303, \"year\": \"2007\", \"safe_title\": \"Compiling\", \"alt\": \"Are you stealing those LCDs?\", \"img\": \"https://imgs.xkcd.com/comics/compiling.png\", \"day\": \"2\"}";
    let p = xkcd_post_from(body).unwrap();
    assert_eq!(p.title, "**xkcd 303: Compiling**");
    assert_eq!(p.date, "10-2-2007");
    assert_eq!(p.image, "https://imgs.xkcd.com/comics/compiling.png");
    assert_eq!(p.footer, "Are you stealing those LCDs?");
    assert!(matches!(xkcd_post_from("{\"num\": 1, \"month\": 1}"), Err(AnswerError::Malformed)));
    assert!(matches!(xkcd_post_from("<html>"), Err(AnswerError::NotJson)));
}

#[test]
fn reading_wikipedia_answers() {
    let body = "{\"query\": {\"pages\": {\"7\": {\"title\": \"Rust\"}, \"9\": {\"title\": \"Iron\"}}}}";
    assert_eq!(
        wiki_pages(body),
        Ok(Some(vec![("7".to_string(), "\"Rust\"".to_string()), ("9".to_string(), "\"Iron\"".to_string())]))
    );
    assert_eq!(wiki_pages("{\"batchcomplete\": \"\"}"), Ok(None));
    assert_eq!(wiki_pages("oops"), Err(AnswerError::NotJson));
    assert_eq!(wiki_pages("{\"query\": {\"pages\": {\"7\": {\"title\": 5}}}}"), Err(AnswerError::Malformed));
    let info = "{\"query\": {\"pages\": {\"7\": {\"fullurl\": \"https://en.wikipedia.org/wiki/Rust\"}}}}";
    assert_eq!(wiki_url(info, "7"), Ok("https://en.wikipedia.org/wiki/Rust".to_string()));
    assert_eq!(wiki_url(info, "8"), Err(AnswerError::Malformed));
    assert_eq!(wiki_url("", "7"), Err(AnswerError::NotJson));
}

#[test]
fn wikipedia_texts() {
    assert_eq!(
        wiki_search_link("rust"),
        "https://en.wikipedia.org/w/api.php?action=query&origin=*&format=json&generator=search&gsrnamespace=0&gsrlimit=5&gsrsearch='rust'"
    );
    assert_eq!(wiki_page_link("42"), "https://en.wikipedia.org/w/api.php?action=query&prop=info&format=json&pageids=42&inprop=url");
    assert_eq!(wiki_no_results("zzz"), "No Wikipedia results for *zzz*.");
    assert_eq!(wiki_title("rust"), "**Wikipedia results for *rust:***");
    let titles = vec!["\"Rust\"".to_string(), "\"Iron oxide\"".to_string()];
    let urls = vec!["https://en.wikipedia.org/wiki/Rust".to_string(), "https://en.wikipedia.org/wiki/Iron_oxide".to_string()];
    assert_eq!(
        wiki_results(&titles, &urls),
        "1. **Rust**: https://en.wikipedia.org/wiki/Rust\n2. **Iron oxide**: https://en.wikipedia.org/wiki/Iron_oxide\n"
    );
}

#[test]
fn zote() {
    assert!(matches!(zote_pick("bald"), ZotePick::Reply(m)
        if m == "<:zote:809592148805681193> Precept Bald: 'Never Be Bald'. A head without hair will make you weaker in battle. You must avoid this at all costs by growing hair."));
    assert!(matches!(zote_pick("12"), ZotePick::Line(12)));
    assert!(matches!(zote_pick("57"), ZotePick::Line(57)));
    assert!(matches!(zote_pick("58"), ZotePick::Reply(m) if m == "Please select a number from 1 to 57, or 'random', or 'bald'."));
    assert!(matches!(zote_pick(""), ZotePick::Reply(_)));
    assert!(matches!(zote_pick("random"), ZotePick::Line(n) if 1 <= n && n <= 57));
    let lines = vec!["Precept One".to_string(), "Precept Two".to_string()];
    assert_eq!(zote_reply(&lines, 2), Some("<:zote:809592148805681193> Precept Two".to_string()));
    assert_eq!(zote_reply(&lines, 0), None);
    assert_eq!(zote_reply(&lines, 3), None);
    assert_eq!(parse_usize("007"), Some(7));
    assert_eq!(parse_usize("-7"), None);
}

#[test]
fn random_answers_come_from_their_lists() {
    let emotes = [bruh_emote(1), bruh_emote(2), bruh_emote(3), bruh_emote(4)];
    assert_eq!(emotes[0], "<:CyberBruh:702876356287135864>");
    let answers: Vec<&str> = (1..12).map(game_answer).collect();
    assert_eq!(answers[1], "fuck you, i lost the game");
    for _ in 0..30 {
        assert!(emotes.contains(&bruh()));
        assert!(answers.contains(&game()));
        let l = lootbox();
        assert!(l == "Item 1" || l == "Item 2");
    }
}

#[test]
fn baldness() {
    assert_eq!(hair_reply("", "ann", 42), "**ann** has **42**% hair.");
    assert_eq!(hair_reply("bob", "ann", 0), "**bob** has **0**% hair.");
    let h = hair("bob", "ann");
    assert!(h.starts_with("**bob** has **") && h.ends_with("**% hair."));
    let people = vec!["@a".to_string(), "@b".to_string()];
    assert_eq!(balder_reply(&people, 57, true), "@a is **5x** balder than @b.");
    assert_eq!(balder_reply(&people, 100, false), "@b is **10x** balder than @a.");
    let syntax = "Please send two people to compare their baldness, e.g. `^balder @GamerPaul @UnorigionalLeon`";
    assert_eq!(balder_reply(&vec!["@a".to_string()], 3, true), syntax);
    assert_eq!(balder(&vec![]), syntax);
    let r = balder(&people);
    assert!(r.starts_with("@a is **") || r.starts_with("@b is **"));
}

#[test]
fn small_replies() {
    assert_eq!(count_reply(41), "41");
    assert_eq!(latency_reply(-3), "latency is -3 milliseconds");
    assert_eq!(
        say_log_line(1622505600, "hi", "ann", 99),
        "at 1622505600: hi written by ann using the say command in the channel 99\n"
    );
}

#[test]
fn dice() {
    // one face per die makes the roll certain
    assert_eq!(dice_reply("1d1+1"), "Rolling *1d1+1...*\nResults: **2**");
    assert_eq!(dice_reply("d1"), "Rolling *d1...*\nResults: **1**");
    assert_eq!(dice_reply("3d1-2"), "Rolling *3d1-2...*\nResults: **1**");
    // a bonus taken away stops at 0
    assert_eq!(dice_reply("1d1-5"), "Rolling *1d1-5...*\nResults: **0**");
    assert_eq!(dice_reply(" 4D1 "), "Rolling * 4D1 ...*\nResults: **4**");
    assert_eq!(dice_reply("0d6"), "*0d6* is not a valid dice roll.");
    assert_eq!(dice_reply("2d0"), "*2d0* is not a valid dice roll.");
    assert_eq!(dice_reply("nope"), "*nope* is not a valid dice roll.");
    assert_eq!(dice_reply("2d6+"), "*2d6+* is not a valid dice roll.");
    for _ in 0..50 {
        let r = dice_reply("2d6+3");
        let n: u32 = r.trim_start_matches("Rolling *2d6+3...*\nResults: **").trim_end_matches("**").parse().unwrap();
        assert!((5..=15).contains(&n));
    }
    assert_eq!(rolled_reply("1d1", 1), "Rolling *1d1...*\nResults: **1**");
}

#[test]
fn wallets_pools_and_stats() {
    assert_eq!(wallet_reply(120, 3), "You have **120** monies and **3** tickets.");
    assert_eq!(pool_reply("Cafe", 77), "Your server, **Cafe**, has a pool of **77** monies.");
    assert_eq!(lost_reply("Cafe", 77), "Your server, **Cafe**, has lost a total of of **77** monies.");
    let c = stats_content("Cafe", Stats { all_lost: 100, server_lost: 40, wealth: 5000, blackjacks: 12, coin_flips: 30 });
    assert_eq!(c.title, "Stats for Cafe");
    assert_eq!(
        c.description,
        "**Money Stats**\n    Total monies lost: **100**\n    Total monies lost on this server: **40**\n    Collective wealth of all users: **5000**\n\n    **Gambling Stats (all since May 17th, 2021)**\n    Games of blackjack played: **12**\n    Total coins flipped: **30**"
    );
}

#[test]
fn profiles() {
    assert!(matches!(profile_target(0), ProfileTarget::Author));
    assert!(matches!(profile_target(1), ProfileTarget::Mentioned));
    assert!(matches!(profile_target(2), ProfileTarget::Refused(m)
        if m == "Please enter either one user that you want to see the profile of, or enter no user to see your own profile."));
    assert_eq!(profile_title("ann", Some("annie")), "ann\n\"annie\"");
    assert_eq!(profile_title("ann", None), "ann");
    assert_eq!(profile_picture("https://cdn/a.png"), "https://cdn/a.png?size=16");
    assert_eq!(
        profile_description(50, 2, None, ScratchOff { tier1: 1, tier2: 2, tier3: 3 }),
        "Monies: **50**\n        Idle increase: **2**\n        Daily streak: **0**\n        Tier 1 Scratch-Offs: **1**\n        Tier 2 Scratch-Offs: **2**\n        Tier 3 Scratch-Offs: **3**"
    );
}

#[test]
fn leaderboards() {
    assert!(matches!(board_pick(Some("money")), BoardPick::Show(Board::Money)));
    assert!(matches!(board_pick(Some("daily")), BoardPick::Show(Board::Daily)));
    assert!(matches!(board_pick(Some("hats")), BoardPick::Syntax(m)
        if m == "Please enter in this syntax: `^leaderboard [choice]`. The available leaderboards are `money` and `daily`."));
    assert!(matches!(board_pick(None), BoardPick::Syntax(m)
        if m == "Please enter in this syntax: `^leaderboard [choice]`. The available leaderboards are `money` and `daily`."));
    assert_eq!(leaderboard_text(Board::Money, &vec![(1, 900), (2, -5)]), "#1: <@1>: **900** monies\n#2: <@2>: **-5** monies\n");
    assert_eq!(leaderboard_text(Board::Daily, &vec![(3, 7)]), "#1: <@3>: **7** days\n");
    assert_eq!(leaderboard_text(Board::Daily, &vec![]), "");
}
