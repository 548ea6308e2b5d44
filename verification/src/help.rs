//! The help pages, navigated by reactions.

use vstd::prelude::*;
use crate::actions::EditContent;

verus! {

/// The tools page.
pub const TOOLS: &'static str = "\
`^help` - show help pages. navigate through reactions
`^ping` - pong
`^profile` - show information about your user in the database
`^latency` - see latency to bot host.
`^custom` - create a custom command. e.g. '^custom bruh bruh moment'.
`^run [^r]` - run a custom command. e.g. '^r bruh'. Do '^r [command name] delete' to delete one (admin only) or '^r list' to list available commands.
as well, you can pipe the output into 'programs' using the `|` symbol.
`^wiki [search term]` - search wikipedia
`^xkcd` - get xkcd comics. run with no arguments for the latest, 'random' for a random comic, or a number of the specific one you want.";

/// The message modification page.
pub const MESSAGE_MODIFICATION: &'static str = "\
`^say` - repeat anything that comes after this command
`^sarcasm [^s, ^/s]` - modify your message to bE lIkE tHiS.
`^owo` - modify your message to be owoified.";

/// The money page.
pub const MONEY: &'static str = "\
`^wallet` - see how much money you have.
`^daily` - run this daily to maintain a streak. forgetting one day will result in a reset.
`^coin_flip [bet]` - flip a coin for money.
`^blackjack [^bj] [bet]` - play blackjack for money.
`^give_money [^give] [amount] [recipient]` - give money to someone.
`^rockpaperscissors [^rps] [move] [bet]` - play rock paper scissors! example: ^rps rock 50
`^leaderboard [choice]` - get a leaderboard. available options are currently 'money' and 'daily'.
`^pool` - see the pool for your server. its usage will soon be changed, right now it is 1/4th of all lost money";

/// The miscellaneous page.
pub const MISC: &'static str = "\
`^count` - count as high as you can
`^hair [^bald]` - see how bald you are.
`^balder [person1] [person2]` - compare 2 people to see how bald they are
`^zote` - find precepts of zote. ^zote [number] for a specific precept, ^zote random for a random one, and ^zote bald for our own precept.
`^bruh` - get a random bruh emote
`^dice [^d]` - roll dice using the standard dnd syntax; supports bonuses.
`^tictactoe [^ttt] [difficulty]` - play tic tac toe! difficulty is 1 through 100.";

/// The administrator page.
pub const ADMIN: &'static str = "\
`^admin_test` - test if you are an admin
`^status [string]` - change the bot's status (will display as 'Playing [entered status]')
`^slow_mode [seconds]` - set the slow mode in that channel to a certain amount of seconds. set to 0 to turnoff slow mode.";

/// The footer under every help page.
pub const FOOTER: &'static str = "\
Key: 🔧 - tools, ✂ - message modification, 💲 - money, 🌐 - miscellaneous, 🤴 - admin.
CafeBot v0.8.3: https://github.com/JustAnotherStrange/CafeBot";

/// What a reaction on the help message does: show a page, or close the message.
pub enum HelpStep {
    Show(EditContent),
    Close(EditContent),
}

/// The page a reaction asks for: its title and text, or `None` for the stop sign,
/// which closes the message. `admin` tells whether the one who asked for help is an
/// administrator.
pub open spec fn help_page_of(emoji: Seq<char>, admin: bool) -> Option<(Seq<char>, Seq<char>)> {
    if emoji == "🔧"@ {
        Some(("__Tools:__"@, TOOLS@))
    } else if emoji == "✂"@ {
        Some(("__Message Modification:__"@, MESSAGE_MODIFICATION@))
    } else if emoji == "💲"@ {
        Some(("__Money:__"@, MONEY@))
    } else if emoji == "🌐"@ {
        Some(("__Misc:__"@, MISC@))
    } else if emoji == "🤴"@ {
        if admin {
            Some(("__CafeBot Admin:__"@, ADMIN@))
        } else {
            Some(("__You can't access that.__"@, "Please pick a different page."@))
        }
    } else if emoji == "🛑"@ {
        None
    } else {
        Some(("React with one of the emojis to get to a help page."@, ""@))
    }
}

fn page(title: &str, description: &str) -> (r: HelpStep)
    ensures
        r matches HelpStep::Show(c) && c.title@ == title@ && c.description@ == description@,
{
    HelpStep::Show(EditContent { title: title.to_string(), description: description.to_string() })
}

/// The step for a reaction on the help message.
pub fn help_page(emoji: &str, admin: bool) -> (r: HelpStep)
    ensures
        match help_page_of(emoji@, admin) {
            Some((title, description)) => r matches HelpStep::Show(c) && c.title@ == title && c.description@ == description,
            None => r matches HelpStep::Close(c) && c.title@ == "Goodbye!"@ && c.description@ == "This message is inactive."@,
        },
{
    let e = emoji.to_string();
    if e == "🔧".to_string() {
        page("__Tools:__", TOOLS)
    } else if e == "✂".to_string() {
        page("__Message Modification:__", MESSAGE_MODIFICATION)
    } else if e == "💲".to_string() {
        page("__Money:__", MONEY)
    } else if e == "🌐".to_string() {
        page("__Misc:__", MISC)
    } else if e == "🤴".to_string() {
        if admin {
            page("__CafeBot Admin:__", ADMIN)
        } else {
            page("__You can't access that.__", "Please pick a different page.")
        }
    } else if e == "🛑".to_string() {
        HelpStep::Close(EditContent {
            title: "Goodbye!".to_string(),
            description: "This message is inactive.".to_string(),
        })
    } else {
        page("React with one of the emojis to get to a help page.", "")
    }
}

} // verus!
