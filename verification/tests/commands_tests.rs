use cafebot::admin::{
    admin_test_reply, is_admin, not_admin_reply, slow_mode_plan, slow_mode_set_reply, slow_mode_show_reply, status_reply,
    SlowMode,
};
use cafebot::custom::{command_list, custom_outcome, run_reply, run_target, CustomOutcome, RunOutcome, RunTarget};
use cafebot::help::{help_page, HelpStep, ADMIN, FOOTER, MISC, MONEY, TOOLS};
use cafebot::message_change::{owo_reply, sarcasm_reply, sarcastify, sign_with_author};
use cafebot::reddit::{contains_text, subreddit_check, subreddit_link};

fn words(ws: &[&str]) -> Vec<String> {
    ws.iter().map(|w| w.to_string()).collect()
}

#[test]
fn sarcasm_alternates_case() {
    // only the letters alternate
    assert_eq!(sarcastify("text like this"), "tExT lIkE tHiS");
    assert_eq!(sarcastify("be like this"), "bE lIkE tHiS");
    assert_eq!(sarcastify("hello world"), "hElLo WoRlD");
    assert_eq!(sarcastify("a1b c!d"), "a1B c!D");
    // once applied it stays, and the case of the input does not matter
    assert_eq!(sarcastify(&sarcastify("Hello There")), sarcastify("Hello There"));
    assert_eq!(sarcastify("HELLO THERE"), sarcastify("hello there"));
    assert_eq!(sarcastify("ABC"), "aBc");
    assert_eq!(sarcastify(""), "");
    assert_eq!(sarcasm_reply("ann", "yes"), "@ann: yEs");
    assert_eq!(sign_with_author("ann", "hi"), "@ann: hi");
    // the first character of a case change that gives several
    assert_eq!(sarcastify("aß"), "aS");
    assert_eq!(sarcastify("ÀÀ"), "àÀ");
}

#[test]
fn owo_keeps_the_signature() {
    let r = owo_reply("ann", "hello there");
    assert!(r.starts_with("@ann: "));
    assert_ne!(&r["@ann: ".len()..], "hello there");
}

#[test]
fn bold_and_safe() {
    assert_eq!(status_reply("a**b"), "Status has been set to **Playing** **a b**");
    assert_eq!(status_reply("@everyone"), "Status has been set to **Playing** **@\u{200B}everyone**");
    assert_eq!(status_reply("chess"), "Status has been set to **Playing** **chess**");
    assert_eq!(status_reply("discord.gg/x"), "Status has been set to **Playing** **discord\u{2024}gg/x**");
}

#[test]
fn administrators() {
    assert!(is_admin(&vec![false, true]));
    assert!(!is_admin(&vec![false, false]));
    assert!(!is_admin(&vec![]));
    assert_eq!(admin_test_reply(true), "You are an admin.");
    assert_eq!(admin_test_reply(false), "You are not an admin.");
    assert_eq!(not_admin_reply(), "You can't run that command.");
}

#[test]
fn slow_mode() {
    assert!(matches!(slow_mode_plan(true, Some(5)), SlowMode::Change(5)));
    assert!(matches!(slow_mode_plan(true, None), SlowMode::Show));
    assert!(matches!(slow_mode_plan(false, Some(5)), SlowMode::Refuse("You can't run that command.")));
    assert!(matches!(slow_mode_plan(false, None), SlowMode::Refuse("You can't run that command.")));
    assert_eq!(slow_mode_set_reply(5, None), "Successfully set slow mode rate to `5` seconds.");
    assert_eq!(slow_mode_set_reply(5, Some("no")), "Failed to set slow mode to `5` seconds. because no");
    assert_eq!(slow_mode_show_reply(Some(Some(30))), "Current slow mode rate is `30` seconds.");
    assert_eq!(slow_mode_show_reply(Some(None)), "Current slow mode rate is `0` seconds.");
    assert_eq!(slow_mode_show_reply(None), "Failed to find channel in cache.");
}

#[test]
fn help_pages() {
    match help_page("🔧", false) {
        HelpStep::Show(c) => {
            assert_eq!(c.title, "__Tools:__");
            assert_eq!(c.description, TOOLS);
            assert!(c.description.starts_with("`^help` - show help pages."));
        }
        HelpStep::Close(_) => panic!("a page was expected"),
    }
    assert!(matches!(help_page("💲", false), HelpStep::Show(c) if c.title == "__Money:__" && c.description == MONEY));
    assert!(matches!(help_page("🌐", false), HelpStep::Show(c) if c.title == "__Misc:__" && c.description == MISC));
    assert!(matches!(help_page("✂", false), HelpStep::Show(c) if c.title == "__Message Modification:__"));
    assert!(matches!(help_page("🤴", true), HelpStep::Show(c) if c.title == "__CafeBot Admin:__" && c.description == ADMIN));
    assert!(matches!(help_page("🤴", false), HelpStep::Show(c)
        if c.title == "__You can't access that.__" && c.description == "Please pick a different page."));
    assert!(matches!(help_page("🛑", true), HelpStep::Close(c) if c.title == "Goodbye!" && c.description == "This message is inactive."));
    assert!(matches!(help_page("🍕", true), HelpStep::Show(c)
        if c.title == "React with one of the emojis to get to a help page." && c.description.is_empty()));
    assert!(FOOTER.ends_with("https://github.com/JustAnotherStrange/CafeBot"));
}

#[test]
fn custom_commands_are_created_once() {
    assert!(matches!(custom_outcome(Some("bruh"), false, "bruh moment"), CustomOutcome::Created(m)
        if m == "**DB Success:** custom command *bruh* created with the output *bruh moment*."));
    assert!(matches!(custom_outcome(Some("bruh"), true, "x"), CustomOutcome::Refused(m) if m == "That command already exists."));
    assert!(matches!(custom_outcome(None, false, ""), CustomOutcome::Refused(m)
        if m == "Please enter command in this format: `^custom [command] [output]`."));
}

#[test]
fn listing_and_finding_commands() {
    assert_eq!(command_list(&words(&["bruh", "hi"])), "1: **bruh**\n2: **hi**\n");
    assert_eq!(command_list(&vec![]), "");
    assert!(matches!(run_target(&words(&["list"])), RunTarget::List));
    assert!(matches!(run_target(&words(&["bruh", "|", "owo"])), RunTarget::Lookup(n) if n == "bruh"));
    assert!(matches!(run_target(&vec![]), RunTarget::Syntax(m)
        if m == "Please use this format: `^run [custom command name]`. You can also pipe with `^run [command_name] | [pipe_program]`."));
}

fn reply(r: RunOutcome) -> String {
    match r {
        RunOutcome::Reply(m) => m,
        _ => panic!("a reply was expected"),
    }
}

#[test]
fn running_commands() {
    assert_eq!(reply(run_reply(Some("bruh moment"), &words(&["bruh"]), false)), "bruh moment");
    assert_eq!(reply(run_reply(None, &words(&["bruh"]), false)), "That command doesn't exist yet. Create it with `^custom`.");
    assert!(matches!(run_reply(Some("x"), &words(&["bruh", "delete"]), true), RunOutcome::Delete));
    assert!(matches!(run_reply(Some("x"), &words(&["bruh", "delete"]), false), RunOutcome::Nothing));
    assert_eq!(
        reply(run_reply(Some("x"), &words(&["bruh", "please"]), false)),
        "Please use the syntax: `^run [command name]`, `^run [command name] delete`, `^run list`, or pipe it using the symbol `|`."
    );
}

#[test]
fn pipes() {
    assert_eq!(reply(run_reply(Some("bruh moment"), &words(&["bruh", "|", "sarcasm"]), false)), "bRuH mOmEnT");
    assert_eq!(reply(run_reply(Some("bruh moment"), &words(&["bruh", "|", "sarcasm", "|", "sarcasm"]), false)), "bRuH mOmEnT");
    assert_eq!(
        reply(run_reply(Some("bruh"), &words(&["bruh", "|", "cat"]), false)),
        "Please pipe into one of the following programs: owo, uwu, uvu, sarcasm."
    );
    assert_eq!(
        reply(run_reply(Some("bruh"), &words(&["bruh", "|"]), false)),
        "The syntax for piping is: `^run [command_name] | [pipe_program]`"
    );
    assert_eq!(
        reply(run_reply(Some("bruh"), &words(&["bruh", "|", "sarcasm", "|"]), false)),
        "The syntax for piping is: `^run [command_name] | [pipe_program]`"
    );
    // a word after a program that is no pipe ends the pipes
    assert_eq!(reply(run_reply(Some("ab"), &words(&["bruh", "|", "sarcasm", "owo"]), false)), "aB");
    let r = reply(run_reply(Some("hello there"), &words(&["bruh", "|", "uwu"]), false));
    assert_ne!(r, "hello there");
}

#[test]
fn subreddits() {
    assert_eq!(subreddit_link("check r/rust out"), Some("<https://reddit.com/r/rust>".to_string()));
    assert_eq!(subreddit_link("r/aww"), Some("<https://reddit.com/r/aww>".to_string()));
    assert_eq!(subreddit_link("ar/rust"), None);
    assert_eq!(subreddit_link("no link here"), None);
    assert_eq!(subreddit_link("see https://REDDIT.com/r/rust"), None);
    assert_eq!(subreddit_link("r/"), Some("<https://reddit.com/r/>".to_string()));
    // the byte offset of r/ is read as a character position
    assert_eq!(subreddit_link("é r/rust"), None);
    assert_eq!(subreddit_link("ééé r/ ab"), Some("<https://reddit.com/r/>".to_string()));
    assert_eq!(subreddit_link("ééé r/x ab"), None);
    assert_eq!(subreddit_check("ééé r/ ab"), Some(Some("<https://reddit.com/r/>".to_string())));
    assert_eq!(subreddit_check("nothing"), Some(None));
    // two-byte characters put the byte offset of r/ past the characters
    assert_eq!(subreddit_check("éééééé r/x"), None);
    assert_eq!(subreddit_check("éééééé r/x reddit.com"), Some(None));
    assert_eq!(subreddit_check("éééééé https://reddit.com r/x"), Some(None));
    assert!(contains_text("abcabd", "abd"));
    assert!(!contains_text("abc", "abcd"));
    assert!(contains_text("abc", ""));
    assert_eq!(subreddit_link("r/rust at HTTPS://ReDdIt.CoM"), None);
}
