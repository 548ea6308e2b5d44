//! Custom commands: a server's own commands with a fixed output, listed, run and
//! piped into text programs.

use vstd::prelude::*;
use crate::message_change::{sarcastify, sarcastic, owoify, owoify_gives, OwoLevel, all_ascii, lemma_sarcasm_settles, lemma_ascii_case};
use crate::text::{push_u64, dec, opt_text};

verus! {

/// The words of a command's arguments.
pub open spec fn words(args: Seq<String>) -> Seq<Seq<char>> {
    args.map_values(|a: String| a@)
}

/// Whether `s` holds exactly the text `w`.
pub fn same_text(s: &str, w: &str) -> (b: bool)
    ensures
        b == (s@ == w@),
{
    s.to_string() == w.to_string()
}

/// Whether the reply is `Some` and holds exactly `m`.
pub open spec fn says(r: Option<String>, m: Seq<char>) -> bool {
    match r {
        Some(s) => s@ == m,
        None => false,
    }
}

/// What `^custom` leads to.
pub enum CustomOutcome {
    /// Nothing is stored; the reply says why.
    Refused(String),
    /// The command is stored, and the reply says so.
    Created(String),
}

/// Whether nothing is stored and the reply is `m`.
pub open spec fn refused(r: CustomOutcome, m: Seq<char>) -> bool {
    match r {
        CustomOutcome::Refused(s) => s@ == m,
        CustomOutcome::Created(_) => false,
    }
}

/// Whether the command is stored and the reply is `m`.
pub open spec fn created(r: CustomOutcome, m: Seq<char>) -> bool {
    match r {
        CustomOutcome::Created(s) => s@ == m,
        CustomOutcome::Refused(_) => false,
    }
}

pub open spec fn created_text(name: Seq<char>, output: Seq<char>) -> Seq<char> {
    "**DB Success:** custom command *"@ + name + "* created with the output *"@ + output + "*."@
}

/// `^custom [name] [output]`: `name` is the first word, if there is one, `exists`
/// whether the server already has a command of that name, and `output` the rest of
/// the message. A new name is stored with its output.
pub fn custom_outcome(name: Option<&str>, exists: bool, output: &str) -> (r: CustomOutcome)
    ensures
        match name {
            None => refused(r, "Please enter command in this format: `^custom [command] [output]`."@),
            Some(n) => if exists {
                refused(r, "That command already exists."@)
            } else {
                created(r, created_text(n@, output@))
            },
        },
{
    match name {
        None => CustomOutcome::Refused(
            "Please enter command in this format: `^custom [command] [output]`.".to_string(),
        ),
        Some(n) => {
            if exists {
                CustomOutcome::Refused("That command already exists.".to_string())
            } else {
                let mut m = "**DB Success:** custom command *".to_string();
                m.append(n);
                m.append("* created with the output *");
                m.append(output);
                m.append("*.");
                CustomOutcome::Created(m)
            }
        },
    }
}

/// The list of commands: one line `i: **name**` per command, counted from 1.
pub open spec fn list_text(names: Seq<Seq<char>>) -> Seq<char>
    decreases names.len(),
{
    if names.len() == 0 {
        Seq::empty()
    } else {
        list_text(names.drop_last()) + dec(names.len()) + ": **"@ + names.last() + "**\n"@
    }
}

/// The text of `^run list`.
pub fn command_list(names: &Vec<String>) -> (r: String)
    requires
        names.len() < u64::MAX,
    ensures
        r@ == list_text(words(names@)),
{
    let mut r = String::new();
    let mut i: usize = 0;
    while i < names.len()
        invariant
            i <= names.len(),
            names.len() < u64::MAX,
            r@ == list_text(words(names@).take(i as int)),
        decreases names.len() - i,
    {
        assert(words(names@).take(i + 1).drop_last() =~= words(names@).take(i as int));
        push_u64(&mut r, (i + 1) as u64);
        r.append(": **");
        r.append(names[i].as_str());
        r.append("**\n");
        i = i + 1;
    }
    assert(words(names@).take(names.len() as int) =~= words(names@));
    r
}

/// What `^run` does with its first word.
pub enum RunTarget {
    /// No word: the reply explains the command.
    Syntax(String),
    /// `list`: the server's commands are listed.
    List,
    /// Another word: the command of that name is looked up.
    Lookup(String),
}

/// What `^run` does with the words `w` after it.
pub open spec fn run_target_of(w: Seq<Seq<char>>, r: RunTarget) -> bool {
    if w.len() == 0 {
        r matches RunTarget::Syntax(m) && m@
            == "Please use this format: `^run [custom command name]`. You can also pipe with `^run [command_name] | [pipe_program]`."@
    } else if w[0] == "list"@ {
        r is List
    } else {
        r matches RunTarget::Lookup(n) && n@ == w[0]
    }
}

/// `^run` looks at its first word.
pub fn run_target(args: &Vec<String>) -> (r: RunTarget)
    ensures
        run_target_of(words(args@), r),
{
    if args.len() == 0 {
        RunTarget::Syntax(
            "Please use this format: `^run [custom command name]`. You can also pipe with `^run [command_name] | [pipe_program]`.".to_string(),
        )
    } else if same_text(args[0].as_str(), "list") {
        RunTarget::List
    } else {
        RunTarget::Lookup(args[0].clone())
    }
}

/// The reply to a pipe into a program that does not exist.
pub open spec fn unknown_program() -> Seq<char> {
    "Please pipe into one of the following programs: owo, uwu, uvu, sarcasm."@
}

/// The reply to a pipe with no program after it.
pub open spec fn pipe_syntax() -> Seq<char> {
    "The syntax for piping is: `^run [command_name] | [pipe_program]`"@
}

/// Whether the pipes from word `i` on are well formed: a program follows each `|`.
pub open spec fn pipe_ok(w: Seq<Seq<char>>, i: int) -> bool
    decreases w.len() - i,
{
    if i >= w.len() {
        false
    } else if i + 1 >= w.len() {
        true
    } else if w[i + 1] == "|"@ {
        pipe_ok(w, i + 2)
    } else {
        true
    }
}

/// The text after one program, as far as it is known: owoifying makes it unknown
/// (`None`), sarcasm changes the case, and an unknown program replaces the text by a
/// message that lists the programs.
pub open spec fn pipe_step(program: Seq<char>, text: Option<Seq<char>>) -> Option<Seq<char>> {
    if program == "owo"@ || program == "uwu"@ || program == "uvu"@ {
        None
    } else if program == "sarcasm"@ {
        match text {
            Some(t) => Some(sarcastic(t)),
            None => None,
        }
    } else {
        Some(unknown_program())
    }
}

/// The text that the pipes from word `i` on give, as far as it is known. Words after
/// a program that are not `|` are ignored.
pub open spec fn piped(text: Option<Seq<char>>, w: Seq<Seq<char>>, i: int) -> Option<Seq<char>>
    decreases w.len() - i,
{
    if i >= w.len() {
        text
    } else if i + 1 >= w.len() {
        pipe_step(w[i], text)
    } else if w[i + 1] == "|"@ {
        piped(pipe_step(w[i], text), w, i + 2)
    } else {
        pipe_step(w[i], text)
    }
}

/// What one program can make of the text: owo, uwu and uvu owoify it at their
/// level, sarcasm changes its case, and any other word replaces it by the list of the
/// programs.
pub open spec fn step_gives(program: Seq<char>, text: Seq<char>, out: Seq<char>) -> bool {
    if program == "owo"@ {
        owoify_gives(text, 0, out)
    } else if program == "uwu"@ {
        owoify_gives(text, 1, out)
    } else if program == "uvu"@ {
        owoify_gives(text, 2, out)
    } else if program == "sarcasm"@ {
        out == sarcastic(text)
    } else {
        out == unknown_program()
    }
}

/// What the pipes from word `i` on can make of the text: each program in turn, on
/// what the one before gave.
pub open spec fn pipe_gives(text: Seq<char>, w: Seq<Seq<char>>, i: int, out: Seq<char>) -> bool
    decreases w.len() - i,
{
    if i < 0 || i >= w.len() {
        out == text
    } else if i + 1 >= w.len() || w[i + 1] != "|"@ {
        step_gives(w[i], text, out)
    } else {
        exists|mid: Seq<char>| #[trigger] step_gives(w[i], text, mid) && pipe_gives(mid, w, i + 2, out)
    }
}

/// Whether every program of the pipes from word `i` on is sarcasm.
pub open spec fn only_sarcasm(w: Seq<Seq<char>>, i: int) -> bool
    decreases w.len() - i,
{
    if i < 0 || i >= w.len() {
        true
    } else if i + 1 >= w.len() || w[i + 1] != "|"@ {
        w[i] == "sarcasm"@
    } else {
        w[i] == "sarcasm"@ && only_sarcasm(w, i + 2)
    }
}

/// Piping ASCII text into sarcasm once or many times gives the text in sarcasm case.
pub proof fn lemma_sarcasm_pipes(o: Seq<char>, w: Seq<Seq<char>>, i: int)
    requires
        all_ascii(o),
        0 <= i,
        pipe_ok(w, i),
        only_sarcasm(w, i),
    ensures
        piped(Some(o), w, i) == Some(sarcastic(o)),
    decreases w.len() - i,
{
    reveal_strlit("owo");
    reveal_strlit("uwu");
    reveal_strlit("uvu");
    reveal_strlit("sarcasm");
    assert(w[i] == "sarcasm"@);
    assert(pipe_step(w[i], Some(o)) == Some(sarcastic(o)));
    if i + 1 < w.len() && w[i + 1] == "|"@ {
        let t = sarcastic(o);
        assert(piped(Some(o), w, i) == piped(Some(t), w, i + 2));
        assert(pipe_ok(w, i + 2));
        assert(only_sarcasm(w, i + 2));
        assert forall|j: int| 0 <= j < t.len() implies (#[trigger] t[j] as u32) < 128 by {
            lemma_ascii_case(o[j]);
        }
        assert(all_ascii(t));
        lemma_sarcasm_pipes(t, w, i + 2);
        lemma_sarcasm_settles(o);
        assert(sarcastic(t) == t);
    }
}

/// Runs one program on the text.
fn run_program(program: &str, text: String, known: Ghost<Option<Seq<char>>>) -> (r: String)
    requires
        known@ matches Some(k) ==> k == text@,
    ensures
        match pipe_step(program@, known@) {
            Some(k) => k == r@,
            None => true,
        },
        step_gives(program@, text@, r@),
{
    proof {
        reveal_strlit("owo");
        reveal_strlit("uwu");
        reveal_strlit("uvu");
        reveal_strlit("sarcasm");
    }
    if same_text(program, "owo") {
        owoify(text.as_str(), OwoLevel::Owo)
    } else if same_text(program, "uwu") {
        owoify(text.as_str(), OwoLevel::Uwu)
    } else if same_text(program, "uvu") {
        owoify(text.as_str(), OwoLevel::Uvu)
    } else if same_text(program, "sarcasm") {
        sarcastify(text.as_str())
    } else {
        "Please pipe into one of the following programs: owo, uwu, uvu, sarcasm.".to_string()
    }
}

/// Runs the pipes from word `i` on.
fn pipe_from(text: String, args: &Vec<String>, i: usize, known: Ghost<Option<Seq<char>>>) -> (r: Option<String>)
    requires
        known@ matches Some(k) ==> k == text@,
        i <= args.len(),
    ensures
        !pipe_ok(words(args@), i as int) ==> says(r, pipe_syntax()),
        pipe_ok(words(args@), i as int) ==> r is Some,
        pipe_ok(words(args@), i as int) ==> match piped(known@, words(args@), i as int) {
            Some(k) => says(r, k),
            None => true,
        },
        pipe_ok(words(args@), i as int) ==> (r matches Some(m) && pipe_gives(text@, words(args@), i as int, m@)),
    decreases args.len() - i,
{
    if i >= args.len() {
        return Some("The syntax for piping is: `^run [command_name] | [pipe_program]`".to_string());
    }
    assert(words(args@)[i as int] == args[i as int]@);
    let ghost next = pipe_step(args[i as int]@, known@);
    let ghost before = text@;
    let t = run_program(args[i].as_str(), text, known);
    if i + 1 >= args.len() {
        return Some(t);
    }
    assert(words(args@)[i + 1] == args[i + 1]@);
    if same_text(args[i + 1].as_str(), "|") {
        let ghost mid = t@;
        let r = pipe_from(t, args, i + 2, Ghost(next));
        proof {
            if pipe_ok(words(args@), i as int) {
                assert(step_gives(words(args@)[i as int], before, mid));
            }
        }
        r
    } else {
        Some(t)
    }
}

/// What `^run` with the words `w` (the name first) leads to, once the command's
/// output was looked up (`None` where the server has no such command); `admin` is
/// whether the one who ran it is an administrator.
pub open spec fn run_result(output: Option<Seq<char>>, w: Seq<Seq<char>>, admin: bool, r: RunOutcome) -> bool {
    match output {
        None => replies(r, "That command doesn't exist yet. Create it with `^custom`."@),
        Some(o) => if w.len() == 1 {
            replies(r, o)
        } else if w[1] == "delete"@ {
            if admin { r is Delete } else { r is Nothing }
        } else if w[1] == "|"@ {
            &&& !pipe_ok(w, 2) ==> replies(r, pipe_syntax())
            &&& pipe_ok(w, 2) ==> (r matches RunOutcome::Reply(m) && pipe_gives(o, w, 2, m@))
            &&& pipe_ok(w, 2) ==> match piped(Some(o), w, 2) {
                Some(k) => replies(r, k),
                None => true,
            }
        } else {
            replies(r, "Please use the syntax: `^run [command name]`, `^run [command name] delete`, `^run list`, or pipe it using the symbol `|`."@)
        },
    }
}

/// What `^run [name] ...` does once the command was looked up.
pub enum RunOutcome {
    /// Reply with this text.
    Reply(String),
    /// Delete the command (asked by an administrator), with no reply.
    Delete,
    /// Nothing (a delete asked by someone who is not an administrator).
    Nothing,
}

/// Whether the outcome is a reply with exactly `m`.
pub open spec fn replies(r: RunOutcome, m: Seq<char>) -> bool {
    match r {
        RunOutcome::Reply(s) => s@ == m,
        _ => false,
    }
}

/// What `^run [name] ...` does once the command was looked up: `output` is the
/// command's output, if the server has it, `args` the words after `^run`, the name
/// first, and `admin` whether the one who ran it is an administrator.
///
/// With only the name, the reply is the output. With `delete` after it, an
/// administrator deletes the command; for anyone else nothing happens. With `|` after
/// it, the output goes through each program named after a `|` in turn; of the
/// programs, owo, uwu and uvu owoify the text, sarcasm changes its case, and any other
/// word replaces it with a list of the programs. Anything else after the name is
/// answered with the command's syntax.
pub fn run_reply(output: Option<&str>, args: &Vec<String>, admin: bool) -> (r: RunOutcome)
    requires
        args.len() >= 1,
    ensures
        run_result(opt_text(output), words(args@), admin, r),
{
    match output {
        None => RunOutcome::Reply("That command doesn't exist yet. Create it with `^custom`.".to_string()),
        Some(o) => {
            if args.len() == 1 {
                RunOutcome::Reply(o.to_string())
            } else if same_text(args[1].as_str(), "delete") {
                if admin { RunOutcome::Delete } else { RunOutcome::Nothing }
            } else if same_text(args[1].as_str(), "|") {
                match pipe_from(o.to_string(), args, 2, Ghost(Some(o@))) {
                    Some(m) => RunOutcome::Reply(m),
                    None => RunOutcome::Nothing,
                }
            } else {
                RunOutcome::Reply(
                    "Please use the syntax: `^run [command name]`, `^run [command name] delete`, `^run list`, or pipe it using the symbol `|`.".to_string(),
                )
            }
        },
    }
}

} // verus!
