use cafebot::command_table::{custom_in, run_in, CommandTable};
use cafebot::custom::{CustomOutcome, RunOutcome};

fn words(ws: &[&str]) -> Vec<String> {
    ws.iter().map(|w| w.to_string()).collect()
}

fn reply(r: RunOutcome) -> String {
    match r {
        RunOutcome::Reply(m) => m,
        _ => panic!("a reply was expected"),
    }
}

#[test]
fn a_stored_command_answers_with_its_output() {
    let mut t = CommandTable { rows: Vec::new() };
    let r = custom_in(&mut t, Some("bruh"), "bruh moment");
    assert!(matches!(r, CustomOutcome::Created(m)
        if m == "**DB Success:** custom command *bruh* created with the output *bruh moment*."));
    assert_eq!(t.rows, vec![("bruh".to_string(), "bruh moment".to_string())]);
    custom_in(&mut t, Some("hi"), "hello");
    assert_eq!(reply(run_in(&mut t, &words(&["bruh"]), false)), "bruh moment");
    assert_eq!(reply(run_in(&mut t, &words(&["hi"]), false)), "hello");
    assert_eq!(t.output_of("bruh"), Some("bruh moment".to_string()));
    assert_eq!(t.names(), vec!["bruh".to_string(), "hi".to_string()]);
}

#[test]
fn a_name_is_stored_once() {
    let mut t = CommandTable { rows: Vec::new() };
    custom_in(&mut t, Some("bruh"), "first");
    let r = custom_in(&mut t, Some("bruh"), "second");
    assert!(matches!(r, CustomOutcome::Refused(m) if m == "That command already exists."));
    assert_eq!(reply(run_in(&mut t, &words(&["bruh"]), false)), "first");
    let r = custom_in(&mut t, None, "");
    assert!(matches!(r, CustomOutcome::Refused(m) if m == "Please enter command in this format: `^custom [command] [output]`."));
    assert_eq!(t.rows.len(), 1);
}

#[test]
fn only_an_admin_deletes() {
    let mut t = CommandTable { rows: Vec::new() };
    custom_in(&mut t, Some("bruh"), "bruh moment");
    custom_in(&mut t, Some("hi"), "hello");
    assert!(matches!(run_in(&mut t, &words(&["bruh", "delete"]), false), RunOutcome::Nothing));
    assert_eq!(t.rows.len(), 2);
    assert!(matches!(run_in(&mut t, &words(&["bruh", "delete"]), true), RunOutcome::Delete));
    assert_eq!(t.rows, vec![("hi".to_string(), "hello".to_string())]);
    assert_eq!(
        reply(run_in(&mut t, &words(&["bruh"]), false)),
        "That command doesn't exist yet. Create it with `^custom`."
    );
    assert_eq!(reply(run_in(&mut t, &words(&["hi"]), false)), "hello");
}

#[test]
fn a_stored_command_pipes() {
    let mut t = CommandTable { rows: Vec::new() };
    custom_in(&mut t, Some("bruh"), "bruh moment");
    assert_eq!(reply(run_in(&mut t, &words(&["bruh", "|", "sarcasm"]), false)), "bRuH mOmEnT");
    assert_eq!(t.output_of("bruh"), Some("bruh moment".to_string()));
}
