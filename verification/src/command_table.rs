//! A server's custom commands as a table: each row a name and its output, in the
//! order they were stored. `^custom` adds rows, `^run` reads them and deletes them.

use vstd::prelude::*;
use crate::custom::{
    same_text, custom_outcome, run_reply, run_target_of, run_result, words, refused, created, created_text, replies,
    CustomOutcome, RunOutcome, RunTarget,
};

verus! {

/// A server's custom commands: rows of a name and its output.
pub struct CommandTable {
    pub rows: Vec<(String, String)>,
}

impl View for CommandTable {
    type V = Seq<(Seq<char>, Seq<char>)>;

    open spec fn view(&self) -> Seq<(Seq<char>, Seq<char>)> {
        rows_view(self.rows@)
    }
}

/// The rows as text.
pub open spec fn rows_view(rows: Seq<(String, String)>) -> Seq<(Seq<char>, Seq<char>)> {
    rows.map_values(|row: (String, String)| (row.0@, row.1@))
}

/// The output of the first row named `n`, if there is one.
pub open spec fn lookup(t: Seq<(Seq<char>, Seq<char>)>, n: Seq<char>) -> Option<Seq<char>>
    decreases t.len(),
{
    if t.len() == 0 {
        None
    } else {
        match lookup(t.drop_last(), n) {
            Some(o) => Some(o),
            None => if t.last().0 == n { Some(t.last().1) } else { None },
        }
    }
}

/// The rows that are not named `n`, in their order.
pub open spec fn without(t: Seq<(Seq<char>, Seq<char>)>, n: Seq<char>) -> Seq<(Seq<char>, Seq<char>)>
    decreases t.len(),
{
    if t.len() == 0 {
        Seq::empty()
    } else if t.last().0 == n {
        without(t.drop_last(), n)
    } else {
        without(t.drop_last(), n).push(t.last())
    }
}

/// A name found in the first `k` rows is found in the whole table with the same
/// output.
proof fn lemma_lookup_prefix(t: Seq<(Seq<char>, Seq<char>)>, k: int, n: Seq<char>)
    requires
        0 <= k <= t.len(),
        lookup(t.take(k), n) is Some,
    ensures
        lookup(t, n) == lookup(t.take(k), n),
    decreases t.len(),
{
    if k == t.len() {
        assert(t.take(k) =~= t);
    } else {
        assert(t.drop_last().take(k) =~= t.take(k));
        lemma_lookup_prefix(t.drop_last(), k, n);
    }
}

/// Storing a row keeps what every name answered, and a name that had no row now
/// answers with the new row's output if it is the new row's name.
pub proof fn lemma_lookup_push(t: Seq<(Seq<char>, Seq<char>)>, row: (Seq<char>, Seq<char>), n: Seq<char>)
    ensures
        lookup(t.push(row), n) == (match lookup(t, n) {
            Some(o) => Some(o),
            None => if row.0 == n { Some(row.1) } else { None },
        }),
{
    assert(t.push(row).drop_last() =~= t);
}

/// Deleting the rows named `n` leaves `n` with no output and every other name with
/// the output it had.
pub proof fn lemma_lookup_without(t: Seq<(Seq<char>, Seq<char>)>, n: Seq<char>, m: Seq<char>)
    ensures
        lookup(without(t, n), m) == (if m == n { None } else { lookup(t, m) }),
    decreases t.len(),
{
    if t.len() > 0 {
        lemma_lookup_without(t.drop_last(), n, m);
        if t.last().0 != n {
            lemma_lookup_push(without(t.drop_last(), n), t.last(), m);
        }
    }
}

impl CommandTable {
    /// The output of the command named `name`, if the server has it.
    pub fn output_of(&self, name: &str) -> (r: Option<String>)
        ensures
            match r {
                Some(o) => lookup(self@, name@) == Some(o@),
                None => lookup(self@, name@) is None,
            },
    {
        let mut i: usize = 0;
        while i < self.rows.len()
            invariant
                i <= self.rows.len(),
                lookup(self@.take(i as int), name@) is None,
            decreases self.rows.len() - i,
        {
            assert(self@.take(i + 1).drop_last() =~= self@.take(i as int));
            assert(self@[i as int] == (self.rows@[i as int].0@, self.rows@[i as int].1@));
            if same_text(self.rows[i].0.as_str(), name) {
                let o = self.rows[i].1.clone();
                proof {
                    lemma_lookup_prefix(self@, i + 1, name@);
                }
                return Some(o);
            }
            i = i + 1;
        }
        assert(self@.take(self.rows.len() as int) =~= self@);
        None
    }
}

impl CommandTable {
    /// Stores a command at the end of the table.
    pub fn add(&mut self, name: String, output: String)
        ensures
            final(self)@ == old(self)@.push((name@, output@)),
    {
        self.rows.push((name, output));
        assert(self@ =~= old(self)@.push((name@, output@)));
    }

    /// Deletes every row named `name`.
    pub fn remove(&mut self, name: &str)
        ensures
            final(self)@ == without(old(self)@, name@),
    {
        let kept = kept_rows(&self.rows, name);
        self.rows = kept;
    }

    /// The names of the commands, in the table's order.
    pub fn names(&self) -> (r: Vec<String>)
        ensures
            r@.len() == self@.len(),
            forall|i: int| 0 <= i < r@.len() ==> #[trigger] r@[i]@ == self@[i].0,
    {
        let mut r: Vec<String> = Vec::new();
        let mut i: usize = 0;
        while i < self.rows.len()
            invariant
                i <= self.rows.len(),
                r@.len() == i,
                forall|j: int| 0 <= j < i ==> #[trigger] r@[j]@ == self@[j].0,
            decreases self.rows.len() - i,
        {
            assert(self@[i as int] == (self.rows@[i as int].0@, self.rows@[i as int].1@));
            r.push(self.rows[i].0.clone());
            i = i + 1;
        }
        r
    }
}

/// The rows not named `name`.
fn kept_rows(rows: &Vec<(String, String)>, name: &str) -> (r: Vec<(String, String)>)
    ensures
        rows_view(r@) == without(rows_view(rows@), name@),
{
    let mut r: Vec<(String, String)> = Vec::new();
    let mut i: usize = 0;
    while i < rows.len()
        invariant
            i <= rows.len(),
            rows_view(r@) == without(rows_view(rows@).take(i as int), name@),
        decreases rows.len() - i,
    {
        let ghost t = rows_view(rows@);
        assert(t.take(i + 1).drop_last() =~= t.take(i as int));
        assert(t[i as int] == (rows@[i as int].0@, rows@[i as int].1@));
        if !same_text(rows[i].0.as_str(), name) {
            let row = (rows[i].0.clone(), rows[i].1.clone());
            let ghost before = r@;
            r.push(row);
            assert(rows_view(r@) =~= rows_view(before).push(t[i as int]));
        }
        i = i + 1;
    }
    assert(rows_view(rows@).take(rows.len() as int) =~= rows_view(rows@));
    r
}

/// `^custom [name] [output]` on the server's table: `name` is the first word, if
/// there is one, and `output` the rest of the message. A name that the table does
/// not hold yet is stored with its output at the end; otherwise the table stays.
pub fn custom_in(table: &mut CommandTable, name: Option<&str>, output: &str) -> (r: CustomOutcome)
    ensures
        match name {
            None => refused(r, "Please enter command in this format: `^custom [command] [output]`."@)
                && final(table)@ == old(table)@,
            Some(n) => if lookup(old(table)@, n@) is Some {
                refused(r, "That command already exists."@) && final(table)@ == old(table)@
            } else {
                created(r, created_text(n@, output@)) && final(table)@ == old(table)@.push((n@, output@))
            },
        },
        name matches Some(n) ==> lookup(final(table)@, n@) is Some,
        forall|m: Seq<char>| #[trigger] lookup(old(table)@, m) is Some ==> lookup(final(table)@, m) == lookup(old(table)@, m),
        forall|m: Seq<char>| (name matches Some(n) ==> m != n@) ==> #[trigger] lookup(final(table)@, m) == lookup(old(table)@, m),
{
    match name {
        None => custom_outcome(None, false, output),
        Some(n) => {
            let exists = table.output_of(n).is_some();
            let r = custom_outcome(Some(n), exists, output);
            if !exists {
                table.add(n.to_string(), output.to_string());
                proof {
                    assert forall|m: Seq<char>| true implies #[trigger] lookup(table@, m) == (match lookup(old(table)@, m) {
                        Some(o) => Some(o),
                        None => if n@ == m { Some(output@) } else { None },
                    }) by {
                        lemma_lookup_push(old(table)@, (n@, output@), m);
                    }
                }
            }
            r
        },
    }
}

/// `^run [name] ...` on the server's table, for a first word that is not `list`:
/// the command is looked up and run; an administrator's `delete` deletes it.
pub fn run_in(table: &mut CommandTable, args: &Vec<String>, admin: bool) -> (r: RunOutcome)
    requires
        args.len() >= 1,
    ensures
        run_result(lookup(old(table)@, args[0]@), words(args@), admin, r),
        r is Delete ==> final(table)@ == without(old(table)@, args[0]@),
        !(r is Delete) ==> final(table)@ == old(table)@,
        forall|m: Seq<char>| m != args[0]@ ==> #[trigger] lookup(final(table)@, m) == lookup(old(table)@, m),
{
    let output = table.output_of(args[0].as_str());
    let r = match &output {
        Some(o) => run_reply(Some(o.as_str()), args, admin),
        None => run_reply(None, args, admin),
    };
    if let RunOutcome::Delete = r {
        table.remove(args[0].as_str());
        proof {
            assert forall|m: Seq<char>| m != args[0]@ implies #[trigger] lookup(table@, m) == lookup(old(table)@, m) by {
                lemma_lookup_without(old(table)@, args[0]@, m);
            }
        }
    }
    r
}

/// What a stored command answers: where the table holds `n` with the output `o`,
/// `^run n` with nothing after the name replies exactly `o`.
pub proof fn lemma_stored_command_answers(t: Seq<(Seq<char>, Seq<char>)>, n: Seq<char>, o: Seq<char>, admin: bool, r: RunOutcome)
    requires
        lookup(t, n) == Some(o),
        run_result(lookup(t, n), seq![n], admin, r),
    ensures
        replies(r, o),
{
    assert(seq![n].len() == 1);
}

/// A stored command answers with its output: once `^custom` stored a new name `n`
/// with the output `o`, and as long as `n` is not deleted, `^run n` (with nothing
/// after the name, and `n` not `list`) replies exactly `o`. Storing other commands
/// or deleting other names in between changes nothing of it.
pub proof fn lemma_custom_then_run(
    t: Seq<(Seq<char>, Seq<char>)>,
    n: Seq<char>,
    o: Seq<char>,
    others: Seq<(Seq<char>, Seq<char>)>,
    deleted: Seq<char>,
    admin: bool,
    target: RunTarget,
    r: RunOutcome,
)
    requires
        lookup(t, n) is None,
        n != "list"@,
        deleted != n,
        run_target_of(seq![n], target),
        run_result(lookup(without(t.push((n, o)) + others, deleted), n), seq![n], admin, r),
    ensures
        target matches RunTarget::Lookup(m) && m@ == n,
        replies(r, o),
{
    let stored = t.push((n, o));
    lemma_lookup_push(t, (n, o), n);
    lemma_lookup_append(stored, others, n);
    lemma_lookup_without(stored + others, deleted, n);
    assert(seq![n].len() == 1);
}

/// Rows stored after a name was found do not change what it answers.
pub proof fn lemma_lookup_append(t: Seq<(Seq<char>, Seq<char>)>, more: Seq<(Seq<char>, Seq<char>)>, n: Seq<char>)
    requires
        lookup(t, n) is Some,
    ensures
        lookup(t + more, n) == lookup(t, n),
{
    assert((t + more).take(t.len() as int) =~= t);
    lemma_lookup_prefix(t + more, t.len() as int, n);
}

} // verus!
