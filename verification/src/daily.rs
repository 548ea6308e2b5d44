//! The daily streak: one reward a day, growing with the streak, lost after a missed day.

use vstd::prelude::*;
use crate::text::{push_u64, push_i64, dec, int_text};

verus! {

/// A user's streak as the bot keeps it: the user, the date of the last daily
/// (`YYYY-MM-DD`) and the streak.
pub struct Daily {
    pub id: u64,
    pub date: String,
    pub streak: u32,
}

/// What to write to the record of the streak.
#[derive(Clone, Copy, PartialEq, Eq, Debug, Structural)]
pub enum DailyChange {
    /// Start a streak today, at 0.
    Start,
    /// Set the date to today and add one to the streak.
    Extend,
    /// Forget the streak.
    Forget,
    /// Leave it as it is.
    Keep,
}

/// What `^daily` does: the reply, the monies to add to the wallet, and the change to
/// the record of the streak.
pub struct DailyOutcome {
    pub reply: String,
    pub reward: i32,
    pub change: DailyChange,
}

/// The reward for the day number `days` of a streak: 10 monies a day, at most 500.
pub open spec fn reward_for(days: int) -> int {
    if days <= 50 { days * 10 } else { 500 }
}

/// The answer to `^daily` for the last daily (its date and the streak then), if any,
/// and the dates of today and yesterday.
pub open spec fn daily_spec(last: Option<(Seq<char>, u64)>, today: Seq<char>, yesterday: Seq<char>) -> (Seq<char>, int, DailyChange) {
    match last {
        None => ("Daily complete! This is day 0. You got **10** monies."@, 10, DailyChange::Start),
        Some((date, streak)) => if date != today {
            if date == yesterday {
                let days = streak + 1;
                ("Daily complete! This is day "@ + dec(days as nat) + ". You got **"@ + int_text(reward_for(days))
                    + "** monies."@, reward_for(days), DailyChange::Extend)
            } else {
                ("Streak lost! Your streak was "@ + dec(streak as nat) + ". Run ^daily again to start again."@, 0,
                    DailyChange::Forget)
            }
        } else {
            ("Sorry, you have already done your daily for today. Your current streak is "@ + dec(streak as nat) + "."@, 0,
                DailyChange::Keep)
        },
    }
}

/// Decides `^daily` from the last daily (its date and the streak then), if any,
/// and the dates of today and yesterday.
pub fn daily_step(last: Option<(&str, u64)>, today: &str, yesterday: &str) -> (r: DailyOutcome)
    requires
        match last { Some((d, s)) => d@ == yesterday@ && d@ != today@ ==> s < u64::MAX, None => true },
    ensures
        (r.reply@, r.reward as int, r.change) == daily_spec(match last { Some((d, s)) => Some((d@, s)), None => None }, today@, yesterday@),
{
    match last {
        None => DailyOutcome {
            reply: "Daily complete! This is day 0. You got **10** monies.".to_string(),
            reward: 10,
            change: DailyChange::Start,
        },
        Some((date, streak)) => {
            let d = date.to_string();
            if d != today.to_string() {
                if d == yesterday.to_string() {
                    let days = streak + 1;
                    let to_increment: i32 = if days <= 50 { days as i32 * 10 } else { 500 };
                    let mut reply = "Daily complete! This is day ".to_string();
                    push_u64(&mut reply, days);
                    reply.append(". You got **");
                    push_i64(&mut reply, to_increment as i64);
                    reply.append("** monies.");
                    DailyOutcome { reply, reward: to_increment, change: DailyChange::Extend }
                } else {
                    let mut reply = "Streak lost! Your streak was ".to_string();
                    push_u64(&mut reply, streak);
                    reply.append(". Run ^daily again to start again.");
                    DailyOutcome { reply, reward: 0, change: DailyChange::Forget }
                }
            } else {
                let mut reply = "Sorry, you have already done your daily for today. Your current streak is ".to_string();
                push_u64(&mut reply, streak);
                reply.append(".");
                DailyOutcome { reply, reward: 0, change: DailyChange::Keep }
            }
        },
    }
}

/// `^daily` with the streak record of the user, if there is one. The streak is a
/// `u32`, so a streak at `u32::MAX` cannot be extended.
pub fn daily(record: Option<&Daily>, today: &str, yesterday: &str) -> (r: DailyOutcome)
    requires
        match record { Some(rec) => rec.date@ == yesterday@ && rec.date@ != today@ ==> rec.streak < u32::MAX, None => true },
    ensures
        (r.reply@, r.reward as int, r.change) == daily_spec(match record { Some(rec) => Some((rec.date@, rec.streak as u64)), None => None }, today@, yesterday@),
{
    match record {
        Some(rec) => daily_step(Some((rec.date.as_str(), rec.streak as u64)), today, yesterday),
        None => daily_step(None, today, yesterday),
    }
}

/// The reward of a daily never exceeds 500 monies and is at least 10 when it is paid.
pub proof fn lemma_daily_reward_bounded(last: Option<(Seq<char>, u64)>, today: Seq<char>, yesterday: Seq<char>)
    ensures
        0 <= daily_spec(last, today, yesterday).1 <= 500,
        daily_spec(last, today, yesterday).2 == DailyChange::Start || daily_spec(last, today, yesterday).2 == DailyChange::Extend
            ==> daily_spec(last, today, yesterday).1 >= 10,
        daily_spec(last, today, yesterday).2 == DailyChange::Forget || daily_spec(last, today, yesterday).2 == DailyChange::Keep
            ==> daily_spec(last, today, yesterday).1 == 0,
{
}

/// The last daily (its date and the streak then) after a change was written for a
/// daily done on `today`.
pub open spec fn record_after(last: Option<(Seq<char>, u64)>, change: DailyChange, today: Seq<char>) -> Option<(Seq<char>, u64)> {
    match change {
        DailyChange::Start => Some((today, 0)),
        DailyChange::Extend => match last {
            Some((_, streak)) => Some((today, (streak + 1) as u64)),
            None => None,
        },
        DailyChange::Forget => None,
        DailyChange::Keep => last,
    }
}

/// The daily is once a day and a lost streak starts again: after a daily that pays
/// (a start or an extension), another on the same day pays nothing and keeps the
/// streak; one on the next day extends it by one; and after a streak is lost the
/// next daily starts a new one, paying 10 monies.
pub proof fn lemma_daily_sequence(last: Option<(Seq<char>, u64)>, today: Seq<char>, yesterday: Seq<char>, tomorrow: Seq<char>)
    requires
        today != yesterday,
        tomorrow != today,
        match last { Some((_, s)) => s < u64::MAX, None => true },
    ensures
        ({
            let first = daily_spec(last, today, yesterday);
            let next = record_after(last, first.2, today);
            &&& (first.2 == DailyChange::Start || first.2 == DailyChange::Extend) ==> {
                &&& daily_spec(next, today, yesterday).2 == DailyChange::Keep
                &&& daily_spec(next, today, yesterday).1 == 0
                &&& daily_spec(next, tomorrow, today).2 == DailyChange::Extend
                &&& daily_spec(next, tomorrow, today).1 == reward_for(match next { Some((_, s)) => s + 1, None => 0 })
            }
            &&& first.2 == DailyChange::Forget ==> daily_spec(next, today, yesterday).2 == DailyChange::Start
                && daily_spec(next, today, yesterday).1 == 10
        }),
{
}

/// The content of the last line and the total number of lines, as the file-based
/// daily reads a user's file (an empty file has no line and an empty last line).
pub open spec fn last_line_spec(lines: Seq<Seq<char>>) -> (Seq<char>, int) {
    if lines.len() == 0 { (Seq::empty(), 0) } else { (lines.last(), lines.len() as int) }
}

/// Returns the content of the last line and the total number of lines.
pub fn get_content_of_last_line(lines: &Vec<String>) -> (r: (String, usize))
    ensures
        (r.0@, r.1 as int) == last_line_spec(lines@.map_values(|l: String| l@)),
{
    let mut content_of_last_line = String::new();
    let mut i: usize = 0;
    while i < lines.len()
        invariant
            i <= lines@.len(),
            i == 0 ==> content_of_last_line@ == Seq::<char>::empty(),
            i > 0 ==> content_of_last_line@ == lines@[i - 1]@,
        decreases lines.len() - i,
    {
        content_of_last_line = lines[i].clone();
        i = i + 1;
    }
    (content_of_last_line, lines.len())
}

/// The file-based `^daily`: a file just made starts the streak; otherwise its last
/// line is the date of the last daily and its number of lines the streak.
pub fn daily_from_file(new: bool, last_line: &str, amount_of_lines: usize, today: &str, yesterday: &str) -> (r: DailyOutcome)
    requires
        !new && last_line@ == yesterday@ && last_line@ != today@ ==> amount_of_lines < usize::MAX,
    ensures
        (r.reply@, r.reward as int, r.change) == daily_spec(if new { None } else { Some((last_line@, amount_of_lines as u64)) }, today@, yesterday@),
{
    if new {
        daily_step(None, today, yesterday)
    } else {
        daily_step(Some((last_line, amount_of_lines as u64)), today, yesterday)
    }
}

} // verus!
