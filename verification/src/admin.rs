//! The administrator commands: who is an administrator, the bot's status and the
//! slow mode of a channel.

use vstd::prelude::*;
use crate::message_change::{bold_safe, bold_safe_inner};
use crate::text::{push_u64, dec};

verus! {

/// Whether a member is an administrator: some role of theirs has the administrator
/// permission. `roles` holds, for each role of the member, whether it has that
/// permission (a role that is not known counts as not having it); a message from
/// outside a server has no member and so no roles.
pub fn is_admin(roles: &Vec<bool>) -> (b: bool)
    ensures
        b <==> exists|i: int| 0 <= i < roles.len() && #[trigger] roles[i],
{
    let mut i: usize = 0;
    while i < roles.len()
        invariant
            i <= roles.len(),
            forall|j: int| 0 <= j < i ==> !#[trigger] roles[j],
        decreases roles.len() - i,
    {
        if roles[i] {
            return true;
        }
        i = i + 1;
    }
    false
}

/// What `^admin_test` answers.
pub fn admin_test_reply(admin: bool) -> (r: &'static str)
    ensures
        r@ == (if admin { "You are an admin."@ } else { "You are not an admin."@ }),
{
    if admin { "You are an admin." } else { "You are not an admin." }
}

/// What the admin commands answer someone who is not an administrator.
pub fn not_admin_reply() -> (r: &'static str)
    ensures
        r@ == "You can't run that command."@,
{
    "You can't run that command."
}

/// What `^status [text]` answers an administrator: the status, `Playing` and the
/// text, in bold and made safe.
pub fn status_reply(name: &str) -> (r: String)
    ensures
        r@ == "Status has been set to **Playing** "@ + "**"@ + bold_safe_inner(name@) + "**"@,
{
    let mut r = "Status has been set to ".to_string();
    let playing = bold_safe("Playing");
    proof {
        reveal_strlit("Playing");
        assert forall|i: int| 0 <= i < "Playing"@.len() implies crate::message_change::is_alnum(#[trigger] "Playing"@[i]) by {
        }
    }
    r.append(playing.as_str());
    r.append(" ");
    let n = bold_safe(name);
    r.append(n.as_str());
    proof {
        reveal_strlit("**");
        reveal_strlit("Status has been set to ");
        reveal_strlit(" ");
        reveal_strlit("Status has been set to **Playing** ");
    }
    assert(r@ =~= "Status has been set to **Playing** "@ + "**"@ + bold_safe_inner(name@) + "**"@);
    r
}

/// What `^slow_mode` does.
pub enum SlowMode {
    /// The user is no administrator: reply with this and change nothing.
    Refuse(&'static str),
    /// Set the channel's slow mode to this many seconds.
    Change(u64),
    /// Tell the channel's current slow mode.
    Show,
}

/// `^slow_mode [seconds]`: only an administrator may use it. With a number of
/// seconds the slow mode is set, without one (or with a word that is no `u64`) the
/// current one is told.
pub fn slow_mode_plan(admin: bool, seconds: Option<u64>) -> (r: SlowMode)
    ensures
        !admin ==> (r matches SlowMode::Refuse(m) && m@ == "You can't run that command."@),
        admin ==> match seconds {
            Some(s) => r == SlowMode::Change(s),
            None => r == SlowMode::Show,
        },
{
    if !admin {
        return SlowMode::Refuse(not_admin_reply());
    }
    match seconds {
        Some(s) => SlowMode::Change(s),
        None => SlowMode::Show,
    }
}

/// The answer once the slow mode was set: `failure` is the error the server gave,
/// if it gave one.
pub fn slow_mode_set_reply(seconds: u64, failure: Option<&str>) -> (r: String)
    ensures
        match failure {
            Some(why) => r@ == "Failed to set slow mode to `"@ + dec(seconds as nat) + "` seconds. because "@ + why@,
            None => r@ == "Successfully set slow mode rate to `"@ + dec(seconds as nat) + "` seconds."@,
        },
{
    match failure {
        Some(why) => {
            let mut r = "Failed to set slow mode to `".to_string();
            push_u64(&mut r, seconds);
            r.append("` seconds. because ");
            r.append(why);
            r
        },
        None => {
            let mut r = "Successfully set slow mode rate to `".to_string();
            push_u64(&mut r, seconds);
            r.append("` seconds.");
            r
        },
    }
}

/// The answer that tells the current slow mode: `rate` is the channel's rate, if
/// the channel was found among the known ones (no rate counts as 0).
pub fn slow_mode_show_reply(rate: Option<Option<u64>>) -> (r: String)
    ensures
        match rate {
            Some(s) => r@ == "Current slow mode rate is `"@ + dec(match s { Some(x) => x as nat, None => 0 })
                + "` seconds."@,
            None => r@ == "Failed to find channel in cache."@,
        },
{
    match rate {
        Some(s) => {
            let secs: u64 = match s {
                Some(x) => x,
                None => 0,
            };
            let mut r = "Current slow mode rate is `".to_string();
            push_u64(&mut r, secs);
            r.append("` seconds.");
            r
        },
        None => "Failed to find channel in cache.".to_string(),
    }
}

} // verus!
