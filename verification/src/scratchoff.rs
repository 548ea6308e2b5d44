//! Scratch-off tickets: pick a tier, scratch, and win monies.

use vstd::prelude::*;
use crate::actions::EditContent;
use crate::economy::{Account, ScratchOff, money_increment};
use crate::random::random_i32;
use crate::text::{push_u64, push_i64, dec, int_text};

verus! {

/// What a reaction on the scratch-off menu picks.
#[derive(Clone, Copy, PartialEq, Eq, Debug, Structural)]
pub enum ScratchChoice {
    /// 🇦, 🇧 or 🇨: the tier 1, 2 or 3.
    Tier(i32),
    /// 🛑: leave.
    Stop,
}

pub open spec fn choice_of(emoji: Seq<char>) -> Option<ScratchChoice> {
    if emoji == "🇦"@ { Some(ScratchChoice::Tier(1)) }
    else if emoji == "🇧"@ { Some(ScratchChoice::Tier(2)) }
    else if emoji == "🇨"@ { Some(ScratchChoice::Tier(3)) }
    else if emoji == "🛑"@ { Some(ScratchChoice::Stop) }
    else { None }
}

/// Reads what a reaction on the menu picks.
pub fn scratch_choice(emoji: &str) -> (r: Option<ScratchChoice>)
    ensures
        r == choice_of(emoji@),
{
    let e = emoji.to_string();
    if e == "🇦".to_string() {
        Some(ScratchChoice::Tier(1))
    } else if e == "🇧".to_string() {
        Some(ScratchChoice::Tier(2))
    } else if e == "🇨".to_string() {
        Some(ScratchChoice::Tier(3))
    } else if e == "🛑".to_string() {
        Some(ScratchChoice::Stop)
    } else {
        None
    }
}

pub open spec fn menu_description(so: ScratchOff) -> Seq<char> {
    "Please pick which tier you want to scratch off!\n    A - Tier 1 (You have "@ + dec(so.tier1 as nat)
        + ")\n    B - Tier 2 (You have "@ + dec(so.tier2 as nat) + ")\n    C - Tier 3 (You have "@ + dec(so.tier3 as nat)
        + ")\n\n    You can buy more scratch-off tickets in the shop using `^shop`."@
}

/// The menu: the tickets the user holds of each tier.
pub fn scratch_menu(so: ScratchOff) -> (r: EditContent)
    ensures
        r.title@ == "__CafeBot Scratch-Off__"@,
        r.description@ == menu_description(so),
{
    let mut d = "Please pick which tier you want to scratch off!\n    A - Tier 1 (You have ".to_string();
    push_u64(&mut d, so.tier1 as u64);
    d.append(")\n    B - Tier 2 (You have ");
    push_u64(&mut d, so.tier2 as u64);
    d.append(")\n    C - Tier 3 (You have ");
    push_u64(&mut d, so.tier3 as u64);
    d.append(")\n\n    You can buy more scratch-off tickets in the shop using `^shop`.");
    EditContent { title: "__CafeBot Scratch-Off__".to_string(), description: d }
}

/// The tickets of a tier that the user holds.
pub open spec fn held(so: ScratchOff, tier: i32) -> u32 {
    if tier == 1 { so.tier1 } else if tier == 2 { so.tier2 } else { so.tier3 }
}

/// The tickets of a tier that the user holds.
pub fn tickets_held(so: ScratchOff, tier: i32) -> (n: u32)
    requires
        1 <= tier <= 3,
    ensures
        n == held(so, tier),
{
    if tier == 1 { so.tier1 } else if tier == 2 { so.tier2 } else { so.tier3 }
}

/// The range the base prize is drawn from for a roll from 0 to 100: a third of the
/// rolls give under 100, a third 100 to 199, and the rarer ones more; a roll of 100
/// gives exactly 500.
pub open spec fn prize_band(roll: int) -> (int, int) {
    if roll <= 33 { (0, 100) }
    else if roll <= 67 { (100, 200) }
    else if roll <= 89 { (200, 300) }
    else if roll <= 96 { (300, 350) }
    else if roll <= 99 { (350, 400) }
    else { (500, 501) }
}

/// Whether `base` lies in the band of `roll`.
pub open spec fn in_band(roll: int, base: int) -> bool {
    prize_band(roll).0 <= base < prize_band(roll).1
}

/// How much a tier multiplies the base prize: 1, 2 or 4.
pub open spec fn multiplier(tier: i32) -> int {
    if tier == 1 { 1 } else if tier == 2 { 2 } else { 4 }
}

/// Whether a ticket of a tier can win `win`: some roll from 0 to 100 and some base
/// prize in that roll's band give it, times the tier's multiplier.
pub open spec fn can_win(tier: i32, win: int) -> bool {
    exists|roll: int, base: int|
        0 <= roll <= 100 && #[trigger] in_band(roll, base) && win == multiplier(tier) * base
}

/// The band the base prize is drawn from for a roll from 0 to 100.
pub fn prize_range(roll: i32) -> (r: (i32, i32))
    requires
        0 <= roll <= 100,
    ensures
        (r.0 as int, r.1 as int) == prize_band(roll as int),
{
    if roll <= 33 {
        (0, 100)
    } else if roll <= 67 {
        (100, 200)
    } else if roll <= 89 {
        (200, 300)
    } else if roll <= 96 {
        (300, 350)
    } else if roll <= 99 {
        (350, 400)
    } else {
        (500, 501)
    }
}

/// The base prize for a roll from 0 to 100: drawn from the roll's band.
pub fn base_prize(roll: i32) -> (base: i32)
    requires
        0 <= roll <= 100,
    ensures
        in_band(roll as int, base as int),
{
    let (lo, hi) = prize_range(roll);
    if hi - lo == 1 {
        lo
    } else {
        random_i32(lo, hi)
    }
}

/// The prize of a ticket of a tier for a roll from 0 to 100: a base prize drawn
/// from the roll's band, times the tier's multiplier.
pub fn prize_for_roll(tier: i32, roll: i32) -> (win: i32)
    requires
        1 <= tier <= 3,
        0 <= roll <= 100,
    ensures
        exists|base: int| #[trigger] in_band(roll as int, base) && win == multiplier(tier) * base,
{
    let base = base_prize(roll);
    let win = if tier == 1 { base } else if tier == 2 { base * 2 } else { base * 4 };
    assert(in_band(roll as int, base as int) && win == multiplier(tier) * base);
    win
}

/// The prize of a ticket of a tier: a roll from 0 to 100 is drawn, and the prize
/// is that of the roll.
pub fn scratch_prize(tier: i32) -> (win: i32)
    requires
        1 <= tier <= 3,
    ensures
        can_win(tier, win as int),
{
    let roll = random_i32(0, 101);
    let win = prize_for_roll(tier, roll);
    proof {
        let base = choose|base: int| #[trigger] in_band(roll as int, base) && win == multiplier(tier) * base;
        assert(in_band(roll as int, base));
    }
    win
}

/// A ticket never wins less than nothing, nor more than 500 monies times its tier's
/// multiplier (2000 for tier 3).
pub proof fn lemma_prize_bounded(tier: i32, roll: int, base: int)
    requires
        1 <= tier <= 3,
        0 <= roll <= 100,
        in_band(roll, base),
    ensures
        0 <= multiplier(tier) * base <= 500 * multiplier(tier),
        multiplier(tier) * base <= 2000,
{
    assert(0 <= base <= 500);
    if tier == 1 {
        assert(multiplier(tier) * base == base);
    } else if tier == 2 {
        assert(multiplier(tier) * base == 2 * base);
    } else {
        assert(multiplier(tier) * base == 4 * base);
    }
}

/// The tickets left after one of a tier is used.
pub open spec fn used(so: ScratchOff, tier: i32) -> ScratchOff {
    if tier == 1 {
        ScratchOff { tier1: (so.tier1 - 1) as u32, ..so }
    } else if tier == 2 {
        ScratchOff { tier2: (so.tier2 - 1) as u32, ..so }
    } else {
        ScratchOff { tier3: (so.tier3 - 1) as u32, ..so }
    }
}

/// Scratches a ticket of a tier: the ticket is used up and the prize goes to the
/// wallet.
pub fn use_ticket(account: &mut Account, pool: &mut i64, tier: i32, win: i32)
    requires
        1 <= tier <= 3,
        held(old(account).so, tier) > 0,
        0 <= win,
        old(account).money + win <= i64::MAX,
    ensures
        final(account).money == old(account).money + win,
        *final(pool) == *old(pool),
        final(account).so == used(old(account).so, tier),
        final(account).tickets == old(account).tickets,
        final(account).incr_amount == old(account).incr_amount,
{
    if tier == 1 {
        account.so.tier1 = account.so.tier1 - 1;
    } else if tier == 2 {
        account.so.tier2 = account.so.tier2 - 1;
    } else {
        account.so.tier3 = account.so.tier3 - 1;
    }
    money_increment(account, pool, win);
}

pub open spec fn prize_text(tier: i32, win: int) -> Seq<char> {
    "Your **Tier "@ + int_text(tier as int) + " Scratch-Off Ticket** won you **"@ + int_text(win) + "** monies!"@
}

/// The embed after a ticket was scratched.
pub fn prize_content(tier: i32, win: i32) -> (r: EditContent)
    ensures
        r.title@ == "Congratulations!"@,
        r.description@ == prize_text(tier, win as int),
{
    let mut d = "Your **Tier ".to_string();
    push_i64(&mut d, tier as i64);
    d.append(" Scratch-Off Ticket** won you **");
    push_i64(&mut d, win as i64);
    d.append("** monies!");
    EditContent { title: "Congratulations!".to_string(), description: d }
}

/// The embed when the user holds no ticket of the tier picked.
pub fn no_ticket_content() -> (r: EditContent)
    ensures
        r.title@ == "You don't have any of that ticket tier!"@,
        r.description@ == "You can buy some in the shop using `^shop`."@,
{
    EditContent {
        title: "You don't have any of that ticket tier!".to_string(),
        description: "You can buy some in the shop using `^shop`.".to_string(),
    }
}

/// Scratches a ticket of the tier picked, if the user holds one: the ticket is used
/// up, a prize the tier can win goes to the wallet, and the embed says what was won.
/// A user with no ticket of the tier is told so and keeps the account as it was.
pub fn scratch(account: &mut Account, pool: &mut i64, tier: i32) -> (r: EditContent)
    requires
        1 <= tier <= 3,
        old(account).money + 2000 <= i64::MAX,
    ensures
        *final(pool) == *old(pool),
        held(old(account).so, tier) == 0 ==> *final(account) == *old(account)
            && r.title@ == "You don't have any of that ticket tier!"@
            && r.description@ == "You can buy some in the shop using `^shop`."@,
        held(old(account).so, tier) > 0 ==> exists|win: int| #[trigger] can_win(tier, win)
            && *final(account) == (Account { money: (old(account).money + win) as i64, so: used(old(account).so, tier), ..*old(account) })
            && r.title@ == "Congratulations!"@
            && r.description@ == prize_text(tier, win),
{
    if tickets_held(account.so, tier) == 0 {
        return no_ticket_content();
    }
    let win = scratch_prize(tier);
    proof {
        let (roll, base) = choose|roll: int, base: int|
            0 <= roll <= 100 && #[trigger] in_band(roll, base) && win == multiplier(tier) * base;
        lemma_prize_bounded(tier, roll, base);
    }
    use_ticket(account, pool, tier, win);
    prize_content(tier, win)
}

/// The embed when the user leaves or does not react for a minute.
pub fn goodbye_content() -> (r: EditContent)
    ensures
        r.title@ == "Goodbye!"@,
        r.description@ == "This message is inactive."@,
{
    EditContent { title: "Goodbye!".to_string(), description: "This message is inactive.".to_string() }
}

} // verus!
