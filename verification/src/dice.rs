//! Dice rolls in the notation of tabletop games: `[num]d<faces> [+|- <bonus>]`.

use vstd::prelude::*;
use crate::text::{push_u64, dec};
use cute_dnd_dice::{Modifier, Roll};
use core::num::NonZeroU16;

verus! {

/// A roll as cute_dnd_dice reads it: how many dice, how many faces each, and the
/// bonus added (or, when `plus` is false, taken away) at the end.
#[derive(Clone, Copy, PartialEq, Eq, Debug, Structural)]
pub struct Dice {
    pub num: u16,
    pub faces: u16,
    pub plus: bool,
    pub bonus: u16,
}

/// What `Roll::from_str` of cute_dnd_dice reads from a text: the number of dice, of
/// faces, whether the bonus is added, and the bonus; `None` where it reports an
/// error.
pub uninterp spec fn parsed_roll(text: Seq<char>) -> Option<(u16, u16, bool, u16)>;

/// A dice roll of the crate is never made of no dice or of dice with no faces.
pub open spec fn well_formed(d: Dice) -> bool {
    d.num >= 1 && d.faces >= 1
}

/// `Roll::from_str` of cute_dnd_dice. The contract names what it reads
/// `parsed_roll(text)` and states what its source shows of every roll it returns:
/// the number of dice and of faces are at least 1 (a `0` is refused, and a missing
/// number of dice is read as 1).
#[verifier::external_body]
pub(crate) fn parse_dice(text: &str) -> (r: Option<Dice>)
    ensures
        match r {
            Some(d) => parsed_roll(text@) == Some((d.num, d.faces, d.plus, d.bonus)) && well_formed(d),
            None => parsed_roll(text@) is None,
        },
{
    match Roll::from_str(text) {
        Ok(roll) => {
            let (plus, bonus) = match roll.extra {
                Modifier::Plus(b) => (true, b),
                Modifier::Minus(b) => (false, b),
            };
            Some(Dice { num: roll.num, faces: roll.faces.get(), plus, bonus })
        },
        Err(_) => None,
    }
}

/// The bonus applied to a total, saturating at 0 and at `u16::MAX`.
pub open spec fn apply_bonus(d: Dice, total: int) -> int {
    if d.plus {
        if total + d.bonus > u16::MAX { u16::MAX as int } else { total + d.bonus }
    } else {
        if total - d.bonus < 0 { 0 } else { total - d.bonus }
    }
}

/// The least a roll can give: every die shows 1.
pub open spec fn least(d: Dice) -> int {
    apply_bonus(d, d.num as int)
}

/// The most a roll can give: every die shows its highest face (the product
/// saturating at `u16::MAX`).
pub open spec fn most(d: Dice) -> int {
    apply_bonus(d, if d.num * d.faces > u16::MAX { u16::MAX as int } else { d.num * d.faces })
}

/// `Roll::roll` of cute_dnd_dice: each die gives a random face from 1 to its number
/// of faces, the faces are added (saturating at `u16::MAX`) and the bonus applied.
/// The contract states only that the result lies between the least and the most the
/// roll can give; which value comes out rests on chance.
#[verifier::external_body]
pub(crate) fn roll_dice(d: Dice) -> (r: u16)
    requires
        well_formed(d),
    ensures
        least(d) <= r <= most(d),
{
    let extra = if d.plus { Modifier::Plus(d.bonus) } else { Modifier::Minus(d.bonus) };
    Roll::new(d.num, NonZeroU16::new(d.faces).unwrap(), extra).roll()
}

/// The answer to a text that is no roll.
pub open spec fn invalid_roll_text(arguments: Seq<char>) -> Seq<char> {
    "*"@ + arguments + "* is not a valid dice roll."@
}

/// The answer to a roll with its result.
pub open spec fn rolled_text(arguments: Seq<char>, result: nat) -> Seq<char> {
    "Rolling *"@ + arguments + "...*\nResults: **"@ + dec(result) + "**"@
}

/// The answer to a roll once its result is known.
pub fn rolled_reply(arguments: &str, result: u16) -> (r: String)
    ensures
        r@ == rolled_text(arguments@, result as nat),
{
    let mut r = "Rolling *".to_string();
    r.append(arguments);
    r.append("...*\nResults: **");
    push_u64(&mut r, result as u64);
    r.append("**");
    r
}

/// `^dice [roll]`: the roll is read from the text after the command and rolled. A
/// text that is no roll is answered so.
pub fn dice_reply(arguments: &str) -> (r: String)
    ensures
        parsed_roll(arguments@) is None ==> r@ == invalid_roll_text(arguments@),
        parsed_roll(arguments@) matches Some((num, faces, plus, bonus)) ==> exists|result: nat| {
            let d = Dice { num, faces, plus, bonus };
            &&& least(d) <= result <= most(d)
            &&& r@ == #[trigger] rolled_text(arguments@, result)
        },
{
    match parse_dice(arguments) {
        None => {
            let mut r = "*".to_string();
            r.append(arguments);
            r.append("* is not a valid dice roll.");
            r
        },
        Some(d) => {
            let result = roll_dice(d);
            let r = rolled_reply(arguments, result);
            assert(r@ == rolled_text(arguments@, result as nat));
            r
        },
    }
}

} // verus!
