//! The economy: wallets, the pool of lost money of each server, giving money, the
//! coin flip, the hourly interest and the lottery.

use vstd::prelude::*;
use crate::text::{push_i64, push_u64, int_text, dec, trim, trimmed, parse_i32, parsed_in_range, opt_text};
use crate::random::{random_ratio, shuffle_u64};

verus! {

broadcast use vstd::seq_lib::group_to_multiset_ensures, vstd::multiset::group_multiset_axioms;

/// The scratch-off tickets a user holds, by tier.
#[derive(Clone, Copy, PartialEq, Eq, Debug, Structural)]
pub struct ScratchOff {
    pub tier1: u32,
    pub tier2: u32,
    pub tier3: u32,
}

/// What the bot keeps for a user: money, lottery tickets, the hourly increase of
/// money, and scratch-off tickets.
#[derive(Clone, Copy, PartialEq, Eq, Debug, Structural)]
pub struct Account {
    pub money: i64,
    pub tickets: i64,
    pub incr_amount: i64,
    pub so: ScratchOff,
}

impl Account {
    /// The account of a user seen for the first time: 10 monies, no tickets, no
    /// hourly increase yet (it starts at 0 and grows with what is bought in the shop),
    /// no scratch-off tickets.
    pub fn new() -> (a: Account)
        ensures
            a == (Account { money: 10, tickets: 0, incr_amount: 0, so: ScratchOff { tier1: 0, tier2: 0, tier3: 0 } }),
    {
        Account { money: 10, tickets: 0, incr_amount: 0, so: ScratchOff { tier1: 0, tier2: 0, tier3: 0 } }
    }

    /// The hourly interest: the account's increase is added to its money.
    pub fn accrue_interest(&mut self)
        requires
            i64::MIN <= old(self).money + old(self).incr_amount <= i64::MAX,
        ensures
            *final(self) == (Account { money: (old(self).money + old(self).incr_amount) as i64, ..*old(self) }),
    {
        self.money = self.money + self.incr_amount;
    }
}

/// Adds `amount` to a wallet without touching the pool.
pub fn money_increment_without_lost(account: &mut Account, amount: i32)
    requires
        i64::MIN <= old(account).money + amount <= i64::MAX,
    ensures
        *final(account) == (Account { money: (old(account).money + amount) as i64, ..*old(account) }),
{
    account.money = account.money + amount as i64;
}

/// Adds lost money to a server's pool.
pub fn lost_increment(pool: &mut i64, amount: i32)
    requires
        i64::MIN <= *old(pool) + amount <= i64::MAX,
    ensures
        *final(pool) == *old(pool) + amount,
{
    *pool = *pool + amount as i64;
}

/// Adds `amount` to a wallet; money lost (a negative amount) also goes to the pool
/// of the server where it was lost. The amount must not be `i32::MIN`, which has no
/// positive counterpart.
pub fn money_increment(account: &mut Account, pool: &mut i64, amount: i32)
    requires
        amount != i32::MIN,
        i64::MIN <= old(account).money + amount <= i64::MAX,
        amount < 0 ==> *old(pool) - amount <= i64::MAX,
    ensures
        *final(account) == (Account { money: (old(account).money + amount) as i64, ..*old(account) }),
        *final(pool) == (if amount < 0 { *old(pool) - amount } else { *old(pool) as int }),
        amount <= 0 ==> final(account).money + *final(pool) == old(account).money + *old(pool),
{
    if amount < 0 {
        lost_increment(pool, -amount);
    }
    account.money = account.money + amount as i64;
}

/// A user's mention: `<@id>`.
pub open spec fn mention(id: u64) -> Seq<char> {
    "<@"@ + dec(id as nat) + ">"@
}

/// Appends a user's mention.
pub fn push_mention(s: &mut String, id: u64)
    ensures
        final(s)@ == old(s)@ + mention(id),
{
    s.append("<@");
    push_u64(s, id);
    s.append(">");
    assert(s@ =~= old(s)@ + mention(id));
}

/// What `^give_money [amount] [recipient]` does: refuse with a reply, or move the amount.
pub enum Give {
    Refuse(String),
    Transfer(i32),
}

pub open spec fn give_syntax() -> Seq<char> {
    "Please run the command in this syntax: `^give_money [amount] [recipient]`"@
}

/// The decision of `^give_money`: the amount word, the sender's money, the number of
/// users mentioned, and whether the one mentioned is the sender.
pub open spec fn give_decision(amount: Option<Seq<char>>, money: i32, mentions: usize, to_self: bool) -> Result<i32, Seq<char>> {
    let a = match amount { Some(w) => parsed_in_range(w, true, i32::MIN as int, i32::MAX as int), None => None };
    match a {
        None => Err(give_syntax()),
        Some(v) => if v > money || v < 0 {
            Err("You can't give more money than you have."@)
        } else if mentions != 1 {
            Err(give_syntax())
        } else if to_self {
            Err("You can't give money to yourself."@)
        } else {
            Ok(v as i32)
        },
    }
}

/// Decides `^give_money [amount] [recipient]`.
pub fn give_money(amount: Option<&str>, money: i32, mentions: usize, to_self: bool) -> (r: Give)
    ensures
        match r {
            Give::Refuse(m) => give_decision(opt_text(amount), money, mentions, to_self) == Err::<i32, Seq<char>>(m@),
            Give::Transfer(v) => give_decision(opt_text(amount), money, mentions, to_self) == Ok::<i32, Seq<char>>(v),
        },
{
    let a = match amount { Some(w) => parse_i32(w), None => None };
    match a {
        None => Give::Refuse("Please run the command in this syntax: `^give_money [amount] [recipient]`".to_string()),
        Some(v) => if v > money || v < 0 {
            Give::Refuse("You can't give more money than you have.".to_string())
        } else if mentions != 1 {
            Give::Refuse("Please run the command in this syntax: `^give_money [amount] [recipient]`".to_string())
        } else if to_self {
            Give::Refuse("You can't give money to yourself.".to_string())
        } else {
            Give::Transfer(v)
        },
    }
}

/// Moves a gift: the recipient gains the amount and the sender loses it. A gift is
/// not money lost, so the server's pool does not change.
pub fn transfer(sender: &mut Account, recipient: &mut Account, amount: i32)
    requires
        0 <= amount,
        i64::MIN <= old(sender).money - amount,
        old(recipient).money + amount <= i64::MAX,
    ensures
        final(recipient).money == old(recipient).money + amount,
        final(sender).money == old(sender).money - amount,
        final(sender).money + final(recipient).money == old(sender).money + old(recipient).money,
        *final(sender) == (Account { money: final(sender).money, ..*old(sender) }),
        *final(recipient) == (Account { money: final(recipient).money, ..*old(recipient) }),
{
    money_increment_without_lost(recipient, amount);
    money_increment_without_lost(sender, -amount);
}

/// The reply to a gift: "<@recipient> has received **amount** monies from <@sender>."
pub fn give_reply(recipient: u64, amount: i32, sender: u64) -> (r: String)
    ensures
        r@ == mention(recipient) + " has received **"@ + int_text(amount as int) + "** monies from "@ + mention(sender) + "."@,
{
    let mut r = String::new();
    push_mention(&mut r, recipient);
    r.append(" has received **");
    push_i64(&mut r, amount as i64);
    r.append("** monies from ");
    push_mention(&mut r, sender);
    r.append(".");
    assert(r@ =~= mention(recipient) + " has received **"@ + int_text(amount as int) + "** monies from "@ + mention(sender) + "."@);
    r
}

/// The bet of `^coin_flip [bet]`: a whole number, no more than the user has. (A
/// negative bet is taken as it is.)
pub open spec fn coin_bet(text: Seq<char>, money: i32) -> Result<i32, Seq<char>> {
    match parsed_in_range(trimmed(text), true, i32::MIN as int, i32::MAX as int) {
        None => Err("Please enter an amount to bet as an argument."@),
        Some(b) => if b > money { Err("You can't bet more money than you have."@) } else { Ok(b as i32) },
    }
}

/// The result of a coin flip for `bet`: the reply and the amount for the wallet.
pub open spec fn flip_result(bet: i32, heads: bool) -> (Seq<char>, int) {
    if heads {
        ("You got heads! You got **"@ + int_text(bet as int) + "** monies."@, bet as int)
    } else {
        ("You got tails! You lost **"@ + int_text(bet as int) + "** monies."@, -bet)
    }
}

/// What a coin flip does: the reply, and the amount to add to the wallet (lost money
/// also goes to the pool).
pub struct CoinFlip {
    pub reply: String,
    pub increment: i32,
}

/// Settles a coin flip for a bet already checked.
pub fn flip_for(bet: i32, heads: bool) -> (r: CoinFlip)
    requires
        bet != i32::MIN,
    ensures
        (r.reply@, r.increment as int) == flip_result(bet, heads),
{
    if heads {
        let mut s = "You got heads! You got **".to_string();
        push_i64(&mut s, bet as i64);
        s.append("** monies.");
        CoinFlip { reply: s, increment: bet }
    } else {
        let mut s = "You got tails! You lost **".to_string();
        push_i64(&mut s, bet as i64);
        s.append("** monies.");
        CoinFlip { reply: s, increment: -bet }
    }
}

/// `^coin_flip [bet]` for a user with `money`: refuses a bet that is no number or
/// more than the user has, else flips a fair coin. The bet `i32::MIN` is left out: it
/// has no negative.
pub fn coin_flip(text: &str, money: i32) -> (r: CoinFlip)
    requires
        parsed_in_range(trimmed(text@), true, i32::MIN as int, i32::MAX as int) != Some(i32::MIN as int),
    ensures
        coin_bet(text@, money) is Err ==> r.reply@ == coin_bet(text@, money)->Err_0 && r.increment == 0,
        coin_bet(text@, money) is Ok ==> (r.reply@, r.increment as int) == flip_result(coin_bet(text@, money)->Ok_0, true)
            || (r.reply@, r.increment as int) == flip_result(coin_bet(text@, money)->Ok_0, false),
{
    let t = trim(text);
    let bet = match parse_i32(t.as_str()) {
        None => return CoinFlip { reply: "Please enter an amount to bet as an argument.".to_string(), increment: 0 },
        Some(b) => b,
    };
    if bet > money {
        return CoinFlip { reply: "You can't bet more money than you have.".to_string(), increment: 0 };
    }
    assert(t@ == trimmed(text@));
    assert(coin_bet(text@, money) == Ok::<i32, Seq<char>>(bet));
    let heads = random_ratio(1, 2);
    let r = flip_for(bet, heads);
    assert((r.reply@, r.increment as int) == flip_result(bet, heads));
    r
}

/// The lottery entries: each user's id once per ticket, in the order of the users.
pub open spec fn entries(candidates: Seq<(u64, u64)>) -> Seq<u64>
    decreases candidates.len(),
{
    if candidates.len() == 0 {
        Seq::empty()
    } else {
        entries(candidates.drop_last()) + Seq::new(candidates.last().1 as nat, |i: int| candidates.last().0)
    }
}

/// The tickets that a user holds among the candidates.
pub open spec fn tickets_of(candidates: Seq<(u64, u64)>, id: u64) -> nat
    decreases candidates.len(),
{
    if candidates.len() == 0 {
        0
    } else {
        tickets_of(candidates.drop_last(), id) + (if candidates.last().0 == id { candidates.last().1 as nat } else { 0 })
    }
}

proof fn lemma_repeat_multiset(id: u64, n: nat, x: u64)
    ensures
        Seq::new(n, |i: int| id).to_multiset().count(x) == (if x == id { n } else { 0 }),
    decreases n,
{
    if n > 0 {
        lemma_repeat_multiset(id, (n - 1) as nat, x);
        assert(Seq::new(n, |i: int| id) =~= Seq::new((n - 1) as nat, |i: int| id).push(id));
        vstd::seq_lib::to_multiset_build(Seq::new((n - 1) as nat, |i: int| id), id);
    } else {
        assert(!Seq::new(n, |i: int| id).contains(x));
    }
}

/// Each user enters the lottery exactly once per ticket.
pub proof fn lemma_entries_count(candidates: Seq<(u64, u64)>, id: u64)
    ensures
        entries(candidates).to_multiset().count(id) == tickets_of(candidates, id),
    decreases candidates.len(),
{
    if candidates.len() == 0 {
        assert(!entries(candidates).contains(id));
    } else {
        lemma_entries_count(candidates.drop_last(), id);
        let last = candidates.last();
        lemma_repeat_multiset(last.0, last.1 as nat, id);
        vstd::seq_lib::lemma_multiset_commutative(entries(candidates.drop_last()), Seq::new(last.1 as nat, |i: int| last.0));
    }
}

proof fn lemma_entries_len(candidates: Seq<(u64, u64)>, k: int)
    requires
        0 <= k <= candidates.len(),
    ensures
        entries(candidates.take(k)).len() <= entries(candidates).len(),
    decreases candidates.len(),
{
    if k < candidates.len() {
        lemma_entries_len(candidates.drop_last(), k);
        assert(candidates.drop_last().take(k) =~= candidates.take(k));
    } else {
        assert(candidates.take(k) =~= candidates);
    }
}

/// Lists the lottery entries: each user's id once per ticket.
pub fn lottery_entries(candidates: &Vec<(u64, u64)>) -> (v: Vec<u64>)
    requires
        entries(candidates@).len() <= usize::MAX,
    ensures
        v@ == entries(candidates@),
{
    let mut v: Vec<u64> = Vec::new();
    let mut i: usize = 0;
    while i < candidates.len()
        invariant
            i <= candidates@.len(),
            entries(candidates@).len() <= usize::MAX,
            v@ == entries(candidates@.take(i as int)),
        decreases candidates.len() - i,
    {
        let (id, n) = candidates[i];
        proof {
            assert(candidates@.take(i + 1).drop_last() =~= candidates@.take(i as int));
            lemma_entries_len(candidates@, i + 1);
        }
        let mut j: u64 = 0;
        while j < n
            invariant
                j <= n,
                (id, n) == candidates@[i as int],
                i < candidates@.len(),
                entries(candidates@.take(i + 1)).len() <= usize::MAX,
                candidates@.take(i + 1).drop_last() =~= candidates@.take(i as int),
                v@ == entries(candidates@.take(i as int)) + Seq::new(j as nat, |k: int| id),
            decreases n - j,
        {
            v.push(id);
            assert(Seq::new((j + 1) as nat, |k: int| id) =~= Seq::new(j as nat, |k: int| id).push(id));
            j = j + 1;
        }
        i = i + 1;
    }
    assert(candidates@.take(i as int) =~= candidates@);
    v
}

/// Draws the lottery among the users with their tickets: the entries are shuffled
/// and the first one wins. There must be at least one ticket.
pub fn draw_lottery(candidates: &Vec<(u64, u64)>) -> (winner: u64)
    requires
        0 < entries(candidates@).len() <= usize::MAX,
    ensures
        tickets_of(candidates@, winner) > 0,
{
    let mut lottery_vec = lottery_entries(candidates);
    shuffle_u64(&mut lottery_vec);
    let w = lottery_vec[0];
    proof {
        assert(lottery_vec@.contains(w));
        lemma_entries_count(candidates@, w);
    }
    w
}

/// The reply naming the winner: "Winner: id".
pub fn winner_reply(winner: u64) -> (r: String)
    ensures
        r@ == "Winner: "@ + dec(winner as nat),
{
    let mut r = "Winner: ".to_string();
    push_u64(&mut r, winner);
    r
}

} // verus!
