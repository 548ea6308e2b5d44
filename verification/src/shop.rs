//! The shop: scratch-off tickets of three tiers and a bigger hourly increase of money.

use vstd::prelude::*;
use crate::economy::{Account, ScratchOff};
use crate::text::{push_i64, int_text};

verus! {

/// What the shop sells, and the way out.
#[derive(Clone, Copy, PartialEq, Eq, Debug, Structural)]
pub enum ShopItem {
    Tier1,
    Tier2,
    Tier3,
    Increase,
    Leave,
}

/// The item that a reaction picks: 👎 tier 1, ✊ tier 2, 👍 tier 3, 📈 the increase,
/// 🛑 leave.
pub open spec fn item_of(emoji: Seq<char>) -> Option<ShopItem> {
    if emoji == "👎"@ { Some(ShopItem::Tier1) }
    else if emoji == "✊"@ { Some(ShopItem::Tier2) }
    else if emoji == "👍"@ { Some(ShopItem::Tier3) }
    else if emoji == "📈"@ { Some(ShopItem::Increase) }
    else if emoji == "🛑"@ { Some(ShopItem::Leave) }
    else { None }
}

/// Reads the item that a reaction picks.
pub fn shop_item(emoji: &str) -> (r: Option<ShopItem>)
    ensures
        r == item_of(emoji@),
{
    let e = emoji.to_string();
    if e == "👎".to_string() {
        Some(ShopItem::Tier1)
    } else if e == "✊".to_string() {
        Some(ShopItem::Tier2)
    } else if e == "👍".to_string() {
        Some(ShopItem::Tier3)
    } else if e == "📈".to_string() {
        Some(ShopItem::Increase)
    } else if e == "🛑".to_string() {
        Some(ShopItem::Leave)
    } else {
        None
    }
}

/// The price of two more monies an hour for a user whose increase is `incr`:
/// 10 times its square plus 200.
pub open spec fn incr_price_spec(incr: i32) -> int {
    10 * incr * incr + 200
}

/// The price of the hourly increase.
pub fn incr_price(incr: i32) -> (p: i32)
    requires
        incr_price_spec(incr) <= i32::MAX,
    ensures
        p == incr_price_spec(incr),
{
    assert(0 <= incr * incr) by (nonlinear_arith);
    assert(10 * incr * incr == 10 * (incr * incr)) by (nonlinear_arith);
    10 * (incr * incr) + 200
}

/// The shop's menu, with the price of the increase.
pub open spec fn menu_text(incr_price: i32) -> Seq<char> {
    "👎: Scratch-Off Tier 1: 200 monies\n        ✊: Scratch-Off Tier 2: 400 monies\n        👍: Scratch-Off Tier 3: 800 monies\n        📈: Increase hourly increase of money by 2: "@
        + int_text(incr_price as int) + " monies\n        🛑: Leave the shop."@
}

/// The description of the shop's embed.
pub fn shop_menu(incr_price: i32) -> (r: String)
    ensures
        r@ == menu_text(incr_price),
{
    let mut r = "👎: Scratch-Off Tier 1: 200 monies\n        ✊: Scratch-Off Tier 2: 400 monies\n        👍: Scratch-Off Tier 3: 800 monies\n        📈: Increase hourly increase of money by 2: ".to_string();
    push_i64(&mut r, incr_price as i64);
    r.append(" monies\n        🛑: Leave the shop.");
    r
}

/// Whether a user with `money` can pay `price`: the money is read as a `u32`, so a
/// negative balance counts as a large one.
pub open spec fn can_pay(money: i32, price: u32) -> bool {
    !(price > (money as u32))
}

/// Takes `price` from the wallet if the user can pay it; tells whether it did.
pub fn purchase(account: &mut Account, price: u32) -> (paid: bool)
    requires
        i32::MIN <= old(account).money <= i32::MAX,
    ensures
        paid == can_pay(old(account).money as i32, price),
        paid ==> *final(account) == (Account { money: (old(account).money - price) as i64, ..*old(account) }),
        !paid ==> *final(account) == *old(account),
{
    let money: i32 = account.money as i32;
    if price > money as u32 {
        false
    } else {
        account.money = account.money - price as i64;
        true
    }
}

/// The title and the description that a purchase ends with.
pub open spec fn poor() -> (Seq<char>, Seq<char>) {
    ("Nice try, but you don't have enough money to buy that."@, "haha poor."@)
}

pub open spec fn ticket_bought(tier: int, price: int) -> (Seq<char>, Seq<char>) {
    ("Success!"@, "You bought a Tier "@ + seq![(48 + tier) as char] + " Scratch-Off Ticket for **"@ + int_text(price)
        + "** monies. Use it with `^scratchoff`."@)
}

/// What picking an item does to the account, and the title and description shown;
/// `increase_price` is the price of the increase that the shop showed when it opened.
pub open spec fn buy_spec(a: Account, item: ShopItem, increase_price: int) -> (Account, Seq<char>, Seq<char>) {
    let m = a.money as i32;
    match item {
        ShopItem::Leave => (a, "Goodbye!"@, "The shop is closed here."@),
        ShopItem::Tier1 => if can_pay(m, 200) {
            (Account { money: (a.money - 200) as i64, so: ScratchOff { tier1: (a.so.tier1 + 1) as u32, ..a.so }, ..a },
                ticket_bought(1, 200).0, ticket_bought(1, 200).1)
        } else { (a, poor().0, poor().1) },
        ShopItem::Tier2 => if can_pay(m, 400) {
            (Account { money: (a.money - 400) as i64, so: ScratchOff { tier2: (a.so.tier2 + 1) as u32, ..a.so }, ..a },
                ticket_bought(2, 400).0, ticket_bought(2, 400).1)
        } else { (a, poor().0, poor().1) },
        ShopItem::Tier3 => if can_pay(m, 800) {
            (Account { money: (a.money - 800) as i64, so: ScratchOff { tier3: (a.so.tier3 + 1) as u32, ..a.so }, ..a },
                ticket_bought(3, 800).0, ticket_bought(3, 800).1)
        } else { (a, poor().0, poor().1) },
        ShopItem::Increase => {
            let price = increase_price;
            if can_pay(m, price as u32) {
                let paid = Account { money: (a.money - price) as i64, ..a };
                if a.incr_amount >= 50 {
                    (paid, "Failure."@, "You have hit the max increase amount."@)
                } else {
                    (Account { incr_amount: (a.incr_amount + 2) as i64, ..paid }, "Success!"@,
                        "You increased your idle money increase by 2 for **"@ + int_text(price) + "** monies."@)
                }
            } else { (a, poor().0, poor().1) }
        },
    }
}

fn buy_ticket(account: &mut Account, tier: u32, price: u32) -> (r: (String, String))
    requires
        1 <= tier <= 3,
        price == (if tier == 1 { 200u32 } else if tier == 2 { 400 } else { 800 }),
        i32::MIN <= old(account).money <= i32::MAX,
        tier == 1 ==> old(account).so.tier1 < u32::MAX,
        tier == 2 ==> old(account).so.tier2 < u32::MAX,
        tier == 3 ==> old(account).so.tier3 < u32::MAX,
    ensures
        ({
            let item = if tier == 1 { ShopItem::Tier1 } else if tier == 2 { ShopItem::Tier2 } else { ShopItem::Tier3 };
            (*final(account), r.0@, r.1@) == buy_spec(*old(account), item, 0)
        }),
{
    if purchase(account, price) {
        if tier == 1 {
            account.so.tier1 = account.so.tier1 + 1;
        } else if tier == 2 {
            account.so.tier2 = account.so.tier2 + 1;
        } else {
            account.so.tier3 = account.so.tier3 + 1;
        }
        let mut d = "You bought a Tier ".to_string();
        d.append(if tier == 1 { "1" } else if tier == 2 { "2" } else { "3" });
        d.append(" Scratch-Off Ticket for **");
        push_i64(&mut d, price as i64);
        d.append("** monies. Use it with `^scratchoff`.");
        proof {
            reveal_strlit("1");
            reveal_strlit("2");
            reveal_strlit("3");
        }
        ("Success!".to_string(), d)
    } else {
        ("Nice try, but you don't have enough money to buy that.".to_string(), "haha poor.".to_string())
    }
}

/// Buys the item for the account: pays its price if the user can, and gives the
/// ticket or two more monies an hour. The increase costs `increase_price`, the price
/// that the menu showed when the shop opened, and it is taken even when the increase
/// is already at its maximum of 50. Returns the embed's title and description.
pub fn shop_buy(account: &mut Account, item: ShopItem, increase_price: i32) -> (r: (String, String))
    requires
        i32::MIN <= old(account).money <= i32::MAX,
        i32::MIN <= old(account).incr_amount <= i32::MAX,
        item == ShopItem::Increase ==> 0 <= increase_price,
        item == ShopItem::Tier1 ==> old(account).so.tier1 < u32::MAX,
        item == ShopItem::Tier2 ==> old(account).so.tier2 < u32::MAX,
        item == ShopItem::Tier3 ==> old(account).so.tier3 < u32::MAX,
    ensures
        (*final(account), r.0@, r.1@) == buy_spec(*old(account), item, increase_price as int),
{
    match item {
        ShopItem::Leave => ("Goodbye!".to_string(), "The shop is closed here.".to_string()),
        ShopItem::Tier1 => buy_ticket(account, 1, 200),
        ShopItem::Tier2 => buy_ticket(account, 2, 400),
        ShopItem::Tier3 => buy_ticket(account, 3, 800),
        ShopItem::Increase => {
            let price = increase_price;
            assert(price as u32 == price);
            if purchase(account, price as u32) {
                if account.incr_amount >= 50 {
                    ("Failure.".to_string(), "You have hit the max increase amount.".to_string())
                } else {
                    account.incr_amount = account.incr_amount + 2;
                    let mut d = "You increased your idle money increase by 2 for **".to_string();
                    push_i64(&mut d, price as i64);
                    d.append("** monies.");
                    ("Success!".to_string(), d)
                }
            } else {
                ("Nice try, but you don't have enough money to buy that.".to_string(), "haha poor.".to_string())
            }
        },
    }
}

/// The embed when no reaction came for two minutes.
pub fn shop_timeout() -> (r: (String, String))
    ensures
        r.0@ == "Timed out."@,
        r.1@ == "Two minutes passed with no reactions, so the shop closed."@,
{
    ("Timed out.".to_string(), "Two minutes passed with no reactions, so the shop closed.".to_string())
}

/// The reply when a user walks into the shop: "**name** entered the shop!"
pub fn shop_greeting(name: &str) -> (r: String)
    ensures
        r@ == "**"@ + name@ + "** entered the shop!"@,
{
    let mut r = "**".to_string();
    r.append(name);
    r.append("** entered the shop!");
    r
}

/// A purchase costs exactly its price: when the user can pay, the wallet loses the
/// price and the account gains the item; when not, nothing changes.
pub proof fn lemma_purchase_costs_price(a: Account, item: ShopItem, increase_price: int)
    requires
        i32::MIN <= a.money <= i32::MAX,
        0 <= increase_price <= i32::MAX,
        a.so.tier1 < u32::MAX && a.so.tier2 < u32::MAX && a.so.tier3 < u32::MAX,
    ensures
        ({
            let r = buy_spec(a, item, increase_price);
            &&& item == ShopItem::Tier1 ==> (r.0.money == a.money - 200 && r.0.so.tier1 == a.so.tier1 + 1) || r.0 == a
            &&& item == ShopItem::Tier2 ==> (r.0.money == a.money - 400 && r.0.so.tier2 == a.so.tier2 + 1) || r.0 == a
            &&& item == ShopItem::Tier3 ==> (r.0.money == a.money - 800 && r.0.so.tier3 == a.so.tier3 + 1) || r.0 == a
            &&& item == ShopItem::Increase ==> r.0.money == a.money - increase_price || r.0 == a
            &&& item == ShopItem::Leave ==> r.0 == a
            &&& r.0.tickets == a.tickets
        }),
{
}

/// Buying the increase with enough money: below the cap of 50 the hourly increase
/// grows by exactly 2, the price shown is paid and the answer is "Success!"; at 50
/// or more the price is paid all the same, the increase stays and the answer is
/// "Failure.". Nothing else of the account changes.
pub proof fn lemma_increase_purchase(a: Account, price: int)
    requires
        i32::MIN <= a.money <= i32::MAX,
        0 <= price <= i32::MAX,
        price <= (a.money as i32) as u32,
    ensures
        ({
            let r = buy_spec(a, ShopItem::Increase, price);
            &&& r.0.money == a.money - price
            &&& r.0.tickets == a.tickets && r.0.so == a.so
            &&& a.incr_amount < 50 ==> r.0.incr_amount == a.incr_amount + 2 && r.1 == "Success!"@
                && r.2 == "You increased your idle money increase by 2 for **"@ + int_text(price) + "** monies."@
            &&& a.incr_amount >= 50 ==> r.0.incr_amount == a.incr_amount && r.1 == "Failure."@
                && r.2 == "You have hit the max increase amount."@
        }),
{
}

/// Buying the increase without enough money changes nothing and says so.
pub proof fn lemma_increase_too_poor(a: Account, price: int)
    requires
        i32::MIN <= a.money <= i32::MAX,
        0 <= price <= i32::MAX,
        price > (a.money as i32) as u32,
    ensures
        buy_spec(a, ShopItem::Increase, price) == (a, "Nice try, but you don't have enough money to buy that."@, "haha poor."@),
{
}

} // verus!
