use cafebot::economy::Account;
use cafebot::shop::{incr_price, purchase, shop_buy, shop_greeting, shop_item, shop_menu, shop_timeout, ShopItem};

fn rich() -> Account {
    let mut a = Account::new();
    a.money = 1000;
    a
}

#[test]
fn reactions_pick_items() {
    assert_eq!(shop_item("👎"), Some(ShopItem::Tier1));
    assert_eq!(shop_item("✊"), Some(ShopItem::Tier2));
    assert_eq!(shop_item("👍"), Some(ShopItem::Tier3));
    assert_eq!(shop_item("📈"), Some(ShopItem::Increase));
    assert_eq!(shop_item("🛑"), Some(ShopItem::Leave));
    assert_eq!(shop_item("🎫"), None);
}

#[test]
fn prices_and_menu() {
    assert_eq!(incr_price(2), 240);
    assert_eq!(incr_price(0), 200);
    assert_eq!(incr_price(10), 1200);
    assert_eq!(
        shop_menu(240),
        "👎: Scratch-Off Tier 1: 200 monies\n        ✊: Scratch-Off Tier 2: 400 monies\n        👍: Scratch-Off Tier 3: 800 monies\n        📈: Increase hourly increase of money by 2: 240 monies\n        🛑: Leave the shop."
    );
    assert_eq!(shop_greeting("ann"), "**ann** entered the shop!");
    let (t, d) = shop_timeout();
    assert_eq!(t, "Timed out.");
    assert_eq!(d, "Two minutes passed with no reactions, so the shop closed.");
}

#[test]
fn buying_a_ticket_costs_its_price() {
    let mut a = rich();
    let (t, d) = shop_buy(&mut a, ShopItem::Tier2, 200);
    assert_eq!(t, "Success!");
    assert_eq!(d, "You bought a Tier 2 Scratch-Off Ticket for **400** monies. Use it with `^scratchoff`.");
    assert_eq!(a.money, 600);
    assert_eq!(a.so.tier2, 1);
    let (_, _) = shop_buy(&mut a, ShopItem::Tier1, 200);
    assert_eq!(a.money, 400);
    assert_eq!(a.so.tier1, 1);
}

#[test]
fn too_poor_to_buy() {
    let mut a = rich();
    a.money = 799;
    let before = a;
    let (t, d) = shop_buy(&mut a, ShopItem::Tier3, 200);
    assert_eq!(t, "Nice try, but you don't have enough money to buy that.");
    assert_eq!(d, "haha poor.");
    assert_eq!(a, before);
}

#[test]
fn a_negative_wallet_reads_as_a_large_one() {
    let mut a = Account::new();
    a.money = -5;
    assert!(purchase(&mut a, 200));
    assert_eq!(a.money, -205);
}

#[test]
fn buying_the_increase() {
    let mut a = rich();
    let shown = incr_price(a.incr_amount as i32);
    let (t, d) = shop_buy(&mut a, ShopItem::Increase, shown);
    assert_eq!(t, "Success!");
    assert_eq!(d, "You increased your idle money increase by 2 for **200** monies.");
    assert_eq!(a.incr_amount, 2);
    assert_eq!(a.money, 800);
    let shown = incr_price(a.incr_amount as i32);
    let (_, d) = shop_buy(&mut a, ShopItem::Increase, shown);
    assert_eq!(d, "You increased your idle money increase by 2 for **240** monies.");
    assert_eq!(a.incr_amount, 4);
    assert_eq!(a.money, 560);
}

#[test]
fn the_increase_at_its_maximum_is_still_paid() {
    let mut a = Account::new();
    a.money = 100000;
    a.incr_amount = 50;
    let shown = incr_price(a.incr_amount as i32);
    let (t, d) = shop_buy(&mut a, ShopItem::Increase, shown);
    assert_eq!(t, "Failure.");
    assert_eq!(d, "You have hit the max increase amount.");
    assert_eq!(a.incr_amount, 50);
    assert_eq!(a.money, 100000 - 25200);
}

#[test]
fn leaving() {
    let mut a = rich();
    let (t, d) = shop_buy(&mut a, ShopItem::Leave, 200);
    assert_eq!(t, "Goodbye!");
    assert_eq!(d, "The shop is closed here.");
    assert_eq!(a, rich());
}

#[test]
fn the_increase_costs_what_the_menu_showed() {
    let mut a = Account::new();
    a.money = 1000;
    let shown = incr_price(0);
    a.incr_amount = 4;
    let (t, d) = shop_buy(&mut a, ShopItem::Increase, shown);
    assert_eq!(t, "Success!");
    assert_eq!(d, "You increased your idle money increase by 2 for **200** monies.");
    assert_eq!(a.incr_amount, 6);
    assert_eq!(a.money, 800);
}
