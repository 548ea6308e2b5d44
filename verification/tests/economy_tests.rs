use cafebot::economy::{
    coin_flip, draw_lottery, flip_for, give_money, give_reply, lost_increment, lottery_entries, money_increment,
    money_increment_without_lost, push_mention, transfer, winner_reply, Account, Give, ScratchOff,
};

#[test]
fn a_new_account() {
    let a = Account::new();
    assert_eq!(a, Account { money: 10, tickets: 0, incr_amount: 0, so: ScratchOff { tier1: 0, tier2: 0, tier3: 0 } });
}

#[test]
fn hourly_interest_adds_the_increase() {
    let mut a = Account::new();
    a.incr_amount = 6;
    a.accrue_interest();
    assert_eq!(a.money, 16);
    assert_eq!(a.incr_amount, 6);
}

#[test]
fn money_lost_goes_to_the_pool() {
    let mut a = Account::new();
    let mut pool: i64 = 100;
    money_increment(&mut a, &mut pool, -4);
    assert_eq!(a.money, 6);
    assert_eq!(pool, 104);
    // what the wallet lost, the pool gained
    assert_eq!(a.money + pool, 10 + 100);
    money_increment(&mut a, &mut pool, 50);
    assert_eq!(a.money, 56);
    assert_eq!(pool, 104);
    money_increment_without_lost(&mut a, -6);
    assert_eq!(a.money, 50);
    lost_increment(&mut pool, 6);
    assert_eq!(pool, 110);
}

#[test]
fn a_gift_moves_money_and_the_pool_gains_it() {
    let mut s = Account::new();
    s.money = 100;
    let mut r = Account::new();
    let mut pool: i64 = 0;
    transfer(&mut s, &mut r, 30);
    assert_eq!(s.money, 70);
    assert_eq!(r.money, 40);
    assert_eq!(s.money + r.money, 110);
    // a gift is not money lost: the pool stays as it was
    assert_eq!(pool, 0);
    assert_eq!(give_reply(2, 30, 1), "<@2> has received **30** monies from <@1>.");
}

#[test]
fn gift_decisions() {
    let syntax = "Please run the command in this syntax: `^give_money [amount] [recipient]`";
    assert!(matches!(give_money(Some("30"), 100, 1, false), Give::Transfer(30)));
    assert!(matches!(give_money(None, 100, 1, false), Give::Refuse(m) if m == syntax));
    assert!(matches!(give_money(Some("x"), 100, 1, false), Give::Refuse(m) if m == syntax));
    assert!(matches!(give_money(Some("101"), 100, 1, false), Give::Refuse(m) if m == "You can't give more money than you have."));
    assert!(matches!(give_money(Some("-1"), 100, 1, false), Give::Refuse(m) if m == "You can't give more money than you have."));
    assert!(matches!(give_money(Some("5"), 100, 2, false), Give::Refuse(m) if m == syntax));
    assert!(matches!(give_money(Some("5"), 100, 0, false), Give::Refuse(m) if m == syntax));
    assert!(matches!(give_money(Some("5"), 100, 1, true), Give::Refuse(m) if m == "You can't give money to yourself."));
}

#[test]
fn coin_flips() {
    let h = flip_for(20, true);
    assert_eq!(h.reply, "You got heads! You got **20** monies.");
    assert_eq!(h.increment, 20);
    let t = flip_for(20, false);
    assert_eq!(t.reply, "You got tails! You lost **20** monies.");
    assert_eq!(t.increment, -20);
    let r = coin_flip(" 20 ", 50);
    assert!(r.increment == 20 || r.increment == -20);
    let r = coin_flip("60", 50);
    assert_eq!(r.reply, "You can't bet more money than you have.");
    assert_eq!(r.increment, 0);
    let r = coin_flip("heads", 50);
    assert_eq!(r.reply, "Please enter an amount to bet as an argument.");
    assert_eq!(r.increment, 0);
}

#[test]
fn lottery_entries_count_tickets() {
    let c = vec![(7u64, 2u64), (9, 0), (3, 1)];
    assert_eq!(lottery_entries(&c), vec![7, 7, 3]);
    let mut winners: Vec<u64> = Vec::new();
    for _ in 0..60 {
        let w = draw_lottery(&c);
        assert!(w == 7 || w == 3);
        winners.push(w);
    }
    // the entries are shuffled before the first is drawn
    assert!(winners.contains(&7) && winners.contains(&3));
    assert_eq!(draw_lottery(&vec![(5, 1)]), 5);
    assert_eq!(winner_reply(5), "Winner: 5");
}

#[test]
fn mentions() {
    let mut s = "hi ".to_string();
    push_mention(&mut s, 42);
    assert_eq!(s, "hi <@42>");
}
