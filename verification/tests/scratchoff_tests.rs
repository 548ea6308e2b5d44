use cafebot::economy::{Account, ScratchOff};
use cafebot::scratchoff::{
    base_prize, goodbye_content, no_ticket_content, prize_content, prize_for_roll, prize_range, scratch, scratch_choice, scratch_menu, scratch_prize,
    tickets_held, use_ticket, ScratchChoice,
};

#[test]
fn menu_choices() {
    assert_eq!(scratch_choice("🇦"), Some(ScratchChoice::Tier(1)));
    assert_eq!(scratch_choice("🇧"), Some(ScratchChoice::Tier(2)));
    assert_eq!(scratch_choice("🇨"), Some(ScratchChoice::Tier(3)));
    assert_eq!(scratch_choice("🛑"), Some(ScratchChoice::Stop));
    assert_eq!(scratch_choice("🇩"), None);
}

#[test]
fn the_menu() {
    let m = scratch_menu(ScratchOff { tier1: 1, tier2: 0, tier3: 4 });
    assert_eq!(m.title, "__CafeBot Scratch-Off__");
    assert_eq!(
        m.description,
        "Please pick which tier you want to scratch off!\n    A - Tier 1 (You have 1)\n    B - Tier 2 (You have 0)\n    C - Tier 3 (You have 4)\n\n    You can buy more scratch-off tickets in the shop using `^shop`."
    );
    assert_eq!(tickets_held(ScratchOff { tier1: 1, tier2: 0, tier3: 4 }, 3), 4);
}

#[test]
fn prizes_stay_in_their_bands() {
    for tier in 1..4 {
        let m = if tier == 1 { 1 } else if tier == 2 { 2 } else { 4 };
        for _ in 0..200 {
            let w = scratch_prize(tier);
            assert_eq!(w % m, 0);
            let base = w / m;
            assert!((0..400).contains(&base) || base == 500);
        }
    }
}

#[test]
fn using_a_ticket() {
    let mut a = Account::new();
    a.so = ScratchOff { tier1: 0, tier2: 2, tier3: 0 };
    let mut pool: i64 = 3;
    use_ticket(&mut a, &mut pool, 2, 300);
    assert_eq!(a.money, 310);
    assert_eq!(a.so.tier2, 1);
    assert_eq!(pool, 3);
    let c = prize_content(2, 300);
    assert_eq!(c.title, "Congratulations!");
    assert_eq!(c.description, "Your **Tier 2 Scratch-Off Ticket** won you **300** monies!");
}

#[test]
fn scratching_with_and_without_a_ticket() {
    let mut a = Account::new();
    let mut pool: i64 = 0;
    let c = scratch(&mut a, &mut pool, 1);
    assert_eq!(c.title, "You don't have any of that ticket tier!");
    assert_eq!(c.description, "You can buy some in the shop using `^shop`.");
    assert_eq!(a, Account::new());
    a.so.tier3 = 1;
    let c = scratch(&mut a, &mut pool, 3);
    assert_eq!(c.title, "Congratulations!");
    assert_eq!(a.so.tier3, 0);
    let won = a.money - 10;
    assert!(won >= 0 && won <= 2000 && won % 4 == 0);
    assert_eq!(c.description, format!("Your **Tier 3 Scratch-Off Ticket** won you **{}** monies!", won));
    assert_eq!(no_ticket_content().title, "You don't have any of that ticket tier!");
    assert_eq!(goodbye_content().description, "This message is inactive.");
}

#[test]
fn each_roll_has_its_band() {
    assert_eq!(prize_range(0), (0, 100));
    assert_eq!(prize_range(33), (0, 100));
    assert_eq!(prize_range(34), (100, 200));
    assert_eq!(prize_range(67), (100, 200));
    assert_eq!(prize_range(68), (200, 300));
    assert_eq!(prize_range(89), (200, 300));
    assert_eq!(prize_range(90), (300, 350));
    assert_eq!(prize_range(96), (300, 350));
    assert_eq!(prize_range(97), (350, 400));
    assert_eq!(prize_range(99), (350, 400));
    assert_eq!(prize_range(100), (500, 501));
}

#[test]
fn a_base_prize_lies_in_its_band() {
    assert_eq!(base_prize(100), 500);
    for roll in 0..100 {
        for _ in 0..5 {
            let (lo, hi) = prize_range(roll);
            let b = base_prize(roll);
            assert!(lo <= b && b < hi);
        }
    }
}

#[test]
fn the_prize_of_a_roll() {
    assert_eq!(prize_for_roll(1, 100), 500);
    assert_eq!(prize_for_roll(2, 100), 1000);
    assert_eq!(prize_for_roll(3, 100), 2000);
    for _ in 0..20 {
        let w = prize_for_roll(2, 0);
        assert!(w % 2 == 0 && (0..200).contains(&w));
        let w = prize_for_roll(3, 98);
        assert!(w % 4 == 0 && (1400..1600).contains(&w));
    }
}
