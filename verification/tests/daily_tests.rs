use cafebot::daily::{daily, daily_from_file, daily_step, get_content_of_last_line, Daily, DailyChange};

#[test]
fn a_first_daily_starts_the_streak() {
    let r = daily(None, "2021-06-02", "2021-06-01");
    assert_eq!(r.reply, "Daily complete! This is day 0. You got **10** monies.");
    assert_eq!(r.reward, 10);
    assert_eq!(r.change, DailyChange::Start);
}

#[test]
fn a_daily_the_day_after_extends_the_streak() {
    let rec = Daily { id: 1, date: "2021-06-01".to_string(), streak: 4 };
    let r = daily(Some(&rec), "2021-06-02", "2021-06-01");
    assert_eq!(r.reply, "Daily complete! This is day 5. You got **50** monies.");
    assert_eq!(r.reward, 50);
    assert_eq!(r.change, DailyChange::Extend);
}

#[test]
fn the_reward_stops_growing_at_five_hundred() {
    let r = daily_step(Some(("2021-06-01", 49)), "2021-06-02", "2021-06-01");
    assert_eq!(r.reward, 500);
    let r = daily_step(Some(("2021-06-01", 50)), "2021-06-02", "2021-06-01");
    assert_eq!(r.reward, 500);
    assert_eq!(r.reply, "Daily complete! This is day 51. You got **500** monies.");
}

#[test]
fn a_missed_day_loses_the_streak() {
    let r = daily_step(Some(("2021-05-30", 7)), "2021-06-02", "2021-06-01");
    assert_eq!(r.reply, "Streak lost! Your streak was 7. Run ^daily again to start again.");
    assert_eq!(r.reward, 0);
    assert_eq!(r.change, DailyChange::Forget);
}

#[test]
fn twice_a_day_gives_nothing() {
    let r = daily_step(Some(("2021-06-02", 3)), "2021-06-02", "2021-06-01");
    assert_eq!(r.reply, "Sorry, you have already done your daily for today. Your current streak is 3.");
    assert_eq!(r.reward, 0);
    assert_eq!(r.change, DailyChange::Keep);
}

#[test]
fn the_file_based_daily() {
    let lines = vec!["2021-05-31".to_string(), "2021-06-01".to_string()];
    let (last, n) = get_content_of_last_line(&lines);
    assert_eq!(last, "2021-06-01");
    assert_eq!(n, 2);
    let (last, n) = get_content_of_last_line(&vec![]);
    assert_eq!(last, "");
    assert_eq!(n, 0);
    let r = daily_from_file(false, "2021-06-01", 2, "2021-06-02", "2021-06-01");
    assert_eq!(r.reward, 30);
    let r = daily_from_file(true, "", 1, "2021-06-02", "2021-06-01");
    assert_eq!(r.change, DailyChange::Start);
}

#[test]
fn a_streak_over_several_days() {
    // day one: a new streak
    let r = daily_step(None, "2021-06-01", "2021-05-31");
    assert_eq!(r.change, DailyChange::Start);
    // the same day again: nothing more
    let r = daily_step(Some(("2021-06-01", 0)), "2021-06-01", "2021-05-31");
    assert_eq!(r.change, DailyChange::Keep);
    assert_eq!(r.reward, 0);
    // the next day: one more
    let r = daily_step(Some(("2021-06-01", 0)), "2021-06-02", "2021-06-01");
    assert_eq!(r.change, DailyChange::Extend);
    assert_eq!(r.reply, "Daily complete! This is day 1. You got **10** monies.");
    // a day missed: the streak is lost, and the next daily starts again
    let r = daily_step(Some(("2021-06-02", 1)), "2021-06-04", "2021-06-03");
    assert_eq!(r.change, DailyChange::Forget);
    let r = daily_step(None, "2021-06-04", "2021-06-03");
    assert_eq!(r.change, DailyChange::Start);
    assert_eq!(r.reward, 10);
}
