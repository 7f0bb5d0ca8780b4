use tweet_trends::tracking::{Tracking, DAYS_PER_WEEK, HOURS_PER_DAY, MIN_PER_HOUR};

#[test]
fn create() {
    let tracking = Tracking::new(&vec![
        "art".to_string(),
        "music".to_string(),
        "photography".to_string(),
        "love".to_string(),
        "fashion".to_string(),
    ]);
    assert_eq!(tracking.keys.len(), 5);
    assert_eq!(tracking.one_hour.len(), 5);
    assert_eq!(tracking.one_day.len(), 5);
    assert_eq!(tracking.one_week.len(), 5);
    assert_eq!(tracking.trend_by_minute.len(), 5);
    assert_eq!(tracking.trend_by_hour.len(), 5);
    assert_eq!(tracking.trend_by_day.len(), 5);

    assert_eq!(tracking.one_hour[0].len(), MIN_PER_HOUR);
    assert_eq!(tracking.one_day[0].len(), HOURS_PER_DAY);
    assert_eq!(tracking.one_week[0].len(), DAYS_PER_WEEK);

    assert_eq!(tracking.one_hour[4].len(), MIN_PER_HOUR);
    assert_eq!(tracking.one_day[4].len(), HOURS_PER_DAY);
    assert_eq!(tracking.one_week[4].len(), DAYS_PER_WEEK);
}

#[test]
fn new_tweet_by_topic() {
    let mut tracking = Tracking::new(&vec!["art".to_string()]);
    tracking.increment_count_by_key("art");
    assert_eq!(tracking.one_hour[0][0], 1);
}

#[test]
fn new_tweet_by_index() {
    let mut tracking = Tracking::new(&vec!["art".to_string()]);
    tracking.increment_count_by_index(0);
    assert_eq!(tracking.one_hour[0][0], 1);
}

#[test]
fn next_minute() {
    let mut tracking = Tracking::new(&vec!["art".to_string()]);
    tracking.increment_count_by_index(0);
    tracking.increment_count_by_index(0);
    tracking.minute_complete();
    tracking.increment_count_by_index(0);
    assert_eq!(tracking.one_hour[0][0], 2);
    assert_eq!(tracking.one_hour[0][1], 1);

    // The first tick: moving average 2.0, trend 0.0, running sum 2.
    let st = tracking.trend_by_minute[0];
    assert_eq!(st.running_sum, 2);
    assert_eq!(st.avg_window, 1);
    assert_eq!(st.running_sum as f64 / st.avg_window as f64, 2f64);
    assert_eq!(-(st.trend_down as f64) / st.trend_den as f64, 0f64);

    tracking.minute_complete();
    // The second tick: moving average 1.5, trend -66.66666666666666
    // (exactly -200/3), running sum 3.
    let st = tracking.trend_by_minute[0];
    assert_eq!(st.running_sum, 3);
    assert_eq!(st.avg_window, 2);
    assert_eq!(st.running_sum as f64 / st.avg_window as f64, 1.5f64);
    assert_eq!(st.trend_down, 200);
    assert_eq!(st.trend_den, 3);
    let mav = st.running_sum as f64 / st.avg_window as f64;
    let trend = ((1f64 / st.avg_window as f64) - mav) / mav * 100f64;
    assert_eq!(trend, -66.66666666666666);
}

#[test]
fn running_sum_is_window_sum_after_each_tick() {
    let mut tracking = Tracking::new(&vec!["art".to_string()]);
    for _ in 0..5 {
        tracking.increment_count_by_index(0);
    }
    tracking.minute_complete();
    // Right after a tick the cursor bucket is zero, so the window sum is the
    // whole buffer.
    let total: u64 = tracking.one_hour[0].iter().sum();
    assert_eq!(tracking.trend_by_minute[0].running_sum, total as u128);
    assert_eq!(total, 5);

    for _ in 0..3 {
        tracking.increment_count_by_index(0);
    }
    tracking.minute_complete();
    let total: u64 = tracking.one_hour[0].iter().sum();
    assert_eq!(tracking.trend_by_minute[0].running_sum, total as u128);
    assert_eq!(total, 8);
}

#[test]
fn eviction_leaves_window_bounded() {
    let mut tracking = Tracking::new(&vec!["art".to_string()]);
    tracking.increment_count_by_index(0);
    for _ in 0..59 {
        tracking.minute_complete();
    }
    // 59 ticks: the count is still inside the hour window.
    assert_eq!(tracking.trend_by_minute[0].running_sum, 1);
    tracking.minute_complete();
    // The 60th tick wraps the cursor and evicts the old bucket.
    assert_eq!(tracking.trend_by_minute[0].running_sum, 0);
    let total: u64 = tracking.one_hour[0].iter().sum();
    assert_eq!(total, 0);
}

#[test]
fn hour_window_sum_after_cascade() {
    let mut tracking = Tracking::new(&vec!["art".to_string()]);
    tracking.increment_count_by_index(0);
    tracking.increment_count_by_index(0);
    for _ in 0..60 {
        tracking.minute_complete();
    }
    // The 60th tick cascaded: the first hour bucket was finalized with both
    // counts, and the hour running sum covers exactly the hour buffer.
    let st = tracking.trend_by_hour[0];
    assert_eq!(st.running_sum, 2);
    assert_eq!(st.avg_window, 1);
    let total: u64 = tracking.one_day[0].iter().sum();
    assert_eq!(total, 2);
}

#[test]
fn warm_level_saturates_at_capacity() {
    let mut tracking = Tracking::new(&vec!["art".to_string()]);
    assert_eq!(tracking.minute_level, 1);
    for i in 0..59 {
        assert_eq!(tracking.minute_level, i + 1);
        tracking.minute_complete();
    }
    assert_eq!(tracking.minute_level, 60);
    for _ in 0..5 {
        tracking.minute_complete();
        assert_eq!(tracking.minute_level, 60);
    }
}

#[test]
fn cascade_fires_hour_exactly_on_sixtieth_tick() {
    let mut tracking = Tracking::new(&vec!["art".to_string()]);
    for _ in 0..59 {
        tracking.minute_complete();
    }
    assert_eq!(tracking.hour_count, 0);
    assert_eq!(tracking.hour_level, 1);
    tracking.minute_complete();
    assert_eq!(tracking.hour_count, 1);
    assert_eq!(tracking.hour_level, 2);
    for _ in 0..59 {
        tracking.minute_complete();
    }
    assert_eq!(tracking.hour_count, 1);
    tracking.minute_complete();
    assert_eq!(tracking.hour_count, 2);
}

#[test]
fn cascade_fires_day_exactly_on_tick_1440() {
    let mut tracking = Tracking::new(&vec!["art".to_string()]);
    for _ in 0..1439 {
        tracking.minute_complete();
    }
    assert_eq!(tracking.day_count, 0);
    assert_eq!(tracking.day_level, 1);
    tracking.minute_complete();
    assert_eq!(tracking.day_count, 1);
    assert_eq!(tracking.day_level, 2);
}

#[test]
fn trend_unchanged_while_average_is_zero() {
    let mut tracking = Tracking::new(&vec!["art".to_string()]);
    // No increments: the running sum stays zero, so the trend keeps its
    // initial value through every tick.
    for _ in 0..3 {
        tracking.minute_complete();
        let st = tracking.trend_by_minute[0];
        assert_eq!(st.running_sum, 0);
        assert_eq!(st.trend_down, 0);
        assert_eq!(st.trend_den, 1);
    }
}

#[test]
fn trend_sticky_after_window_empties() {
    let mut tracking = Tracking::new(&vec!["art".to_string()]);
    tracking.increment_count_by_index(0);
    for _ in 0..59 {
        tracking.minute_complete();
    }
    // At the 59th tick the window still holds the one count, and the
    // just-completed period had none: trend is exactly -100 percent.
    let st = tracking.trend_by_minute[0];
    assert_eq!(st.running_sum, 1);
    assert_eq!(st.trend_down, 100);
    assert_eq!(st.trend_den, 1);
    // The 60th tick evicts the count; the average becomes zero and the trend
    // keeps its previous value.
    tracking.minute_complete();
    let st = tracking.trend_by_minute[0];
    assert_eq!(st.running_sum, 0);
    assert_eq!(st.trend_down, 100);
    assert_eq!(st.trend_den, 1);
}

#[test]
fn unknown_key_is_a_no_op() {
    let mut tracking = Tracking::new(&vec!["art".to_string()]);
    tracking.increment_count_by_key("nonexistent");
    let total_hour: u64 = tracking.one_hour[0].iter().sum();
    let total_day: u64 = tracking.one_day[0].iter().sum();
    let total_week: u64 = tracking.one_week[0].iter().sum();
    assert_eq!(total_hour, 0);
    assert_eq!(total_day, 0);
    assert_eq!(total_week, 0);
    assert_eq!(tracking.trend_by_minute[0].running_sum, 0);
}

#[test]
fn empty_key_list_still_ticks() {
    let mut tracking = Tracking::new(&vec![]);
    assert_eq!(tracking.keys.len(), 0);
    for _ in 0..61 {
        tracking.minute_complete();
    }
    assert_eq!(tracking.hour_count, 1);
}

#[test]
fn counter_saturates_at_max() {
    let mut tracking = Tracking::new(&vec!["art".to_string()]);
    tracking.one_hour[0][0] = u64::MAX - 1;
    tracking.increment_count_by_index(0);
    assert_eq!(tracking.one_hour[0][0], u64::MAX);
    tracking.increment_count_by_index(0);
    assert_eq!(tracking.one_hour[0][0], u64::MAX);
}
