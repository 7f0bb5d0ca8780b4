use tweet_trends::aggregator::{Aggregator, AggregatorStatus, SubmitError};
use tweet_trends::messages::UpdateMessage;

#[test]
fn literal_scenario_single_key() {
    let mut agg = Aggregator::new(&vec!["art".to_string()]);
    agg.submit(UpdateMessage::NewTweet("art".to_string())).unwrap();
    agg.submit(UpdateMessage::NewTweet("art".to_string())).unwrap();
    agg.submit(UpdateMessage::NewMinute).unwrap();
    while agg.process_next() {}

    // trend_by_minute == (2.0, 0.0, 2)
    let snap = agg.snapshot();
    assert_eq!(snap.entries.len(), 1);
    assert_eq!(snap.entries[0].name, "art");
    let st = snap.entries[0].trend_by_minute;
    assert_eq!(st.running_sum, 2);
    assert_eq!(st.running_sum as f64 / st.avg_window as f64, 2.0f64);
    assert_eq!(-(st.trend_down as f64) / st.trend_den as f64, 0.0f64);

    agg.submit(UpdateMessage::NewTweet("art".to_string())).unwrap();
    agg.submit(UpdateMessage::NewMinute).unwrap();
    while agg.process_next() {}

    // trend_by_minute == (1.5, -66.66666666666666, 3)
    let snap = agg.snapshot();
    let st = snap.entries[0].trend_by_minute;
    assert_eq!(st.running_sum, 3);
    assert_eq!(st.running_sum as f64 / st.avg_window as f64, 1.5f64);
    assert_eq!(st.trend_down, 200);
    assert_eq!(st.trend_den, 3);
    let mav = st.running_sum as f64 / st.avg_window as f64;
    let trend = ((1f64 / st.avg_window as f64) - mav) / mav * 100f64;
    assert_eq!(trend, -66.66666666666666);
}

#[test]
fn shutdown_drains_queued_events() {
    let mut agg = Aggregator::new(&vec!["art".to_string()]);
    agg.submit(UpdateMessage::NewTweet("art".to_string())).unwrap();
    agg.submit(UpdateMessage::NewTweet("art".to_string())).unwrap();
    agg.submit(UpdateMessage::NewMinute).unwrap();
    agg.close();
    assert_eq!(agg.status, AggregatorStatus::Draining);
    agg.drain();
    assert_eq!(agg.status, AggregatorStatus::Stopped);
    assert_eq!(agg.queue.len(), 0);
    // The queued events were all applied before the stop.
    assert_eq!(agg.tracking.one_hour[0][0], 2);
    assert_eq!(agg.tracking.trend_by_minute[0].running_sum, 2);
    assert_eq!(agg.tracking.minute_count, 1);
}

#[test]
fn submit_after_stop_reports_closed() {
    let mut agg = Aggregator::new(&vec!["art".to_string()]);
    agg.close();
    agg.drain();
    assert_eq!(agg.status, AggregatorStatus::Stopped);
    let before = agg.tracking.one_hour[0].clone();
    let r = agg.submit(UpdateMessage::NewTweet("art".to_string()));
    assert_eq!(r, Err(SubmitError::Closed));
    assert_eq!(agg.queue.len(), 0);
    assert_eq!(agg.tracking.one_hour[0], before);
    // The rejected event is never applied, even if processing continues.
    agg.process_next();
    assert_eq!(agg.tracking.one_hour[0][0], 0);
}

#[test]
fn events_apply_in_arrival_order() {
    let mut agg = Aggregator::new(&vec!["art".to_string()]);
    agg.submit(UpdateMessage::NewTweet("art".to_string())).unwrap();
    agg.submit(UpdateMessage::NewMinute).unwrap();
    agg.submit(UpdateMessage::NewTweet("art".to_string())).unwrap();
    while agg.process_next() {}
    // One count landed before the tick, one after.
    assert_eq!(agg.tracking.one_hour[0][0], 1);
    assert_eq!(agg.tracking.one_hour[0][1], 1);
    assert_eq!(agg.tracking.trend_by_minute[0].running_sum, 1);
}

#[test]
fn snapshot_copies_every_resolution() {
    let mut agg = Aggregator::new(&vec!["art".to_string(), "music".to_string()]);
    agg.submit(UpdateMessage::NewTweet("music".to_string())).unwrap();
    while agg.process_next() {}
    let snap = agg.snapshot();
    assert_eq!(snap.entries.len(), 2);
    assert_eq!(snap.entries[1].name, "music");
    assert_eq!(snap.entries[1].current_hour.len(), 60);
    assert_eq!(snap.entries[1].current_day.len(), 24);
    assert_eq!(snap.entries[1].current_week.len(), 7);
    assert_eq!(snap.entries[1].current_hour[0], 1);
    assert_eq!(snap.entries[1].current_day[0], 1);
    assert_eq!(snap.entries[1].current_week[0], 1);
    assert_eq!(snap.entries[0].current_hour[0], 0);
    // The day-level trend is part of the export.
    assert_eq!(snap.entries[1].trend_by_day.running_sum, 0);
}
