use bandwidth_monitor::query::{get_rates_and_totals, rates_and_totals_rows, save_window_from_clock, save_window_start, window_start};
use bandwidth_monitor::series::{DataPoint, NamedSeries};
use bandwidth_monitor::time::{Moment, MIN_TIMESTAMP};

fn store() -> NamedSeries {
    let mut s = NamedSeries::new();
    s.record("p".to_string(), 0, DataPoint { value_up: 1, value_down: 2 });
    s.record("p".to_string(), 3600, DataPoint { value_up: 30, value_down: 40 });
    s.record("q".to_string(), 10, DataPoint { value_up: 5, value_down: 6 });
    s
}

fn no_data() -> Vec<Vec<String>> {
    vec![vec!["No data available".to_string(); 3]]
}

#[test]
fn periods_count_back_from_now() {
    let now = Moment { secs: 1_000_000_000, nanos: 7 };
    assert_eq!(window_start("Last Year", now), Some(Moment { secs: 1_000_000_000 - 31_536_000, nanos: 7 }));
    assert_eq!(window_start("Last Week", now), Some(Moment { secs: 1_000_000_000 - 604_800, nanos: 7 }));
    assert_eq!(window_start("Last Month", now), Some(Moment { secs: 0, nanos: 0 }));
    assert_eq!(window_start("anything", now), Some(Moment { secs: 0, nanos: 0 }));
    let early = Moment { secs: MIN_TIMESTAMP + 10, nanos: 0 };
    assert_eq!(window_start("Last Week", early), None);
    assert_eq!(window_start("Last Month", early), Some(Moment { secs: 0, nanos: 0 }));
}

#[test]
fn query_rows_are_time_up_down() {
    let s = store();
    let rows = rates_and_totals_rows("p", Moment { secs: 0, nanos: 0 }, &s);
    assert_eq!(rows, vec![
        vec!["1970-01-01T00:00:00+00:00".to_string(), "1".to_string(), "2".to_string()],
        vec!["1970-01-01T01:00:00+00:00".to_string(), "30".to_string(), "40".to_string()],
    ]);
    let later = rates_and_totals_rows("p", Moment { secs: 0, nanos: 1 }, &s);
    assert_eq!(later.len(), 1);
    assert_eq!(later[0][1], "30");
}

#[test]
fn query_without_points_answers_no_data() {
    let s = store();
    assert_eq!(rates_and_totals_rows("missing", Moment { secs: 0, nanos: 0 }, &s), no_data());
    assert_eq!(rates_and_totals_rows("p", Moment { secs: 3601, nanos: 0 }, &s), no_data());
}

#[test]
fn unnamed_period_reads_everything_since_the_epoch() {
    let s = store();
    let rows = get_rates_and_totals("q", "Last Month", &s).unwrap();
    assert_eq!(rows, vec![vec!["1970-01-01T00:00:10+00:00".to_string(), "5".to_string(), "6".to_string()]]);
}

#[test]
fn last_week_excludes_old_points_and_keeps_new_ones() {
    let mut s = store();
    let now = chrono::Utc::now().timestamp();
    s.record("p".to_string(), now - 60, DataPoint { value_up: 9, value_down: 9 });
    let rows = get_rates_and_totals("p", "Last Week", &s).unwrap();
    assert_eq!(rows.len(), 1);
    assert_eq!(rows[0][1], "9");
    assert_eq!(get_rates_and_totals("q", "Last Year", &s).unwrap(), no_data());
}

#[test]
fn saves_go_back_ninety_days() {
    let now = Moment { secs: 10_000_000_000, nanos: 3 };
    assert_eq!(save_window_start(now), Some(Moment { secs: 10_000_000_000 - 7_776_000, nanos: 3 }));
    assert_eq!(save_window_start(Moment { secs: MIN_TIMESTAMP, nanos: 0 }), None);
    let start = save_window_from_clock().unwrap();
    let expected = chrono::Utc::now().timestamp() - 7_776_000;
    assert!((start.secs - expected).abs() <= 5);
}
