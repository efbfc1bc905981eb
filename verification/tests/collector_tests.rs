use bandwidth_monitor::collector::{
    parse_rate_record, totals_records_fit, DataCollector, RateRecord, SeriesKind,
    CONNECTION_DOWN_COLUMN, CONNECTION_UP_COLUMN, PROCESS_DOWN_COLUMN, PROCESS_UP_COLUMN,
};
use bandwidth_monitor::series::DataPoint;
use bandwidth_monitor::time::{Moment, MAX_TIMESTAMP, MIN_TIMESTAMP};

fn fields(v: &[&str]) -> Vec<String> {
    v.iter().map(|s| s.to_string()).collect()
}

fn rec(ts: i64, name: &str, up: u128, down: u128) -> RateRecord {
    RateRecord { timestamp: ts, name: name.to_string(), up, down }
}

fn points(m: &std::collections::BTreeMap<i64, DataPoint>) -> Vec<(i64, u128, u128)> {
    m.iter().map(|(k, v)| (*k, v.value_up, v.value_down)).collect()
}

#[test]
fn parses_a_process_record() {
    let r = parse_rate_record(&fields(&[" 1700000000 ", "firefox", "10", "20"]), PROCESS_UP_COLUMN, PROCESS_DOWN_COLUMN).unwrap();
    assert_eq!(r.timestamp, 1700000000);
    assert_eq!(r.name, "firefox");
    assert_eq!(r.up, 10);
    assert_eq!(r.down, 20);
}

#[test]
fn parses_a_connection_record_from_its_columns() {
    let f = fields(&["5", "eth0", "443", "1.2.3.4", "80", "tcp", "100", "200", "curl"]);
    let r = parse_rate_record(&f, CONNECTION_UP_COLUMN, CONNECTION_DOWN_COLUMN).unwrap();
    assert_eq!((r.timestamp, r.name.as_str(), r.up, r.down), (5, "eth0", 100, 200));
}

#[test]
fn rejects_malformed_records() {
    assert!(parse_rate_record(&fields(&["1", "p", "2"]), 2, 3).is_none());
    assert!(parse_rate_record(&fields(&["x", "p", "2", "3"]), 2, 3).is_none());
    assert!(parse_rate_record(&fields(&["1", "p", " 2", "3"]), 2, 3).is_none());
    assert!(parse_rate_record(&fields(&["1", "p", "2", "-3"]), 2, 3).is_none());
    assert!(parse_rate_record(&fields(&["1"]), 0, 0).is_none());
}

#[test]
fn timestamps_at_the_edge_of_chrono_range() {
    let at = |ts: i64| parse_rate_record(&fields(&[&ts.to_string(), "p", "1", "1"]), 2, 3).is_some();
    assert!(at(MIN_TIMESTAMP));
    assert!(!at(MIN_TIMESTAMP - 1));
    assert!(at(MAX_TIMESTAMP));
    assert!(!at(MAX_TIMESTAMP + 1));
    assert!(chrono::DateTime::from_timestamp(MIN_TIMESTAMP, 0).is_some());
    assert!(chrono::DateTime::from_timestamp(MAX_TIMESTAMP + 1, 0).is_none());
}

#[test]
fn add_then_subset_reads_back() {
    let mut c = DataCollector::new();
    c.add_process_rate_data("p".to_string(), 100, 1, 2);
    c.add_process_rate_data("p".to_string(), 200, 3, 4);
    c.add_process_rate_data("p".to_string(), 100, 5, 6);
    c.add_process_rate_data("q".to_string(), 150, 7, 8);
    let all = c.get_process_rate_subset("p", Moment { secs: 0, nanos: 0 });
    assert_eq!(points(&all), vec![(100, 5, 6), (200, 3, 4)]);
    let later = c.get_process_rate_subset("p", Moment { secs: 100, nanos: 1 });
    assert_eq!(points(&later), vec![(200, 3, 4)]);
    let exact = c.get_process_rate_subset("p", Moment { secs: 100, nanos: 0 });
    assert_eq!(points(&exact).len(), 2);
    assert!(c.get_process_rate_subset("none", Moment { secs: 0, nanos: 0 }).is_empty());
    assert!(c.get_connection_rate_subset("p", Moment { secs: 0, nanos: 0 }).is_empty());
    assert!(c.get_process_total_subset("p", Moment { secs: 0, nanos: 0 }).is_empty());
}

#[test]
fn every_store_keeps_its_own_points() {
    let mut c = DataCollector::new();
    c.add_connection_rate_data("eth0".to_string(), 1, 1, 1);
    c.add_remote_address_rate_data("host".to_string(), 2, 2, 2);
    c.add_process_total_data("p".to_string(), 3, 3, 3);
    c.add_connection_total_data("eth0".to_string(), 4, 4, 4);
    c.add_remote_address_total_data("host".to_string(), 5, 5, 5);
    let s = Moment { secs: 0, nanos: 0 };
    assert_eq!(points(&c.get_connection_rate_subset("eth0", s)), vec![(1, 1, 1)]);
    assert_eq!(points(&c.get_remote_address_rate_subset("host", s)), vec![(2, 2, 2)]);
    assert_eq!(points(&c.get_process_total_subset("p", s)), vec![(3, 3, 3)]);
    assert_eq!(points(&c.get_connection_total_subset("eth0", s)), vec![(4, 4, 4)]);
    assert_eq!(points(&c.get_remote_address_total_subset("host", s)), vec![(5, 5, 5)]);
    assert!(c.get_connection_total_subset("host", s).is_empty());
}

#[test]
fn save_rows_are_name_time_up_down() {
    let mut c = DataCollector::new();
    c.add_process_rate_data("b".to_string(), 86400, 10, 20);
    c.add_process_rate_data("a".to_string(), 0, 1, 2);
    c.add_process_rate_data("b".to_string(), 60, 3, 4);
    let rows = c.save_process_rate_data(Moment { secs: 0, nanos: 0 });
    assert_eq!(rows, vec![
        vec!["b".to_string(), "1970-01-01T00:01:00+00:00".to_string(), "3".to_string(), "4".to_string()],
        vec!["b".to_string(), "1970-01-02T00:00:00+00:00".to_string(), "10".to_string(), "20".to_string()],
        vec!["a".to_string(), "1970-01-01T00:00:00+00:00".to_string(), "1".to_string(), "2".to_string()],
    ]);
    let recent = c.save_process_rate_data(Moment { secs: 60, nanos: 5 });
    assert_eq!(recent.len(), 1);
    assert_eq!(recent[0][2], "10");
    assert!(c.save_connection_rate_data(Moment { secs: 0, nanos: 0 }).is_empty());
}

#[test]
fn rate_file_records_are_stored_in_order() {
    let mut c = DataCollector::new();
    c.open_process_rate_file(&vec![rec(10, "p", 1, 1), rec(10, "p", 2, 2), rec(5, "q", 3, 3)]);
    let s = Moment { secs: 0, nanos: 0 };
    assert_eq!(points(&c.get_process_rate_subset("p", s)), vec![(10, 2, 2)]);
    assert_eq!(points(&c.get_process_rate_subset("q", s)), vec![(5, 3, 3)]);
    c.open_connection_rate_file(&vec![rec(1, "eth0", 4, 4)]);
    c.open_remote_address_rate_file(&vec![rec(1, "h", 5, 5)]);
    assert_eq!(points(&c.get_connection_rate_subset("eth0", s)), vec![(1, 4, 4)]);
    assert_eq!(points(&c.get_remote_address_rate_subset("h", s)), vec![(1, 5, 5)]);
}

#[test]
fn totals_file_carries_over_counter_restarts() {
    let mut c = DataCollector::new();
    let records = vec![
        rec(1, "p", 10, 10),
        rec(2, "p", 20, 30),
        rec(3, "p", 5, 40),
        rec(4, "p", 7, 50),
        rec(5, "p", 9, 50),
    ];
    assert!(totals_records_fit(&records));
    c.open_process_total_file(&records);
    let s = Moment { secs: 0, nanos: 0 };
    assert_eq!(
        points(&c.get_process_total_subset("p", s)),
        vec![(1, 10, 10), (2, 20, 30), (3, 25, 70), (4, 27, 80), (5, 16, 100)]
    );
    assert_eq!(c.get_process_total_file_upload("p".to_string()), 9);
    assert_eq!(c.get_process_total_file_download("p".to_string()), 50);
    assert_eq!(c.get_process_total_file_upload("other".to_string()), 0);
    assert_eq!(c.get_process_total_file_download("other".to_string()), 0);
}

#[test]
fn totals_carry_is_shared_across_names() {
    let mut c = DataCollector::new();
    c.open_connection_total_file(&vec![rec(1, "a", 100, 100), rec(2, "b", 1, 1)]);
    let s = Moment { secs: 0, nanos: 0 };
    assert_eq!(points(&c.get_connection_total_subset("b", s)), vec![(2, 101, 101)]);
    assert_eq!(c.get_connection_total_file_upload("a".to_string()), 100);
    assert_eq!(c.get_connection_total_file_download("b".to_string()), 1);
    c.open_remote_address_total_file(&vec![rec(1, "h", 0, 3)]);
    assert_eq!(points(&c.get_remote_address_total_subset("h", s)), vec![(1, 0, 3)]);
    assert_eq!(c.get_remote_address_total_file_upload("h".to_string()), 0);
    assert_eq!(c.get_remote_address_total_file_download("h".to_string()), 3);
}

#[test]
fn totals_overflow_is_detected() {
    let records = vec![rec(1, "p", u128::MAX, 1), rec(2, "p", 1, 2)];
    assert!(!totals_records_fit(&records));
    let ok = vec![rec(1, "p", u128::MAX - 1, 1), rec(2, "p", 1, 2)];
    assert!(totals_records_fit(&ok));
}

#[test]
fn store_names_in_first_recorded_order() {
    let mut c = DataCollector::new();
    c.add_remote_address_rate_data("z".to_string(), 1, 0, 0);
    c.add_remote_address_rate_data("a".to_string(), 1, 0, 0);
    c.add_remote_address_rate_data("z".to_string(), 2, 0, 0);
    assert_eq!(c.series_store(SeriesKind::RemoteAddressRate).name_list(), vec!["z".to_string(), "a".to_string()]);
    let rows = c.save_remote_address_rate_data(Moment { secs: 0, nanos: 0 });
    assert_eq!(rows.len(), 3);
    let t = c.save_remote_address_total_data(Moment { secs: 0, nanos: 0 });
    assert!(t.is_empty());
    assert!(c.save_process_total_data(Moment { secs: 0, nanos: 0 }).is_empty());
    assert!(c.save_connection_total_data(Moment { secs: 0, nanos: 0 }).is_empty());
}

#[test]
fn representable_range_is_chronos() {
    assert_eq!(chrono::DateTime::<chrono::Utc>::MIN_UTC.timestamp(), MIN_TIMESTAMP);
    assert_eq!(chrono::DateTime::<chrono::Utc>::MAX_UTC.timestamp(), MAX_TIMESTAMP);
}
