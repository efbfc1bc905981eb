use bandwidth_monitor::collector::{
    parse_rate_record, DataCollector, RateRecord, CONNECTION_DOWN_COLUMN, CONNECTION_UP_COLUMN,
    PROCESS_DOWN_COLUMN, PROCESS_UP_COLUMN, REMOTE_ADDRESS_DOWN_COLUMN, REMOTE_ADDRESS_UP_COLUMN,
};
use bandwidth_monitor::query::rates_and_totals_rows;
use bandwidth_monitor::report::{
    handle_terminal_event, output_connections_data, output_process_data, output_process_total_data,
    output_remote_addresses_data, plan_refresh, ConnectionRow, EventAction, ProcessRow,
    RemoteAddressRow, TerminalEvent,
};
use bandwidth_monitor::series::{DataPoint, NamedSeries};
use bandwidth_monitor::throttling::{egress_reset_commands, ingress_limit_commands, ingress_module_commands, step_outcome};
use bandwidth_monitor::time::Moment;

fn split(line: &str) -> Vec<String> {
    line.split(',').map(|s| s.to_string()).collect()
}

#[test]
fn recorded_point_is_read_back() {
    let mut s = NamedSeries::new();
    s.record("a".to_string(), 50, DataPoint { value_up: 1, value_down: 1 });
    s.record("a".to_string(), 50, DataPoint { value_up: 2, value_down: 3 });
    let w = s.subset("a", Moment { secs: 50, nanos: 0 });
    assert_eq!(w[&50], DataPoint { value_up: 2, value_down: 3 });
    assert!(s.subset("a", Moment { secs: 50, nanos: 1 }).is_empty());
    assert!(s.subset("b", Moment { secs: 0, nanos: 0 }).is_empty());
}

#[test]
fn later_window_is_smaller() {
    let mut s = NamedSeries::new();
    for t in 0..10 {
        s.record("a".to_string(), t, DataPoint { value_up: t as u128, value_down: 0 });
    }
    let early = s.subset("a", Moment { secs: 3, nanos: 0 });
    let late = s.subset("a", Moment { secs: 6, nanos: 500 });
    assert_eq!(early.len(), 7);
    assert_eq!(late.len(), 3);
    for (k, v) in late.iter() {
        assert_eq!(early.get(k), Some(v));
    }
}

#[test]
fn rising_totals_are_stored_as_read_and_restarts_carry() {
    let mut c = DataCollector::new();
    let r = |ts: i64, up: u128, down: u128| RateRecord { timestamp: ts, name: "p".to_string(), up, down };
    c.open_process_total_file(&vec![r(1, 1, 1), r(2, 2, 2), r(3, 3, 3)]);
    let pts = c.get_process_total_subset("p", Moment { secs: 0, nanos: 0 });
    let got: Vec<_> = pts.values().map(|d| (d.value_up, d.value_down)).collect();
    assert_eq!(got, vec![(1, 1), (2, 2), (3, 3)]);

    let mut d = DataCollector::new();
    d.open_process_total_file(&vec![r(1, 10, 10), r(2, 4, 12)]);
    let pts = d.get_process_total_subset("p", Moment { secs: 2, nanos: 0 });
    assert_eq!((pts[&2].value_up, pts[&2].value_down), (14, 22));
    assert_eq!(d.get_process_total_file_upload("p".to_string()), 4);
}

#[test]
fn remote_address_and_connection_lines_read_back() {
    let mut c = DataCollector::new();
    let a = RemoteAddressRow { address: "example.org".to_string(), bytes_uploaded: 12, bytes_downloaded: 34, connection_count: 5 };
    let line = output_remote_addresses_data(&mut c, 1700000000, &vec![a], false).remove(0);
    let back = parse_rate_record(&split(&line), REMOTE_ADDRESS_UP_COLUMN, REMOTE_ADDRESS_DOWN_COLUMN).unwrap();
    assert_eq!((back.timestamp, back.name.as_str(), back.up, back.down), (1700000000, "example.org", 12, 34));

    let conn = ConnectionRow {
        interface_name: "eth0".to_string(),
        local_port: 1,
        remote_host: "h".to_string(),
        remote_port: 2,
        protocol: "udp".to_string(),
        display: "d".to_string(),
        bytes_uploaded: 56,
        bytes_downloaded: 78,
        process_name: "p".to_string(),
    };
    let line = output_connections_data(&mut c, -5, &vec![conn], false).remove(0);
    let back = parse_rate_record(&split(&line), CONNECTION_UP_COLUMN, CONNECTION_DOWN_COLUMN).unwrap();
    assert_eq!((back.timestamp, back.name.as_str(), back.up, back.down), (-5, "eth0", 56, 78));
}

#[test]
fn process_line_reads_back_its_pid_as_upload() {
    let mut c = DataCollector::new();
    let p = ProcessRow { name: "curl".to_string(), pid: 99, bytes_uploaded: 1, bytes_downloaded: 2, connection_count: 3 };
    let line = output_process_data(&mut c, 10, &vec![p], false).remove(0);
    let back = parse_rate_record(&split(&line), PROCESS_UP_COLUMN, PROCESS_DOWN_COLUMN).unwrap();
    assert_eq!((back.up, back.down), (99, 1));
}

#[test]
fn query_never_empty() {
    let s = NamedSeries::new();
    assert_eq!(rates_and_totals_rows("x", Moment { secs: 0, nanos: 0 }, &s).len(), 1);
}

#[test]
fn success_proceeds_and_ingress_plan_length() {
    for step in egress_reset_commands("eth0").iter().chain(ingress_module_commands().iter()) {
        assert_eq!(step_outcome(step, true, &b"err".to_vec()), None);
    }
    let ifaces: Vec<String> = vec!["a".to_string(), "b".to_string(), "c".to_string()];
    assert_eq!(ingress_module_commands().len() + ingress_limit_commands("a", 1, &ifaces).len(), 2 * 3 + 4);
}

fn conn(iface: &str, up: u128, down: u128) -> ConnectionRow {
    ConnectionRow {
        interface_name: iface.to_string(),
        local_port: 1,
        remote_host: "h".to_string(),
        remote_port: 2,
        protocol: "tcp".to_string(),
        display: "d".to_string(),
        bytes_uploaded: up,
        bytes_downloaded: down,
        process_name: "p".to_string(),
    }
}

#[test]
fn connection_file_of_many_writes_reads_back() {
    let mut written = DataCollector::new();
    let mut lines = Vec::new();
    lines.extend(output_connections_data(&mut written, 10, &vec![conn("eth0", 1, 2), conn("wlan0", 3, 4)], true));
    lines.extend(output_connections_data(&mut written, 20, &vec![conn("eth0", 5, 6)], false));
    lines.extend(output_connections_data(&mut written, 20, &vec![conn("eth0", 7, 8)], false));
    let records: Vec<RateRecord> = lines[1..]
        .iter()
        .map(|l| parse_rate_record(&split(l), CONNECTION_UP_COLUMN, CONNECTION_DOWN_COLUMN).unwrap())
        .collect();
    let mut read = DataCollector::new();
    read.open_connection_rate_file(&records);
    let all = Moment { secs: 0, nanos: 0 };
    for name in ["eth0", "wlan0"] {
        assert_eq!(read.get_connection_rate_subset(name, all), written.get_connection_rate_subset(name, all));
    }
    assert_eq!(read.get_connection_rate_subset("eth0", all)[&20], DataPoint { value_up: 7, value_down: 8 });
}

#[test]
fn remote_address_file_of_many_writes_reads_back() {
    let a = |h: &str, up: u128, down: u128| RemoteAddressRow { address: h.to_string(), bytes_uploaded: up, bytes_downloaded: down, connection_count: 1 };
    let mut written = DataCollector::new();
    let mut lines = Vec::new();
    lines.extend(output_remote_addresses_data(&mut written, 5, &vec![a("x", 1, 1), a("y", 2, 2)], false));
    lines.extend(output_remote_addresses_data(&mut written, 6, &vec![a("x", 3, 4)], false));
    let records: Vec<RateRecord> = lines
        .iter()
        .map(|l| parse_rate_record(&split(l), REMOTE_ADDRESS_UP_COLUMN, REMOTE_ADDRESS_DOWN_COLUMN).unwrap())
        .collect();
    let mut read = DataCollector::new();
    read.open_remote_address_rate_file(&records);
    let all = Moment { secs: 0, nanos: 0 };
    for name in ["x", "y"] {
        assert_eq!(read.get_remote_address_rate_subset(name, all), written.get_remote_address_rate_subset(name, all));
    }
}

#[test]
fn same_totals_written_twice_change_nothing() {
    let mut c = DataCollector::new();
    c.open_process_total_file(&vec![RateRecord { timestamp: 1, name: "p".to_string(), up: 100, down: 200 }]);
    let rows = vec![ProcessRow { name: "p".to_string(), pid: 7, bytes_uploaded: 1, bytes_downloaded: 2, connection_count: 1 }];
    let first = output_process_total_data(&mut c, 50, &rows, false);
    let all = Moment { secs: 0, nanos: 0 };
    let once = c.get_process_total_subset("p", all);
    let second = output_process_total_data(&mut c, 50, &rows, false);
    assert_eq!(first, second);
    assert_eq!(c.get_process_total_subset("p", all), once);
    assert_eq!(once[&50], DataPoint { value_up: 101, value_down: 202 });
    assert_eq!(c.get_process_total_file_upload("p".to_string()), 100);
}

#[test]
fn file_totals_survive_adds() {
    let mut c = DataCollector::new();
    let r = |ts: i64, name: &str, up: u128, down: u128| RateRecord { timestamp: ts, name: name.to_string(), up, down };
    c.open_connection_total_file(&vec![r(1, "eth0", 5, 6), r(2, "eth0", 9, 10), r(2, "lo", 1, 1)]);
    c.add_connection_total_data("eth0".to_string(), 3, 50, 60);
    c.add_connection_rate_data("eth0".to_string(), 3, 1, 1);
    c.add_process_total_data("eth0".to_string(), 3, 70, 80);
    assert_eq!(c.get_connection_total_file_upload("eth0".to_string()), 9);
    assert_eq!(c.get_connection_total_file_download("eth0".to_string()), 10);
    assert_eq!(c.get_connection_total_file_upload("wlan0".to_string()), 0);
}

#[test]
fn pause_follows_space_presses() {
    let events = [
        TerminalEvent::TogglePause,
        TerminalEvent::Tab,
        TerminalEvent::Resize,
        TerminalEvent::TogglePause,
        TerminalEvent::TogglePause,
        TerminalEvent::Other,
    ];
    let (mut paused, mut offset) = (false, 0usize);
    for e in events {
        match handle_terminal_event(e, false, paused, offset, 3) {
            EventAction::Pause => paused = true,
            EventAction::Resume => paused = false,
            EventAction::ShowTable(o) => offset = o,
            _ => {}
        }
    }
    assert!(paused);
    assert_eq!(offset, 1);
    let plan = plan_refresh(paused, 10, false);
    assert!(!plan.update_state && !plan.check_alerts && plan.draw_and_record && !plan.output_text);
    assert_eq!(handle_terminal_event(TerminalEvent::Tab, false, false, usize::MAX, 1), EventAction::ShowTable(usize::MAX));
}
