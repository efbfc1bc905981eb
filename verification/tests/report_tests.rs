use bandwidth_monitor::collector::DataCollector;
use bandwidth_monitor::report::{
    check_alerts, connections_totals_fit, get_table_count, get_tables_to_display, handle_terminal_event,
    join_fields, output_connections_data, output_connections_total_data, output_process_data,
    output_process_total_data, output_remote_addresses_data, output_remote_addresses_total_data,
    output_text, plan_refresh, process_totals_fit, remote_addresses_totals_fit, ConnectionRow, EventAction,
    ProcessRow, RemoteAddressRow, TableKind, TableSelection, TerminalEvent,
};
use bandwidth_monitor::collector::RateRecord;
use bandwidth_monitor::time::Moment;

fn process(name: &str, pid: u32, up: u128, down: u128, count: usize) -> ProcessRow {
    ProcessRow { name: name.to_string(), pid, bytes_uploaded: up, bytes_downloaded: down, connection_count: count }
}

fn connection(iface: &str, up: u128, down: u128) -> ConnectionRow {
    ConnectionRow {
        interface_name: iface.to_string(),
        local_port: 5000,
        remote_host: "example.org".to_string(),
        remote_port: 443,
        protocol: "tcp".to_string(),
        display: "<eth0>:5000 => example.org:443 (tcp)".to_string(),
        bytes_uploaded: up,
        bytes_downloaded: down,
        process_name: "curl".to_string(),
    }
}

fn address(name: &str, up: u128, down: u128, count: usize) -> RemoteAddressRow {
    RemoteAddressRow { address: name.to_string(), bytes_uploaded: up, bytes_downloaded: down, connection_count: count }
}

fn strings(v: &[&str]) -> Vec<String> {
    v.iter().map(|s| s.to_string()).collect()
}

fn everything() -> Moment {
    Moment { secs: 0, nanos: 0 }
}

#[test]
fn joins_with_commas() {
    assert_eq!(join_fields(&strings(&[])), "");
    assert_eq!(join_fields(&strings(&["a"])), "a");
    assert_eq!(join_fields(&strings(&["a", "", "c"])), "a,,c");
}

#[test]
fn process_lines_and_rates() {
    let mut c = DataCollector::new();
    let rows = vec![process("firefox", 42, 100, 200, 3), process("curl", 7, 1, 2, 1)];
    let lines = output_process_data(&mut c, 1700000000, &rows, true);
    assert_eq!(lines, strings(&[
        "timestamp,process_name,pid,bytes_uploaded,bytes_downloaded,connection_count",
        "1700000000,firefox,42,100,200,3",
        "1700000000,curl,7,1,2,1",
    ]));
    let again = output_process_data(&mut c, 1700000001, &rows, false);
    assert_eq!(again.len(), 2);
    let pts = c.get_process_rate_subset("firefox", everything());
    assert_eq!(pts.len(), 2);
    assert_eq!(pts[&1700000000].value_up, 100);
    assert_eq!(pts[&1700000001].value_down, 200);
}

#[test]
fn connection_lines_are_filed_under_the_interface() {
    let mut c = DataCollector::new();
    let lines = output_connections_data(&mut c, 5, &vec![connection("eth0", 10, 20)], true);
    assert_eq!(lines, strings(&[
        "timestamp,interface_name,local_socket_port,target_ip,remote_socket_port,local_socket_protocol,bytes_uploaded,bytes_downloaded,process_name",
        "5,eth0,5000,example.org,443,tcp,10,20,curl",
    ]));
    assert_eq!(c.get_connection_rate_subset("eth0", everything()).len(), 1);
    assert!(c.get_connection_rate_subset("curl", everything()).is_empty());
}

#[test]
fn remote_address_lines() {
    let mut c = DataCollector::new();
    let lines = output_remote_addresses_data(&mut c, -1, &vec![address("1.2.3.4", 3, 4, 2)], true);
    assert_eq!(lines, strings(&[
        "timestamp,remote_address,bytes_uploaded,bytes_downloaded,connections_count",
        "-1,1.2.3.4,3,4,2",
    ]));
    assert_eq!(c.get_remote_address_rate_subset("1.2.3.4", Moment { secs: -1, nanos: 0 }).len(), 1);
}

#[test]
fn totals_add_what_was_read_from_the_file() {
    let mut c = DataCollector::new();
    c.open_process_total_file(&vec![RateRecord { timestamp: 1, name: "p".to_string(), up: 1000, down: 2000 }]);
    let rows = vec![process("p", 1, 5, 6, 1), process("new", 2, 7, 8, 1)];
    assert!(process_totals_fit(&c, 10, &rows));
    let lines = output_process_total_data(&mut c, 10, &rows, false);
    assert_eq!(lines, strings(&["10,p,1,5,6,1", "10,new,2,7,8,1"]));
    let p = c.get_process_total_subset("p", Moment { secs: 10, nanos: 0 });
    assert_eq!((p[&10].value_up, p[&10].value_down), (1005, 2006));
    let n = c.get_process_total_subset("new", everything());
    assert_eq!((n[&10].value_up, n[&10].value_down), (7, 8));
    assert!(c.get_process_rate_subset("p", everything()).is_empty());

    c.open_connection_total_file(&vec![RateRecord { timestamp: 1, name: "eth0".to_string(), up: 1, down: 1 }]);
    let conns = vec![connection("eth0", 10, 20)];
    assert!(connections_totals_fit(&c, 10, &conns));
    output_connections_total_data(&mut c, 10, &conns, true);
    let e = c.get_connection_total_subset("eth0", Moment { secs: 10, nanos: 0 });
    assert_eq!((e[&10].value_up, e[&10].value_down), (11, 21));

    let addrs = vec![address("h", u128::MAX, 0, 1)];
    c.open_remote_address_total_file(&vec![RateRecord { timestamp: 1, name: "h".to_string(), up: 1, down: 0 }]);
    assert!(!remote_addresses_totals_fit(&c, 10, &addrs));
    let fine = vec![address("h", 5, 0, 1)];
    assert!(remote_addresses_totals_fit(&c, 10, &fine));
    output_remote_addresses_total_data(&mut c, 10, &fine, false);
    let h = c.get_remote_address_total_subset("h", Moment { secs: 10, nanos: 0 });
    assert_eq!(h[&10].value_up, 6);
}

#[test]
fn text_output_with_and_without_traffic() {
    let none = TableSelection { processes: false, connections: false, addresses: false };
    let empty = output_text(none, 7, &vec![], &vec![], &vec![]);
    assert_eq!(empty, strings(&["Refreshing:", "<NO TRAFFIC>", ""]));
    let all = output_text(none, 7, &vec![process("curl", 1, 2, 3, 4)], &vec![connection("eth0", 5, 6)], &vec![address("h", 7, 8, 9)]);
    assert_eq!(all, strings(&[
        "Refreshing:",
        "process: <7> \"curl\" up/down Bps: 2/3 connections: 4",
        "connection: <7> <eth0>:5000 => example.org:443 (tcp) up/down Bps: 5/6 process: \"curl\"",
        "remote_address: <7> h up/down Bps: 7/8 connections: 9",
        "",
    ]));
    let only_addresses = TableSelection { processes: false, connections: false, addresses: true };
    let some = output_text(only_addresses, 7, &vec![process("curl", 1, 2, 3, 4)], &vec![], &vec![]);
    assert_eq!(some, strings(&["Refreshing:", "<NO TRAFFIC>", ""]));
}

#[test]
fn alerts_for_processes_over_the_threshold() {
    let rows = vec![process("a", 1, 600, 500, 1), process("b", 2, 512, 512, 1), process("c", 3, 0, 0, 0)];
    assert_eq!(check_alerts(&rows, 1), strings(&[
        "Alert: Process with PID: 1 has exceeded the bandwidth threshold of 1 kilobytes",
    ]));
    assert!(check_alerts(&rows, 2).is_empty());
    assert_eq!(check_alerts(&rows, 0).len(), 2);
}

#[test]
fn tables_follow_the_selection() {
    let sel = |p, c, a| TableSelection { processes: p, connections: c, addresses: a };
    assert_eq!(get_tables_to_display(sel(false, false, false)), vec![TableKind::Processes, TableKind::RemoteAddresses, TableKind::Connections]);
    assert_eq!(get_tables_to_display(sel(true, true, false)), vec![TableKind::Processes, TableKind::Connections]);
    assert_eq!(get_tables_to_display(sel(false, true, true)), vec![TableKind::RemoteAddresses, TableKind::Connections]);
    assert_eq!(get_table_count(sel(false, false, true)), 1);
    assert_eq!(get_table_count(sel(false, false, false)), 3);
}

#[test]
fn terminal_events() {
    assert_eq!(handle_terminal_event(TerminalEvent::Resize, false, false, 0, 3), EventAction::Redraw);
    assert_eq!(handle_terminal_event(TerminalEvent::Resize, true, false, 0, 3), EventAction::Ignore);
    assert_eq!(handle_terminal_event(TerminalEvent::Quit, true, true, 0, 3), EventAction::Stop);
    assert_eq!(handle_terminal_event(TerminalEvent::TogglePause, false, true, 0, 3), EventAction::Resume);
    assert_eq!(handle_terminal_event(TerminalEvent::TogglePause, false, false, 0, 3), EventAction::Pause);
    assert_eq!(handle_terminal_event(TerminalEvent::Tab, false, false, 4, 3), EventAction::ShowTable(5));
    assert_eq!(handle_terminal_event(TerminalEvent::Tab, false, false, 4, 1), EventAction::ShowTable(4));
    assert_eq!(handle_terminal_event(TerminalEvent::Other, false, false, 4, 1), EventAction::Ignore);
}

#[test]
fn refresh_plans() {
    let p = plan_refresh(false, 10, false);
    assert!(p.update_state && p.check_alerts && !p.output_text && p.draw_and_record);
    let q = plan_refresh(true, 10, true);
    assert!(!q.update_state && !q.check_alerts && q.output_text && !q.draw_and_record);
    assert!(!plan_refresh(false, 0, false).check_alerts);
}
