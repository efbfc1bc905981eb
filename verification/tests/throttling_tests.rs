use bandwidth_monitor::throttling::{
    egress_limit_commands, egress_reset_commands, ingress_limit_commands, ingress_module_commands, ingress_reset_commands,
    step_outcome, OnFailure, PlannedCommand,
};

fn describe(c: &PlannedCommand) -> (String, Vec<String>, String) {
    let policy = match &c.on_failure {
        OnFailure::Ignore => "ignore".to_string(),
        OnFailure::Fail(m) => format!("fail:{}", m),
        OnFailure::ReportStderr(m) => format!("stderr:{}", m),
        OnFailure::ReportStderrLossy(m) => format!("lossy:{}", m),
    };
    (c.program.clone(), c.args.clone(), policy)
}

fn sh(script: &str) -> Vec<String> {
    vec!["-c".to_string(), script.to_string()]
}

#[test]
fn egress_limit_is_one_tc_command() {
    let plan = egress_limit_commands("eth0", 10);
    assert_eq!(plan.len(), 1);
    assert_eq!(describe(&plan[0]), (
        "sh".to_string(),
        sh("sudo tc qdisc replace dev eth0 root handle 1: tbf rate 10mbit burst 32kbit latency 400ms"),
        "stderr:Failed to set egress bandwidth limit: ".to_string(),
    ));
}

#[test]
fn egress_reset_is_one_tc_command() {
    let plan = egress_reset_commands("wlan0");
    assert_eq!(plan.len(), 1);
    assert_eq!(describe(&plan[0]), (
        "sh".to_string(),
        sh("tc qdisc del dev wlan0 root"),
        "fail:Failed to reset egress bandwidth limit".to_string(),
    ));
}

#[test]
fn ingress_limit_cleans_every_interface_first() {
    let mut plan = ingress_module_commands();
    plan.extend(ingress_limit_commands("eth0", 5, &vec!["lo".to_string(), "eth0".to_string()]));
    let d: Vec<_> = plan.iter().map(describe).collect();
    assert_eq!(d.len(), 8);
    assert_eq!(d[0], ("sudo".to_string(), vec!["modprobe".to_string(), "ifb".to_string()], "fail:Failed to load ifb module".to_string()));
    assert_eq!(d[1], ("sh".to_string(), sh("sudo tc qdisc del dev lo root"), "ignore".to_string()));
    assert_eq!(d[2], ("sh".to_string(), sh("sudo tc qdisc del dev lo ingress"), "ignore".to_string()));
    assert_eq!(d[3], ("sh".to_string(), sh("sudo tc qdisc del dev eth0 root"), "ignore".to_string()));
    assert_eq!(d[4], ("sh".to_string(), sh("sudo tc qdisc del dev eth0 ingress"), "ignore".to_string()));
    assert_eq!(d[5], ("sh".to_string(), sh("sudo ip link add ifb0 type ifb; sudo ip link set dev ifb0 up"), "fail:Failed to setup ifb0 device".to_string()));
    assert_eq!(d[6], ("sh".to_string(), sh("sudo tc qdisc add dev eth0 handle ffff: ingress; sudo tc filter add dev eth0 parent ffff: protocol ip u32 match u32 0 0 action mirred egress redirect dev ifb0"), "fail:Failed to redirect ingress traffic".to_string()));
    assert_eq!(d[7], ("sh".to_string(), sh("sudo tc qdisc add dev ifb0 root handle 1: tbf rate 5mbit burst 32kbit latency 400ms"), "lossy:Failed to set ingress bandwidth limit: ".to_string()));
}

#[test]
fn ingress_reset_undoes_in_order() {
    let d: Vec<_> = ingress_reset_commands("eth0").iter().map(describe).collect();
    assert_eq!(d, vec![
        ("sh".to_string(), sh("sudo tc qdisc del dev ifb0 root"), "fail:Failed to remove qdisc from ifb0".to_string()),
        ("sh".to_string(), sh("sudo tc qdisc del dev eth0 ingress"), "fail:Failed to remove ingress qdisc".to_string()),
        ("sh".to_string(), sh("sudo ip link del ifb0"), "fail:Failed to delete ifb0 interface".to_string()),
        ("sudo".to_string(), vec!["rmmod".to_string(), "ifb".to_string()], "fail:Failed to remove ifb module".to_string()),
    ]);
}

#[test]
fn outcomes_decide_whether_to_go_on() {
    let egress = egress_limit_commands("eth0", 1);
    assert_eq!(step_outcome(&egress[0], true, &b"ignored".to_vec()), None);
    assert_eq!(step_outcome(&egress[0], false, &b"no such device".to_vec()), Some("Failed to set egress bandwidth limit: no such device".to_string()));
    assert_eq!(step_outcome(&egress[0], false, &vec![0xff, 0xfe]), Some("Failed to set egress bandwidth limit: Failed to parse error message".to_string()));
    let module = ingress_module_commands();
    assert_eq!(step_outcome(&module[0], false, &vec![]), Some("Failed to load ifb module".to_string()));
    let ingress = ingress_limit_commands("eth0", 1, &vec!["eth0".to_string()]);
    assert_eq!(step_outcome(&ingress[0], false, &vec![]), None);
    let last = &ingress[ingress.len() - 1];
    assert_eq!(step_outcome(last, false, &vec![b'x', 0xff]), Some("Failed to set ingress bandwidth limit: x\u{fffd}".to_string()));
    assert_eq!(step_outcome(last, true, &vec![0xff]), None);
}
