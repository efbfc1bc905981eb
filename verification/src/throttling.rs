//! The commands that limit and unlimit the bandwidth of an interface (with
//! `tc` and an `ifb` device), and how each command's outcome decides whether
//! the next one runs.

use vstd::prelude::*;
use vstd::utf8::{decode_utf8, valid_utf8};
use crate::text::{decimal, u128_to_decimal};

verus! {

/// What a failed command means for the operation.
pub enum OnFailure {
    /// The outcome does not matter; the next command runs.
    Ignore,
    /// The operation fails with this message.
    Fail(String),
    /// The operation fails with this message followed by the command's
    /// standard error, read as UTF-8 (or a fixed text where it is not).
    ReportStderr(String),
    /// The operation fails with this message followed by the command's
    /// standard error, read as UTF-8 with invalid bytes replaced.
    ReportStderrLossy(String),
}

/// A command of an operation: the program, its arguments, and what its
/// failure means.
pub struct PlannedCommand {
    pub program: String,
    pub args: Vec<String>,
    pub on_failure: OnFailure,
}

/// `OnFailure` as text.
pub enum FailureView {
    Ignore,
    Fail(Seq<char>),
    ReportStderr(Seq<char>),
    ReportStderrLossy(Seq<char>),
}

/// `PlannedCommand` as text.
pub struct StepView {
    pub program: Seq<char>,
    pub args: Seq<Seq<char>>,
    pub on_failure: FailureView,
}

impl View for OnFailure {
    type V = FailureView;

    open spec fn view(&self) -> FailureView {
        match self {
            OnFailure::Ignore => FailureView::Ignore,
            OnFailure::Fail(m) => FailureView::Fail(m@),
            OnFailure::ReportStderr(m) => FailureView::ReportStderr(m@),
            OnFailure::ReportStderrLossy(m) => FailureView::ReportStderrLossy(m@),
        }
    }
}

impl View for PlannedCommand {
    type V = StepView;

    open spec fn view(&self) -> StepView {
        StepView { program: self.program@, args: self.args.deep_view(), on_failure: self.on_failure@ }
    }
}

/// The commands of a plan as text.
pub open spec fn plan_view(plan: Seq<PlannedCommand>) -> Seq<StepView> {
    plan.map_values(|c: PlannedCommand| c@)
}

/// A shell script, run as `sh -c script`.
pub open spec fn shell(script: Seq<char>, on_failure: FailureView) -> StepView {
    StepView { program: "sh"@, args: seq!["-c"@, script], on_failure }
}

/// The script that limits the egress of `interface` to `limit` Mbit/s.
pub open spec fn egress_limit_script(interface: Seq<char>, limit: nat) -> Seq<char> {
    "sudo tc qdisc replace dev "@ + interface + " root handle 1: tbf rate "@ + decimal(limit)
        + "mbit burst 32kbit latency 400ms"@
}

/// Limiting the egress of `interface` to `limit` Mbit/s: one script, whose
/// failure reports its standard error.
pub open spec fn egress_limit_plan(interface: Seq<char>, limit: nat) -> Seq<StepView> {
    seq![shell(egress_limit_script(interface, limit), FailureView::ReportStderr("Failed to set egress bandwidth limit: "@))]
}

/// Removing the egress limit of `interface`.
pub open spec fn egress_reset_plan(interface: Seq<char>) -> Seq<StepView> {
    seq![shell("tc qdisc del dev "@ + interface + " root"@, FailureView::Fail("Failed to reset egress bandwidth limit"@))]
}

/// The two cleanup scripts for each of `interfaces`, whose outcome is ignored.
pub open spec fn cleanup_steps(interfaces: Seq<Seq<char>>) -> Seq<StepView>
    decreases interfaces.len(),
{
    if interfaces.len() == 0 {
        seq![]
    } else {
        let name = interfaces.last();
        cleanup_steps(interfaces.drop_last()) + seq![
            shell("sudo tc qdisc del dev "@ + name + " root"@, FailureView::Ignore),
            shell("sudo tc qdisc del dev "@ + name + " ingress"@, FailureView::Ignore),
        ]
    }
}

/// The script that sends the ingress of `interface` through `ifb0`.
pub open spec fn redirect_script(interface: Seq<char>) -> Seq<char> {
    "sudo tc qdisc add dev "@ + interface + " handle ffff: ingress; sudo tc filter add dev "@ + interface
        + " parent ffff: protocol ip u32 match u32 0 0 action mirred egress redirect dev ifb0"@
}

/// Loading the `ifb` module, the first step of limiting an ingress.
pub open spec fn ingress_module_plan() -> Seq<StepView> {
    seq![StepView {
        program: "sudo"@,
        args: seq!["modprobe"@, "ifb"@],
        on_failure: FailureView::Fail("Failed to load ifb module"@),
    }]
}

/// The rest of limiting the ingress of `interface` to `limit` Mbit/s, once
/// the module is loaded: clear the queueing disciplines of every interface
/// `interfaces` of the machine, bring up `ifb0`, redirect the ingress to it
/// and limit it there.
pub open spec fn ingress_shaping_plan(interface: Seq<char>, limit: nat, interfaces: Seq<Seq<char>>) -> Seq<StepView> {
    cleanup_steps(interfaces) + seq![
        shell("sudo ip link add ifb0 type ifb; sudo ip link set dev ifb0 up"@, FailureView::Fail("Failed to setup ifb0 device"@)),
        shell(redirect_script(interface), FailureView::Fail("Failed to redirect ingress traffic"@)),
        shell(
            "sudo tc qdisc add dev ifb0 root handle 1: tbf rate "@ + decimal(limit) + "mbit burst 32kbit latency 400ms"@,
            FailureView::ReportStderrLossy("Failed to set ingress bandwidth limit: "@),
        ),
    ]
}

/// Limiting the ingress of `interface` to `limit` Mbit/s, where
/// `interfaces` are the interfaces of the machine once the module is
/// loaded.
pub open spec fn ingress_limit_plan(interface: Seq<char>, limit: nat, interfaces: Seq<Seq<char>>) -> Seq<StepView> {
    ingress_module_plan() + ingress_shaping_plan(interface, limit, interfaces)
}

/// Removing the ingress limit of `interface`: remove the discipline of
/// `ifb0` and the ingress discipline of `interface`, delete `ifb0`, unload
/// the `ifb` module.
pub open spec fn ingress_reset_plan(interface: Seq<char>) -> Seq<StepView> {
    seq![
        shell("sudo tc qdisc del dev ifb0 root"@, FailureView::Fail("Failed to remove qdisc from ifb0"@)),
        shell("sudo tc qdisc del dev "@ + interface + " ingress"@, FailureView::Fail("Failed to remove ingress qdisc"@)),
        shell("sudo ip link del ifb0"@, FailureView::Fail("Failed to delete ifb0 interface"@)),
        StepView {
            program: "sudo"@,
            args: seq!["rmmod"@, "ifb"@],
            on_failure: FailureView::Fail("Failed to remove ifb module"@),
        },
    ]
}

/// The text that `String::from_utf8_lossy` makes of `bytes`.
pub uninterp spec fn lossy_text(bytes: Seq<u8>) -> Seq<char>;

/// The message an operation fails with after a command with failure policy
/// `on_failure` exits with `success` and standard error `stderr`; `None`
/// where the next command runs.
pub open spec fn failure_message(on_failure: FailureView, success: bool, stderr: Seq<u8>) -> Option<Seq<char>> {
    if success {
        None
    } else {
        match on_failure {
            FailureView::Ignore => None,
            FailureView::Fail(m) => Some(m),
            FailureView::ReportStderr(m) => Some(
                m + if valid_utf8(stderr) { decode_utf8(stderr) } else { "Failed to parse error message"@ },
            ),
            FailureView::ReportStderrLossy(m) => Some(m + lossy_text(stderr)),
        }
    }
}

/// `std::str::from_utf8`: the text of `bytes` where they are valid UTF-8.
#[verifier::external_body]
fn utf8_text(bytes: &[u8]) -> (r: Option<String>)
    ensures
        r is Some <==> valid_utf8(bytes@),
        r matches Some(s) ==> s@ == decode_utf8(bytes@),
{
    match std::str::from_utf8(bytes) {
        Ok(s) => Some(s.to_string()),
        Err(_) => None,
    }
}

/// `String::from_utf8_lossy`: the text of `bytes`, with each invalid
/// sequence replaced by U+FFFD. The contract names the result and states
/// only the documented case of valid input, which is decoded unchanged.
#[verifier::external_body]
fn lossy_utf8_text(bytes: &[u8]) -> (s: String)
    ensures
        s@ == lossy_text(bytes@),
        valid_utf8(bytes@) ==> s@ == decode_utf8(bytes@),
{
    String::from_utf8_lossy(bytes).to_string()
}

fn sh(script: String, on_failure: OnFailure) -> (c: PlannedCommand)
    ensures
        c@ == shell(script@, on_failure@),
{
    let args = vec![String::from_str("-c"), script];
    let c = PlannedCommand { program: String::from_str("sh"), args, on_failure };
    assert(c.args.deep_view() =~= seq!["-c"@, script@]);
    c
}

fn sudo(command: &str, on_failure: OnFailure) -> (c: PlannedCommand)
    ensures
        c@ == (StepView { program: "sudo"@, args: seq![command@, "ifb"@], on_failure: on_failure@ }),
{
    let args = vec![String::from_str(command), String::from_str("ifb")];
    let c = PlannedCommand { program: String::from_str("sudo"), args, on_failure };
    assert(c.args.deep_view() =~= seq![command@, "ifb"@]);
    c
}

fn fail(message: &str) -> (f: OnFailure)
    ensures
        f@ == FailureView::Fail(message@),
{
    OnFailure::Fail(String::from_str(message))
}

/// The message the operation fails with after `step` exits with `success`
/// and standard error `stderr`; `None` where the next command runs.
pub fn step_outcome(step: &PlannedCommand, success: bool, stderr: &Vec<u8>) -> (r: Option<String>)
    ensures
        match (r, failure_message(step.on_failure@, success, stderr@)) {
            (Some(s), Some(m)) => s@ == m,
            (None, None) => true,
            _ => false,
        },
{
    if success {
        return None;
    }
    match &step.on_failure {
        OnFailure::Ignore => None,
        OnFailure::Fail(m) => Some(m.clone()),
        OnFailure::ReportStderr(m) => {
            let mut s = m.clone();
            match utf8_text(stderr.as_slice()) {
                Some(t) => s.append(t.as_str()),
                None => s.append("Failed to parse error message"),
            }
            Some(s)
        },
        OnFailure::ReportStderrLossy(m) => {
            let mut s = m.clone();
            let t = lossy_utf8_text(stderr.as_slice());
            s.append(t.as_str());
            Some(s)
        },
    }
}

/// The commands that limit the egress of `interface` to `limit_mbps` Mbit/s.
pub fn egress_limit_commands(interface: &str, limit_mbps: usize) -> (plan: Vec<PlannedCommand>)
    ensures
        plan_view(plan@) == egress_limit_plan(interface@, limit_mbps as nat),
{
    let limit = u128_to_decimal(limit_mbps as u128);
    let mut script = String::from_str("sudo tc qdisc replace dev ");
    script.append(interface);
    script.append(" root handle 1: tbf rate ");
    script.append(limit.as_str());
    script.append("mbit burst 32kbit latency 400ms");
    let plan = vec![sh(script, OnFailure::ReportStderr(String::from_str("Failed to set egress bandwidth limit: ")))];
    assert(plan_view(plan@) =~= egress_limit_plan(interface@, limit_mbps as nat));
    plan
}

/// The commands that remove the egress limit of `interface`.
pub fn egress_reset_commands(interface: &str) -> (plan: Vec<PlannedCommand>)
    ensures
        plan_view(plan@) == egress_reset_plan(interface@),
{
    let mut script = String::from_str("tc qdisc del dev ");
    script.append(interface);
    script.append(" root");
    let plan = vec![sh(script, fail("Failed to reset egress bandwidth limit"))];
    assert(plan_view(plan@) =~= egress_reset_plan(interface@));
    plan
}

/// The command that loads the `ifb` module, which limiting an ingress runs
/// before it lists the interfaces of the machine.
pub fn ingress_module_commands() -> (plan: Vec<PlannedCommand>)
    ensures
        plan_view(plan@) == ingress_module_plan(),
{
    let plan = vec![sudo("modprobe", fail("Failed to load ifb module"))];
    assert(plan_view(plan@) =~= ingress_module_plan());
    plan
}

/// The commands that limit the ingress of `interface` to `limit_mbps`
/// Mbit/s once the module is loaded, clearing the disciplines of every
/// interface in `interfaces` first.
pub fn ingress_limit_commands(interface: &str, limit_mbps: usize, interfaces: &Vec<String>) -> (plan: Vec<PlannedCommand>)
    ensures
        plan_view(plan@) == ingress_shaping_plan(interface@, limit_mbps as nat, interfaces.deep_view()),
{
    let mut plan: Vec<PlannedCommand> = Vec::new();
    let mut i: usize = 0;
    assert(cleanup_steps(interfaces.deep_view().take(0)) =~= Seq::<StepView>::empty());
    assert(plan_view(plan@) =~= cleanup_steps(interfaces.deep_view().take(0)));
    while i < interfaces.len()
        invariant
            i <= interfaces.len(),
            plan_view(plan@) == cleanup_steps(interfaces.deep_view().take(i as int)),
        decreases interfaces.len() - i,
    {
        let ghost before = plan_view(plan@);
        let mut root = String::from_str("sudo tc qdisc del dev ");
        root.append(interfaces[i].as_str());
        root.append(" root");
        plan.push(sh(root, OnFailure::Ignore));
        let mut ingress = String::from_str("sudo tc qdisc del dev ");
        ingress.append(interfaces[i].as_str());
        ingress.append(" ingress");
        plan.push(sh(ingress, OnFailure::Ignore));
        proof {
            let names = interfaces.deep_view();
            let name = interfaces[i as int]@;
            assert(names.take(i + 1).drop_last() =~= names.take(i as int));
            assert(names.take(i + 1).last() == name);
            let added = seq![
                shell("sudo tc qdisc del dev "@ + name + " root"@, FailureView::Ignore),
                shell("sudo tc qdisc del dev "@ + name + " ingress"@, FailureView::Ignore),
            ];
            assert(plan_view(plan@) =~= before + added);
            assert(cleanup_steps(names.take(i + 1)) == cleanup_steps(names.take(i as int)) + added);
        }
        i = i + 1;
    }
    assert(interfaces.deep_view().take(i as int) =~= interfaces.deep_view());
    let ghost middle = plan_view(plan@);
    plan.push(sh(String::from_str("sudo ip link add ifb0 type ifb; sudo ip link set dev ifb0 up"), fail("Failed to setup ifb0 device")));
    let mut redirect = String::from_str("sudo tc qdisc add dev ");
    redirect.append(interface);
    redirect.append(" handle ffff: ingress; sudo tc filter add dev ");
    redirect.append(interface);
    redirect.append(" parent ffff: protocol ip u32 match u32 0 0 action mirred egress redirect dev ifb0");
    plan.push(sh(redirect, fail("Failed to redirect ingress traffic")));
    let limit = u128_to_decimal(limit_mbps as u128);
    let mut script = String::from_str("sudo tc qdisc add dev ifb0 root handle 1: tbf rate ");
    script.append(limit.as_str());
    script.append("mbit burst 32kbit latency 400ms");
    plan.push(sh(script, OnFailure::ReportStderrLossy(String::from_str("Failed to set ingress bandwidth limit: "))));
    assert(plan_view(plan@) =~= middle + seq![
        shell("sudo ip link add ifb0 type ifb; sudo ip link set dev ifb0 up"@, FailureView::Fail("Failed to setup ifb0 device"@)),
        shell(redirect_script(interface@), FailureView::Fail("Failed to redirect ingress traffic"@)),
        shell(
            "sudo tc qdisc add dev ifb0 root handle 1: tbf rate "@ + decimal(limit_mbps as nat) + "mbit burst 32kbit latency 400ms"@,
            FailureView::ReportStderrLossy("Failed to set ingress bandwidth limit: "@),
        ),
    ]);
    assert(plan_view(plan@) =~= ingress_shaping_plan(interface@, limit_mbps as nat, interfaces.deep_view()));
    plan
}

/// The commands that remove the ingress limit of `interface`.
pub fn ingress_reset_commands(interface: &str) -> (plan: Vec<PlannedCommand>)
    ensures
        plan_view(plan@) == ingress_reset_plan(interface@),
{
    let mut ingress = String::from_str("sudo tc qdisc del dev ");
    ingress.append(interface);
    ingress.append(" ingress");
    let plan = vec![
        sh(String::from_str("sudo tc qdisc del dev ifb0 root"), fail("Failed to remove qdisc from ifb0")),
        sh(ingress, fail("Failed to remove ingress qdisc")),
        sh(String::from_str("sudo ip link del ifb0"), fail("Failed to delete ifb0 interface")),
        sudo("rmmod", fail("Failed to remove ifb module")),
    ];
    assert(plan_view(plan@) =~= ingress_reset_plan(interface@));
    plan
}

} // verus!
