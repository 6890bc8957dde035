//! What is run on the machine: setting up the interface, network address
//! translation, and the file that names the running `hostapd`.
use vstd::prelude::*;
use vstd::string::*;

use crate::config::{below, opt_text, path_below, Config, ConfigView};
use crate::number::{decimal, decimal_text, i32_value, parse_i32};
use crate::record::{
    entry_text, law_record_is_added, law_records_read_back, read_nat_record, record_lines,
    record_views, records_of, records_text, NatRecord, NatRecordView,
};
use crate::text::{
    all_space, join, joined, law_occurrence, law_split_undoes_join, law_trimming, lemma_texts_push,
    occurs_in, split, split_on, str_eq, texts, trim, trimmed, words, words_of,
};
use crate::unicode::{from_utf8_lossy, lossy_text};

verus! {

broadcast use vstd::string::group_string_axioms;

/// Something that is done on the machine.
pub enum Step {
    /// Run a program. A failure is reported as that of `purpose`, where there
    /// is one, else as that of the command.
    Run { program: String, args: Vec<String>, purpose: Option<String> },
    /// Replace what a file holds. A failure is reported as that of `purpose`.
    Write { path: String, data: String, purpose: String },
}

/// Steps to be done in order.
pub struct Plan {
    pub steps: Vec<Step>,
    /// Whether the steps after one that failed are done.
    pub keep_going: bool,
}

/// What follows a step.
#[derive(Debug, Clone, Copy, PartialEq, Eq, Structural)]
pub enum Progress {
    /// The step of this number.
    Next(usize),
    /// Nothing: the plan is done.
    Done,
    /// Nothing: the plan failed.
    Failed,
}

/// Why something cannot be done on the machine.
#[derive(Debug, Clone)]
pub enum ProcessError {
    /// A program is not installed.
    NotFound(String),
    /// A gateway that does not consist of four parts.
    InvalidGateway(String),
    /// A command that failed.
    CommandFailed(String),
    /// The file that names the running `hostapd` cannot be read.
    PidFileUnreadable,
    /// The file that names the running `hostapd` does not hold a number.
    PidFileInvalid,
}

/// What was found of the file that names the running `hostapd`.
pub enum PidFile {
    Missing,
    Unreadable,
    Contents(String),
}

// ---------------------------------------------------------------------------
// Model
// ---------------------------------------------------------------------------

#[verifier::ext_equal]
pub enum StepView {
    Run { program: Seq<char>, args: Seq<Seq<char>>, purpose: Option<Seq<char>> },
    Write { path: Seq<char>, data: Seq<char>, purpose: Seq<char> },
}

#[verifier::ext_equal]
pub enum ProcessErrorView {
    NotFound(Seq<char>),
    InvalidGateway(Seq<char>),
    CommandFailed(Seq<char>),
    PidFileUnreadable,
    PidFileInvalid,
}

impl View for Step {
    type V = StepView;

    open spec fn view(&self) -> StepView {
        match self {
            Step::Run { program, args, purpose } => StepView::Run {
                program: program@,
                args: texts(args@),
                purpose: opt_text(*purpose),
            },
            Step::Write { path, data, purpose } => StepView::Write {
                path: path@,
                data: data@,
                purpose: purpose@,
            },
        }
    }
}

impl View for ProcessError {
    type V = ProcessErrorView;

    open spec fn view(&self) -> ProcessErrorView {
        match self {
            ProcessError::NotFound(s) => ProcessErrorView::NotFound(s@),
            ProcessError::InvalidGateway(s) => ProcessErrorView::InvalidGateway(s@),
            ProcessError::CommandFailed(s) => ProcessErrorView::CommandFailed(s@),
            ProcessError::PidFileUnreadable => ProcessErrorView::PidFileUnreadable,
            ProcessError::PidFileInvalid => ProcessErrorView::PidFileInvalid,
        }
    }
}

impl Plan {
    /// The steps, in order.
    pub open spec fn steps_view(self) -> Seq<StepView> {
        self.steps@.map_values(|s: Step| s@)
    }
}

/// The length of the network prefix that goes with the first part of an
/// address.
pub open spec fn prefix_length(first: Seq<char>) -> nat {
    if first == "10"@ {
        8
    } else if first == "172"@ {
        12
    } else {
        24
    }
}

/// A gateway with the length of its network prefix.
pub open spec fn cidr_of(gateway: Seq<char>) -> Option<Seq<char>> {
    let p = split_on(gateway, '.');
    if p.len() == 4 {
        Some(gateway + "/"@ + decimal(prefix_length(p[0])))
    } else {
        None
    }
}

/// The network that a gateway is taken to serve.
pub open spec fn subnet_of(gateway: Seq<char>) -> Option<Seq<char>> {
    let p = split_on(gateway, '.');
    if p.len() == 4 {
        Some(
            p[0] + "."@ + p[1] + "."@ + p[2] + ".0/"@ + decimal(prefix_length(p[0])),
        )
    } else {
        None
    }
}

/// Running `ip` for a purpose.
pub open spec fn ip_command(purpose: Seq<char>, args: Seq<Seq<char>>) -> StepView {
    StepView::Run { program: "ip"@, args, purpose: Some(purpose) }
}

/// Running `iptables`.
pub open spec fn iptables_command(args: Seq<Seq<char>>) -> StepView {
    StepView::Run { program: "iptables"@, args, purpose: None }
}

/// What gives the interface its address and brings it up.
pub open spec fn interface_steps(interface: Seq<char>, cidr: Seq<char>) -> Seq<StepView> {
    seq![
        ip_command("ip addr flush"@, seq!["addr"@, "flush"@, "dev"@, interface]),
        ip_command("ip addr add"@, seq!["addr"@, "add"@, cidr, "dev"@, interface]),
        ip_command("ip link set up"@, seq!["link"@, "set"@, interface, "up"@]),
    ]
}

/// A rule of the packet filter: the table, where it is not the usual one, the
/// chain, and what the rule says.
#[verifier::ext_equal]
pub struct RuleView {
    pub table: Option<Seq<char>>,
    pub chain: Seq<char>,
    pub rule: Seq<Seq<char>>,
}

/// The rules of address translation: what leaves for `upstream` is masked;
/// what comes from the hotspot is let through, and so are the answers.
pub open spec fn nat_rules(
    upstream: Seq<char>,
    ap_iface: Seq<char>,
    subnet: Seq<char>,
) -> Seq<RuleView> {
    seq![
        RuleView {
            table: Some("nat"@),
            chain: "POSTROUTING"@,
            rule: seq!["-o"@, upstream, "-s"@, subnet, "-j"@, "MASQUERADE"@],
        },
        RuleView {
            table: None,
            chain: "FORWARD"@,
            rule: seq!["-i"@, ap_iface, "-o"@, upstream, "-s"@, subnet, "-j"@, "ACCEPT"@],
        },
        RuleView {
            table: None,
            chain: "FORWARD"@,
            rule: seq![
                "-i"@,
                upstream,
                "-o"@,
                ap_iface,
                "-d"@,
                subnet,
                "-m"@,
                "state"@,
                "--state"@,
                "ESTABLISHED,RELATED"@,
                "-j"@,
                "ACCEPT"@,
            ],
        },
    ]
}

/// The command that does `verb` with a rule.
pub open spec fn rule_command(verb: Seq<char>, r: RuleView) -> StepView {
    iptables_command(
        (match r.table {
            Some(t) => seq!["-t"@, t],
            None => Seq::empty(),
        }) + seq![verb, r.chain] + r.rule,
    )
}

/// The command that adds a rule.
pub open spec fn add_rule(r: RuleView) -> StepView {
    rule_command("-A"@, r)
}

/// The command that deletes a rule.
pub open spec fn delete_rule(r: RuleView) -> StepView {
    rule_command("-D"@, r)
}

/// What switches the forwarding of packets on.
pub open spec fn forwarding_on() -> StepView {
    StepView::Write {
        path: "/proc/sys/net/ipv4/ip_forward"@,
        data: "1"@,
        purpose: "enabling ip_forward"@,
    }
}

/// What sets address translation up.
pub open spec fn nat_on_steps(
    upstream: Seq<char>,
    ap_iface: Seq<char>,
    subnet: Seq<char>,
) -> Seq<StepView> {
    seq![forwarding_on()] + nat_rules(upstream, ap_iface, subnet).map_values(
        |r: RuleView| add_rule(r),
    )
}

/// What takes address translation down. A gateway without a network has had
/// none set up.
pub open spec fn nat_off_steps(
    upstream: Seq<char>,
    ap_iface: Seq<char>,
    gateway: Seq<char>,
) -> Seq<StepView> {
    match subnet_of(gateway) {
        Some(subnet) => nat_rules(upstream, ap_iface, subnet).map_values(
            |r: RuleView| delete_rule(r),
        ),
        None => Seq::empty(),
    }
}

/// The word after the first that is `mark`.
pub open spec fn word_after(words: Seq<Seq<char>>, mark: Seq<char>) -> Option<Seq<char>>
    decreases words.len(),
{
    if words.len() == 0 {
        None
    } else if words[0] == mark {
        if words.len() > 1 {
            Some(words[1])
        } else {
            None
        }
    } else {
        word_after(words.drop_first(), mark)
    }
}

/// The interface that a listing of the default route names.
pub open spec fn route_device(text: Seq<char>) -> Option<Seq<char>> {
    word_after(words_of(text), "dev"@)
}

/// The interface for address translation: the one that is set, else the one of
/// the default route, unless that is the interface of the hotspot.
pub open spec fn upstream_of(
    set: Option<Seq<char>>,
    detected: Option<Seq<char>>,
    interface: Seq<char>,
) -> Option<Seq<char>> {
    match set {
        Some(u) => Some(u),
        None => match detected {
            Some(d) if d != interface => Some(d),
            _ => None,
        },
    }
}

/// What takes down the address translation of a hotspot with the settings
/// `cfg`, where the default route is over `detected`.
pub open spec fn cleanup_steps(cfg: ConfigView, detected: Option<Seq<char>>) -> Seq<StepView> {
    match upstream_of(cfg.upstream, detected, cfg.interface) {
        Some(up) => nat_off_steps(up, cfg.interface, cfg.gateway_text()),
        None => Seq::empty(),
    }
}

/// What takes down all address translation that was set up by a record.
pub open spec fn recorded_off_steps(list: Seq<NatRecordView>) -> Seq<StepView>
    decreases list.len(),
{
    if list.len() == 0 {
        Seq::empty()
    } else {
        recorded_off_steps(list.drop_last()) + nat_off_steps(
            list.last().upstream,
            list.last().ap_iface,
            list.last().gateway,
        )
    }
}

/// What was recorded of the address translation that was set up, where the
/// file holds anything.
pub open spec fn recorded(record: Option<Seq<char>>) -> Option<Seq<NatRecordView>> {
    match record {
        Some(text) => match records_of(text) {
            Some(list) if list.len() > 0 => Some(list),
            _ => None,
        },
        None => None,
    }
}

/// What takes the address translation of a hotspot down: all that was recorded
/// of it. Without a record it goes by the settings `cfg`, if there are any, and
/// the interface `detected` of the default route.
pub open spec fn stop_steps(
    record: Option<Seq<char>>,
    cfg: Option<ConfigView>,
    detected: Option<Seq<char>>,
) -> Seq<StepView> {
    match recorded(record) {
        Some(list) => recorded_off_steps(list),
        None => match cfg {
            Some(cfg) => cleanup_steps(cfg, detected),
            None => Seq::empty(),
        },
    }
}

/// The process that the text of a file names.
pub open spec fn pid_of(text: Seq<char>) -> Option<int> {
    i32_value(trimmed(text))
}

/// The process that the file of the running `hostapd` names.
pub open spec fn named_pid(file: PidFile) -> Option<i32> {
    match file {
        PidFile::Contents(text) => match pid_of(text@) {
            Some(v) => Some(v as i32),
            None => None,
        },
        _ => None,
    }
}

/// What is wrong with the file of the running `hostapd`. That there is none is
/// no fault.
pub open spec fn pid_fault(file: PidFile) -> Option<ProcessErrorView> {
    match file {
        PidFile::Missing => None,
        PidFile::Unreadable => Some(ProcessErrorView::PidFileUnreadable),
        PidFile::Contents(text) => if pid_of(text@) is None {
            Some(ProcessErrorView::PidFileInvalid)
        } else {
            None
        },
    }
}

/// The fault that there may be.
pub open spec fn opt_fault(e: Option<ProcessError>) -> Option<ProcessErrorView> {
    match e {
        Some(e) => Some(e@),
        None => None,
    }
}

/// The directory for the files of a running hotspot.
pub open spec fn runtime_directory() -> Seq<char> {
    "/tmp/heisspunk"@
}

/// A command in print.
pub open spec fn command_text(program: Seq<char>, args: Seq<Seq<char>>) -> Seq<char> {
    program + " "@ + joined(args, " "@)
}

/// What a fault is reported as.
pub open spec fn process_fault_text(fault: ProcessErrorView) -> Seq<char> {
    match fault {
        ProcessErrorView::NotFound(cmd) => cmd + " not found in PATH"@,
        ProcessErrorView::InvalidGateway(gateway) => "invalid gateway IP: "@ + gateway,
        ProcessErrorView::CommandFailed(command) => command + " failed"@,
        ProcessErrorView::PidFileUnreadable => "reading pid file"@,
        ProcessErrorView::PidFileInvalid => "parsing pid"@,
    }
}

// ---------------------------------------------------------------------------
// Laws
// ---------------------------------------------------------------------------

/// What stopping deletes is what starting added: for the same settings, the
/// same rules in the same order.
pub proof fn law_stop_deletes_what_start_added(
    upstream: Seq<char>,
    ap_iface: Seq<char>,
    gateway: Seq<char>,
)
    requires
        subnet_of(gateway) is Some,
    ensures
        ({
            let rules = nat_rules(upstream, ap_iface, subnet_of(gateway)->0);
            let on = nat_on_steps(upstream, ap_iface, subnet_of(gateway)->0);
            let off = nat_off_steps(upstream, ap_iface, gateway);
            &&& on.len() == rules.len() + 1
            &&& off.len() == rules.len()
            &&& forall|i: int|
                0 <= i < rules.len() ==> on[i + 1] == add_rule(#[trigger] rules[i]) && off[i]
                    == delete_rule(rules[i])
        }),
{
}

/// Stopping a hotspot deletes the rules that starting it added, whatever the
/// settings and the default route are by then, and without a configuration.
pub proof fn law_cleanup_undoes_start(
    start: NatRecordView,
    cfg: Option<ConfigView>,
    detected: Option<Seq<char>>,
)
    requires
        subnet_of(start.gateway) is Some,
    ensures
        ({
            let subnet = subnet_of(start.gateway)->0;
            let rules = nat_rules(start.upstream, start.ap_iface, subnet);
            &&& nat_on_steps(start.upstream, start.ap_iface, subnet) == seq![forwarding_on()]
                + rules.map_values(|r: RuleView| add_rule(r))
            &&& stop_steps(Some(entry_text(start)), cfg, detected) == rules.map_values(
                |r: RuleView| delete_rule(r),
            )
        }),
{
    let one = seq![start];
    let none = Seq::<NatRecordView>::empty();
    law_cleanup_undoes_every_start(one, cfg, detected);
    law_record_is_added(none, start);
    assert(none.push(start) =~= one);
    assert(record_lines(none) == Seq::<Seq<char>>::empty());
    assert(records_text(none) + entry_text(start) =~= entry_text(start));
    assert(one.drop_last() =~= none);
    assert(recorded_off_steps(none) == Seq::<StepView>::empty());
    let off = nat_off_steps(start.upstream, start.ap_iface, start.gateway);
    assert(recorded_off_steps(one) =~= off);
}

/// A hotspot that was started several times, each time setting address
/// translation up anew, has all of it taken down when it is stopped, in the
/// order in which it was set up.
pub proof fn law_cleanup_undoes_every_start(
    starts: Seq<NatRecordView>,
    cfg: Option<ConfigView>,
    detected: Option<Seq<char>>,
)
    requires
        starts.len() > 0,
    ensures
        stop_steps(Some(records_text(starts)), cfg, detected) == recorded_off_steps(starts),
{
    law_records_read_back(starts);
}

/// Without a record, stopping a hotspot deletes the rules that starting it
/// added as long as the settings and the default route are the same.
pub proof fn law_cleanup_by_settings(cfg: ConfigView, detected: Option<Seq<char>>)
    requires
        upstream_of(cfg.upstream, detected, cfg.interface) is Some,
        subnet_of(cfg.gateway_text()) is Some,
    ensures
        ({
            let up = upstream_of(cfg.upstream, detected, cfg.interface)->0;
            let subnet = subnet_of(cfg.gateway_text())->0;
            let rules = nat_rules(up, cfg.interface, subnet);
            &&& nat_on_steps(up, cfg.interface, subnet) == seq![forwarding_on()]
                + rules.map_values(|r: RuleView| add_rule(r))
            &&& stop_steps(None, Some(cfg), detected) == rules.map_values(
                |r: RuleView| delete_rule(r),
            )
        }),
{
}

/// The name of the process that was written is read back, as far as it can be
/// the number of a process.
pub proof fn law_pid_reads_back(pid: u32)
    ensures
        pid_of(decimal(pid as nat)) == if pid <= 0x7fff_ffff {
            Some(pid as int)
        } else {
            None
        },
{
    crate::number::law_decimal_reads_back(pid as nat);
    crate::number::law_decimal_reads_back_signed(pid as nat);
    lemma_digits_are_trimmed(decimal(pid as nat));
}

/// Trimming leaves digits as they are.
proof fn lemma_digits_are_trimmed(s: Seq<char>)
    requires
        s.len() > 0,
        crate::number::all_digits(s, 10),
    ensures
        trimmed(s) == s,
{
    assert(crate::number::digit_value(s[0], 10) is Some);
    assert(crate::number::digit_value(s[s.len() - 1], 10) is Some);
}

/// The prefix of a gateway and of its network is 8 where the first part is 10,
/// 12 where it is 172, and else 24; the network is the gateway with 0 for its
/// last part. A text that does not have four parts is no gateway.
pub proof fn law_network_of_a_gateway(gateway: Seq<char>, parts: Seq<Seq<char>>, length: Seq<char>)
    requires
        parts.len() >= 1,
        forall|i: int| 0 <= i < parts.len() ==> !(#[trigger] parts[i]).contains('.'),
        gateway == joined(parts, seq!['.']),
        length == if parts[0] == "10"@ {
            "8"@
        } else if parts[0] == "172"@ {
            "12"@
        } else {
            "24"@
        },
    ensures
        cidr_of(gateway) is Some == (parts.len() == 4),
        subnet_of(gateway) is Some == (parts.len() == 4),
        parts.len() == 4 ==> cidr_of(gateway) == Some(gateway + seq!['/'] + length),
        parts.len() == 4 ==> subnet_of(gateway) == Some(
            joined(seq![parts[0], parts[1], parts[2], seq!['0']], seq!['.']) + seq!['/'] + length,
        ),
{
    law_split_undoes_join(parts, '.');
    lemma_prefix_texts();
    reveal_strlit("/");
    reveal_strlit(".");
    reveal_strlit(".0/");
    assert("/"@ =~= seq!['/']);
    assert("."@ =~= seq!['.']);
    if parts.len() == 4 {
        let dot = seq!['.'];
        let net = seq![parts[0], parts[1], parts[2], seq!['0']];
        let three = net.drop_last();
        let two = three.drop_last();
        let one = two.drop_last();
        assert(joined(one, dot) == parts[0]);
        assert(joined(two, dot) == parts[0] + dot + parts[1]);
        assert(joined(three, dot) == parts[0] + dot + parts[1] + dot + parts[2]);
        let head = parts[0] + dot + parts[1] + dot + parts[2];
        assert(joined(net, dot) == head + dot + seq!['0']);
        assert(head + ".0/"@ =~= head + dot + seq!['0'] + seq!['/']);
    }
}

/// The lengths of network prefixes in print.
proof fn lemma_prefix_texts()
    ensures
        decimal(8) == "8"@,
        decimal(12) == "12"@,
        decimal(24) == "24"@,
{
    reveal_strlit("8");
    reveal_strlit("12");
    reveal_strlit("24");
    reveal_with_fuel(decimal, 3);
    assert(decimal(8) =~= "8"@);
    assert(decimal(12) =~= "12"@);
    assert(decimal(24) =~= "24"@);
}

/// What stands behind each flag of a rule, which are flags and values in turn.
pub open spec fn flag_values(rule: Seq<Seq<char>>) -> Map<Seq<char>, Seq<char>>
    decreases rule.len(),
{
    if rule.len() < 2 {
        Map::empty()
    } else {
        flag_values(rule.take(rule.len() - 2)).insert(rule[rule.len() - 2], rule.last())
    }
}

/// A flag and a value more.
proof fn lemma_flag_value(rule: Seq<Seq<char>>, flag: Seq<char>, value: Seq<char>)
    ensures
        flag_values(rule.push(flag).push(value)) == flag_values(rule).insert(flag, value),
        flag_values(Seq::empty()) == Map::<Seq<char>, Seq<char>>::empty(),
{
    let more = rule.push(flag).push(value);
    assert(more.take(more.len() - 2) =~= rule);
}

/// The flags of the rules are different texts.
proof fn lemma_rule_flags()
    ensures
        "-i"@[1] == 'i',
        "-o"@[1] == 'o',
        "-s"@[1] == 's',
        "-d"@[1] == 'd',
        "-j"@[1] == 'j',
        "-m"@[1] == 'm',
        "--state"@[1] == '-',
        "-A"@[1] == 'A',
        "-D"@[1] == 'D',
{
    reveal_strlit("-i");
    reveal_strlit("-o");
    reveal_strlit("-s");
    reveal_strlit("-d");
    reveal_strlit("-j");
    reveal_strlit("-m");
    reveal_strlit("--state");
    reveal_strlit("-A");
    reveal_strlit("-D");
}

/// Address translation takes three rules. What leaves for the upstream from the
/// network of the hotspot is masked. What comes from the hotspot for the
/// upstream is let through; and what comes back the other way, if it belongs to
/// a connection that is there.
pub proof fn law_rules_of_translation(
    upstream: Seq<char>,
    ap_iface: Seq<char>,
    subnet: Seq<char>,
)
    ensures
        ({
            let rules = nat_rules(upstream, ap_iface, subnet);
            let mask = flag_values(rules[0].rule);
            let out = flag_values(rules[1].rule);
            let back = flag_values(rules[2].rule);
            &&& rules.len() == 3
            &&& rules[0].table == Some("nat"@) && rules[0].chain == "POSTROUTING"@
            &&& rules[1].table is None && rules[1].chain == "FORWARD"@
            &&& rules[2].table is None && rules[2].chain == "FORWARD"@
            &&& rules[0].rule.len() == 6
            &&& mask.contains_key("-o"@) && mask["-o"@] == upstream
            &&& mask.contains_key("-s"@) && mask["-s"@] == subnet
            &&& mask.contains_key("-j"@) && mask["-j"@] == "MASQUERADE"@
            &&& rules[1].rule.len() == 8
            &&& out.contains_key("-i"@) && out["-i"@] == ap_iface
            &&& out.contains_key("-o"@) && out["-o"@] == upstream
            &&& out.contains_key("-s"@) && out["-s"@] == subnet
            &&& out.contains_key("-j"@) && out["-j"@] == "ACCEPT"@
            &&& rules[2].rule.len() == 12
            &&& back.contains_key("-i"@) && back["-i"@] == out["-o"@]
            &&& back.contains_key("-o"@) && back["-o"@] == out["-i"@]
            &&& back.contains_key("-d"@) && back["-d"@] == out["-s"@]
            &&& back.contains_key("-m"@) && back["-m"@] == "state"@
            &&& back.contains_key("--state"@) && back["--state"@] == "ESTABLISHED,RELATED"@
            &&& back.contains_key("-j"@) && back["-j"@] == "ACCEPT"@
        }),
{
    lemma_rule_flags();
    let rules = nat_rules(upstream, ap_iface, subnet);
    let none = Seq::<Seq<char>>::empty();
    let a1 = none.push("-o"@).push(upstream);
    let a2 = a1.push("-s"@).push(subnet);
    let a3 = a2.push("-j"@).push("MASQUERADE"@);
    lemma_flag_value(none, "-o"@, upstream);
    lemma_flag_value(a1, "-s"@, subnet);
    lemma_flag_value(a2, "-j"@, "MASQUERADE"@);
    assert(rules[0].rule == a3);
    let b1 = none.push("-i"@).push(ap_iface);
    let b2 = b1.push("-o"@).push(upstream);
    let b3 = b2.push("-s"@).push(subnet);
    let b4 = b3.push("-j"@).push("ACCEPT"@);
    lemma_flag_value(none, "-i"@, ap_iface);
    lemma_flag_value(b1, "-o"@, upstream);
    lemma_flag_value(b2, "-s"@, subnet);
    lemma_flag_value(b3, "-j"@, "ACCEPT"@);
    assert(rules[1].rule == b4);
    let c1 = none.push("-i"@).push(upstream);
    let c2 = c1.push("-o"@).push(ap_iface);
    let c3 = c2.push("-d"@).push(subnet);
    let c4 = c3.push("-m"@).push("state"@);
    let c5 = c4.push("--state"@).push("ESTABLISHED,RELATED"@);
    let c6 = c5.push("-j"@).push("ACCEPT"@);
    lemma_flag_value(none, "-i"@, upstream);
    lemma_flag_value(c1, "-o"@, ap_iface);
    lemma_flag_value(c2, "-d"@, subnet);
    lemma_flag_value(c3, "-m"@, "state"@);
    lemma_flag_value(c4, "--state"@, "ESTABLISHED,RELATED"@);
    lemma_flag_value(c5, "-j"@, "ACCEPT"@);
    assert(rules[2].rule == c6);
}

/// The commands that add and delete a rule differ in one place, where they say
/// which; before it stands the table, if it is not the usual one, and behind it
/// the chain and the rule. Both run `iptables`.
pub proof fn law_adding_and_deleting_differ_in_the_verb(r: RuleView, i: int)
    ensures
        ({
            let on = add_rule(r);
            let off = delete_rule(r);
            let at = if r.table is Some {
                2int
            } else {
                0
            };
            &&& on is Run && off is Run
            &&& on->program == "iptables"@ && off->program == "iptables"@
            &&& on->args.len() == at + 2 + r.rule.len()
            &&& off->args.len() == on->args.len()
            &&& on->args[at] == "-A"@ && off->args[at] == "-D"@
            &&& on->args[at + 1] == r.chain
            &&& on->args.skip(at + 2) == r.rule
            &&& r.table is Some ==> on->args[0] == "-t"@ && on->args[1] == r.table->0
            &&& 0 <= i < on->args.len() && i != at ==> on->args[i] == off->args[i]
        }),
{
    let on = add_rule(r);
    let at = if r.table is Some {
        2int
    } else {
        0
    };
    assert(on->args.skip(at + 2) =~= r.rule);
}

/// Setting address translation up switches forwarding on before any rule.
pub proof fn law_forwarding_comes_first(
    upstream: Seq<char>,
    ap_iface: Seq<char>,
    subnet: Seq<char>,
)
    ensures
        nat_on_steps(upstream, ap_iface, subnet)[0] matches StepView::Write { path, data, .. }
            && path == "/proc/sys/net/ipv4/ip_forward"@ && data == "1"@,
{
}

/// An interface is emptied, given its address and brought up, in this order;
/// each command runs `ip` and names the interface.
pub proof fn law_interface_is_set_up(interface: Seq<char>, cidr: Seq<char>)
    ensures
        ({
            let steps = interface_steps(interface, cidr);
            &&& steps.len() == 3
            &&& forall|i: int|
                0 <= i < 3 ==> (#[trigger] steps[i] matches StepView::Run { program, args, .. }
                    && program == "ip"@ && args.contains(interface))
            &&& steps[0]->args.take(2) == seq!["addr"@, "flush"@]
            &&& steps[0]->args.skip(2) == seq!["dev"@, interface]
            &&& steps[1]->args.take(2) == seq!["addr"@, "add"@]
            &&& steps[1]->args[2] == cidr
            &&& steps[1]->args.skip(3) == seq!["dev"@, interface]
            &&& steps[2]->args == seq!["link"@, "set"@, interface, "up"@]
        }),
{
    let steps = interface_steps(interface, cidr);
    assert(steps[0]->args[3] == interface);
    assert(steps[1]->args[4] == interface);
    assert(steps[2]->args[2] == interface);
    assert(steps[0]->args.take(2) =~= seq!["addr"@, "flush"@]);
    assert(steps[0]->args.skip(2) =~= seq!["dev"@, interface]);
    assert(steps[1]->args.take(2) =~= seq!["addr"@, "add"@]);
    assert(steps[1]->args.skip(3) =~= seq!["dev"@, interface]);
}

/// The upstream that is set counts, whatever the default route; otherwise that
/// of the default route does, unless it is the interface of the hotspot itself.
pub proof fn law_upstream_is_set_or_detected(
    set: Option<Seq<char>>,
    detected: Option<Seq<char>>,
    interface: Seq<char>,
)
    ensures
        set is Some ==> upstream_of(set, detected, interface) == set,
        set is None && detected != Some(interface) ==> upstream_of(set, detected, interface)
            == detected,
        set is None && detected == Some(interface) ==> upstream_of(set, detected, interface)
            is None,
{
}

/// The device of a default route is the word behind the first that is `dev`;
/// without such a word, or with none behind it, there is none.
pub proof fn law_device_stands_behind_its_mark(
    before: Seq<Seq<char>>,
    device: Seq<char>,
    after: Seq<Seq<char>>,
    mark: Seq<char>,
)
    requires
        forall|i: int| 0 <= i < before.len() ==> #[trigger] before[i] != mark,
    ensures
        word_after(before + seq![mark, device] + after, mark) == Some(device),
        word_after(before + seq![mark], mark) is None,
        word_after(before, mark) is None,
    decreases before.len(),
{
    let a = before + seq![mark, device] + after;
    let b = before + seq![mark];
    if before.len() > 0 {
        let rest = before.drop_first();
        assert forall|i: int| 0 <= i < rest.len() implies #[trigger] rest[i] != mark by {
            assert(rest[i] == before[i + 1]);
        }
        law_device_stands_behind_its_mark(rest, device, after, mark);
        assert(a[0] == before[0] && b[0] == before[0]);
        assert(a.drop_first() =~= rest + seq![mark, device] + after);
        assert(b.drop_first() =~= rest + seq![mark]);
    } else {
        assert(a[0] == mark && a[1] == device);
        assert(b[0] == mark && b.len() == 1);
    }
}

/// A listing of the default route whose words are so names that device.
pub proof fn law_route_names_its_device(
    text: Seq<char>,
    before: Seq<Seq<char>>,
    device: Seq<char>,
    after: Seq<Seq<char>>,
)
    requires
        words_of(text) == before + seq!["dev"@, device] + after,
        forall|i: int| 0 <= i < before.len() ==> #[trigger] before[i] != "dev"@,
    ensures
        route_device(text) == Some(device),
{
    law_device_stands_behind_its_mark(before, device, after, "dev"@);
}

/// A listing without the mark of a device, or with nothing behind it, names
/// none.
pub proof fn law_route_without_device(text: Seq<char>, before: Seq<Seq<char>>)
    requires
        words_of(text) == before || words_of(text) == before + seq!["dev"@],
        forall|i: int| 0 <= i < before.len() ==> #[trigger] before[i] != "dev"@,
    ensures
        route_device(text) is None,
{
    law_device_stands_behind_its_mark(before, Seq::empty(), Seq::empty(), "dev"@);
}

/// A file that is there names a process exactly if it can be read and holds a
/// number; otherwise something is wrong with it.
pub proof fn law_pid_file_names_or_is_faulty(file: PidFile)
    ensures
        named_pid(file) is Some ==> pid_fault(file) is None,
        named_pid(file) is None && pid_fault(file) is None ==> file is Missing,
        file is Missing ==> named_pid(file) is None && pid_fault(file) is None,
        match file {
            PidFile::Contents(text) => pid_of(text@) is Some ==> named_pid(file) is Some
                && named_pid(file)->0 == pid_of(text@)->0,
            _ => named_pid(file) is None,
        },
{
}

/// A record that cannot be read, or that holds nothing, is as good as none.
pub proof fn law_faulty_record_is_passed_over(
    text: Seq<char>,
    cfg: Option<ConfigView>,
    detected: Option<Seq<char>>,
)
    requires
        records_of(text) is None || records_of(text)->0.len() == 0,
    ensures
        stop_steps(Some(text), cfg, detected) == stop_steps(None, cfg, detected),
        stop_steps(None, None, detected) == Seq::<StepView>::empty(),
{
}

/// The number of a process is read with white space around it.
pub proof fn law_pid_is_read_around_space(before: Seq<char>, pid: u32, after: Seq<char>)
    requires
        all_space(before),
        all_space(after),
        pid <= 0x7fff_ffff,
    ensures
        pid_of(before + decimal(pid as nat) + after) == Some(pid as int),
{
    let s = decimal(pid as nat);
    crate::number::law_decimal_reads_back(pid as nat);
    crate::number::law_decimal_reads_back_signed(pid as nat);
    assert(crate::number::digit_value(s[0], 10) is Some);
    assert(crate::number::digit_value(s[s.len() - 1], 10) is Some);
    law_trimming(before, s, after);
}

/// The state of a hotspot that runs names its process; otherwise it is told to
/// be stopped.
pub proof fn law_status_names_the_process(running: bool, pid_text: Seq<char>)
    ensures
        running ==> status_line(running, pid_text) == "running  hostapd="@ + trimmed(pid_text),
        !running ==> status_line(running, pid_text) == "stopped"@,
{
}

/// A command in print is the program and its arguments with blanks between.
pub proof fn law_command_in_print(program: Seq<char>, args: Seq<Seq<char>>)
    requires
        !program.contains(' '),
        forall|i: int| 0 <= i < args.len() ==> !(#[trigger] args[i]).contains(' '),
        args.len() > 0,
    ensures
        split_on(command_text(program, args), ' ') == seq![program] + args,
{
    reveal_strlit(" ");
    assert(" "@ =~= seq![' ']);
    let all = seq![program] + args;
    assert forall|i: int| 0 <= i < all.len() implies !(#[trigger] all[i]).contains(' ') by {
        if i > 0 {
            assert(all[i] == args[i - 1]);
        }
    }
    law_split_undoes_join(all, ' ');
    lemma_join_first(program, args, seq![' ']);
}

/// Joining a text and others is the text, the separator and the others joined.
proof fn lemma_join_first(first: Seq<char>, rest: Seq<Seq<char>>, sep: Seq<char>)
    requires
        rest.len() > 0,
    ensures
        joined(seq![first] + rest, sep) == first + sep + joined(rest, sep),
    decreases rest.len(),
{
    let all = seq![first] + rest;
    let init = rest.drop_last();
    assert(all.drop_last() =~= seq![first] + init);
    assert(all.last() == rest.last());
    if rest.len() == 1 {
        assert(all.drop_last() =~= seq![first]);
        assert(joined(all.drop_last(), sep) == first);
        assert(joined(rest, sep) == rest[0]);
        assert(joined(all, sep) == first + sep + rest[0]);
    } else {
        lemma_join_first(first, init, sep);
        assert(joined(all, sep) =~= first + sep + joined(rest, sep));
    }
}

/// A fault that is about a text names it.
pub proof fn law_process_faults_name_what_is_wrong(s: Seq<char>)
    ensures
        occurs_in(process_fault_text(ProcessErrorView::NotFound(s)), s),
        occurs_in(process_fault_text(ProcessErrorView::InvalidGateway(s)), s),
        occurs_in(process_fault_text(ProcessErrorView::CommandFailed(s)), s),
{
    let none = Seq::<char>::empty();
    law_occurrence(s, s, none, " not found in PATH"@);
    law_occurrence(s, s, none, " failed"@);
    law_occurrence(s, s, "invalid gateway IP: "@, none);
    assert(none + s + " not found in PATH"@ =~= s + " not found in PATH"@);
    assert(none + s + " failed"@ =~= s + " failed"@);
    assert("invalid gateway IP: "@ + s + none =~= "invalid gateway IP: "@ + s);
}

/// What was recorded of several starts is taken down start by start.
pub proof fn law_records_are_undone_in_turn(list: Seq<NatRecordView>, r: NatRecordView)
    ensures
        recorded_off_steps(list.push(r)) == recorded_off_steps(list) + nat_off_steps(
            r.upstream,
            r.ap_iface,
            r.gateway,
        ),
        recorded_off_steps(Seq::empty()) == Seq::<StepView>::empty(),
{
    assert(list.push(r).drop_last() =~= list);
}

// ---------------------------------------------------------------------------
// Operations
// ---------------------------------------------------------------------------

impl ProcessError {
    /// What the fault is reported as.
    pub fn message(&self) -> (res: String)
        ensures
            res@ == process_fault_text(self@),
    {
        match self {
            ProcessError::NotFound(cmd) => cmd.clone().concat(" not found in PATH"),
            ProcessError::InvalidGateway(gateway) => "invalid gateway IP: ".to_owned().concat(
                gateway.as_str(),
            ),
            ProcessError::CommandFailed(command) => command.clone().concat(" failed"),
            ProcessError::PidFileUnreadable => "reading pid file".to_owned(),
            ProcessError::PidFileInvalid => "parsing pid".to_owned(),
        }
    }
}

/// A command in print.
pub fn command_line(program: &str, args: &Vec<String>) -> (res: String)
    ensures
        res@ == command_text(program@, texts(args@)),
{
    let list: String = join(args, " ");
    program.to_owned().concat(" ").concat(list.as_str())
}

/// Refuses a program that is not installed.
pub fn which(cmd: &str, found: bool) -> (res: Result<(), ProcessError>)
    ensures
        found ==> res is Ok,
        !found ==> (res matches Err(e) && e@ == ProcessErrorView::NotFound(cmd@)),
{
    if found {
        Ok(())
    } else {
        Err(ProcessError::NotFound(cmd.to_owned()))
    }
}

/// What a command that ended came to.
pub fn command_result(program: &str, args: &Vec<String>, success: bool) -> (res: Result<
    (),
    ProcessError,
>)
    ensures
        success ==> res is Ok,
        !success ==> (res matches Err(e) && e@ == ProcessErrorView::CommandFailed(
            command_text(program@, texts(args@)),
        )),
{
    if success {
        Ok(())
    } else {
        Err(ProcessError::CommandFailed(command_line(program, args)))
    }
}

impl Plan {
    /// What follows the step of the number `index`, which succeeded or not.
    pub fn after_step(&self, index: usize, success: bool) -> (res: Progress)
        requires
            index < self.steps@.len(),
        ensures
            res == if !success && !self.keep_going {
                Progress::Failed
            } else if index + 1 < self.steps@.len() {
                Progress::Next((index + 1) as usize)
            } else {
                Progress::Done
            },
    {
        if !success && !self.keep_going {
            Progress::Failed
        } else if self.steps.len() - index > 1 {
            Progress::Next(index + 1)
        } else {
            Progress::Done
        }
    }

    /// What a plan starts with.
    pub fn first_step(&self) -> (res: Progress)
        ensures
            res == if self.steps@.len() > 0 {
                Progress::Next(0)
            } else {
                Progress::Done
            },
    {
        if self.steps.len() > 0 {
            Progress::Next(0)
        } else {
            Progress::Done
        }
    }
}

/// The length of the network prefix that goes with the first part of an
/// address.
fn read_prefix_length(first: &str) -> (res: u32)
    ensures
        res == prefix_length(first@),
{
    if str_eq(first, "10") {
        8
    } else if str_eq(first, "172") {
        12
    } else {
        24
    }
}

/// A gateway with the length of its network prefix.
pub fn gateway_to_cidr(gateway: &str) -> (res: Result<String, ProcessError>)
    ensures
        match cidr_of(gateway@) {
            Some(cidr) => res matches Ok(s) && s@ == cidr,
            None => res matches Err(e) && e@ == ProcessErrorView::InvalidGateway(gateway@),
        },
{
    let p: Vec<String> = split(gateway, '.');
    if p.len() != 4 {
        return Err(ProcessError::InvalidGateway(gateway.to_owned()));
    }
    assert(texts(p@)[0] == p@[0]@);
    let prefix: u32 = read_prefix_length(p[0].as_str());
    Ok(gateway.to_owned().concat("/").concat(decimal_text(prefix).as_str()))
}

/// The network that a gateway is taken to serve.
pub fn gateway_to_subnet(gateway: &str) -> (res: Result<String, ProcessError>)
    ensures
        match subnet_of(gateway@) {
            Some(subnet) => res matches Ok(s) && s@ == subnet,
            None => res matches Err(e) && e@ == ProcessErrorView::InvalidGateway(gateway@),
        },
{
    let p: Vec<String> = split(gateway, '.');
    if p.len() != 4 {
        return Err(ProcessError::InvalidGateway(gateway.to_owned()));
    }
    assert(texts(p@)[0] == p@[0]@);
    assert(texts(p@)[1] == p@[1]@);
    assert(texts(p@)[2] == p@[2]@);
    let prefix: u32 = read_prefix_length(p[0].as_str());
    Ok(
        p[0].clone().concat(".").concat(p[1].as_str()).concat(".").concat(p[2].as_str()).concat(
            ".0/",
        ).concat(decimal_text(prefix).as_str()),
    )
}

/// Adds an argument.
fn push_arg(args: &mut Vec<String>, arg: &str)
    ensures
        texts(final(args)@) == texts(old(args)@).push(arg@),
{
    broadcast use lemma_texts_push;

    args.push(arg.to_owned());
}

/// No arguments.
fn no_args() -> (res: Vec<String>)
    ensures
        texts(res@) == Seq::<Seq<char>>::empty(),
{
    let res: Vec<String> = Vec::new();
    assert(texts(res@) =~= Seq::<Seq<char>>::empty());
    res
}

/// Running `ip` for a purpose.
fn ip_step(purpose: &str, args: Vec<String>) -> (res: Step)
    ensures
        res@ == ip_command(purpose@, texts(args@)),
{
    Step::Run { program: "ip".to_owned(), args, purpose: Some(purpose.to_owned()) }
}

/// What gives the interface its address and brings it up, if `ip` was found
/// and the gateway is one.
pub fn configure_interface(ip_found: bool, interface: &str, gateway: &str) -> (res: Result<
    Plan,
    ProcessError,
>)
    ensures
        !ip_found ==> (res matches Err(e) && e@ == ProcessErrorView::NotFound("ip"@)),
        ip_found && cidr_of(gateway@) is None ==> (res matches Err(e) && e@
            == ProcessErrorView::InvalidGateway(gateway@)),
        ip_found && cidr_of(gateway@) is Some ==> (res matches Ok(plan) && !plan.keep_going
            && plan.steps_view() == interface_steps(interface@, cidr_of(gateway@)->0)),
{
    match which("ip", ip_found) {
        Ok(()) => {},
        Err(e) => {
            return Err(e);
        },
    }
    let cidr: String = match gateway_to_cidr(gateway) {
        Ok(c) => c,
        Err(e) => {
            return Err(e);
        },
    };

    let mut flush: Vec<String> = no_args();
    push_arg(&mut flush, "addr");
    push_arg(&mut flush, "flush");
    push_arg(&mut flush, "dev");
    push_arg(&mut flush, interface);

    let mut assign: Vec<String> = no_args();
    push_arg(&mut assign, "addr");
    push_arg(&mut assign, "add");
    push_arg(&mut assign, cidr.as_str());
    push_arg(&mut assign, "dev");
    push_arg(&mut assign, interface);

    let mut up: Vec<String> = no_args();
    push_arg(&mut up, "link");
    push_arg(&mut up, "set");
    push_arg(&mut up, interface);
    push_arg(&mut up, "up");

    proof {
        assert(texts(flush@) =~= seq!["addr"@, "flush"@, "dev"@, interface@]);
        assert(texts(assign@) =~= seq!["addr"@, "add"@, cidr@, "dev"@, interface@]);
        assert(texts(up@) =~= seq!["link"@, "set"@, interface@, "up"@]);
    }
    let plan: Plan = Plan {
        steps: vec![
            ip_step("ip addr flush", flush),
            ip_step("ip addr add", assign),
            ip_step("ip link set up", up),
        ],
        keep_going: false,
    };
    assert(plan.steps_view() =~= interface_steps(interface@, cidr@));
    Ok(plan)
}

/// Does `verb` with the rule that masks what leaves for `upstream`.
fn masquerade_args(verb: &str, upstream: &str, ap_iface: &str, subnet: &str) -> (res: Vec<String>)
    ensures
        iptables_command(texts(res@)) == rule_command(
            verb@,
            nat_rules(upstream@, ap_iface@, subnet@)[0],
        ),
{
    let mut args: Vec<String> = no_args();
    push_arg(&mut args, "-t");
    push_arg(&mut args, "nat");
    push_arg(&mut args, verb);
    push_arg(&mut args, "POSTROUTING");
    push_arg(&mut args, "-o");
    push_arg(&mut args, upstream);
    push_arg(&mut args, "-s");
    push_arg(&mut args, subnet);
    push_arg(&mut args, "-j");
    push_arg(&mut args, "MASQUERADE");
    proof {
        let r = nat_rules(upstream@, ap_iface@, subnet@)[0];
        assert(texts(args@) =~= seq!["-t"@, "nat"@] + seq![verb@, r.chain] + r.rule);
    }
    args
}

/// Does `verb` with the rule that lets through what comes from the hotspot.
fn forward_args(verb: &str, upstream: &str, ap_iface: &str, subnet: &str) -> (res: Vec<String>)
    ensures
        iptables_command(texts(res@)) == rule_command(
            verb@,
            nat_rules(upstream@, ap_iface@, subnet@)[1],
        ),
{
    let mut args: Vec<String> = no_args();
    push_arg(&mut args, verb);
    push_arg(&mut args, "FORWARD");
    push_arg(&mut args, "-i");
    push_arg(&mut args, ap_iface);
    push_arg(&mut args, "-o");
    push_arg(&mut args, upstream);
    push_arg(&mut args, "-s");
    push_arg(&mut args, subnet);
    push_arg(&mut args, "-j");
    push_arg(&mut args, "ACCEPT");
    proof {
        let r = nat_rules(upstream@, ap_iface@, subnet@)[1];
        assert(texts(args@) =~= Seq::<Seq<char>>::empty() + seq![verb@, r.chain] + r.rule);
    }
    args
}

/// Does `verb` with the rule that lets the answers through.
fn return_args(verb: &str, upstream: &str, ap_iface: &str, subnet: &str) -> (res: Vec<String>)
    ensures
        iptables_command(texts(res@)) == rule_command(
            verb@,
            nat_rules(upstream@, ap_iface@, subnet@)[2],
        ),
{
    let mut args: Vec<String> = no_args();
    push_arg(&mut args, verb);
    push_arg(&mut args, "FORWARD");
    push_arg(&mut args, "-i");
    push_arg(&mut args, upstream);
    push_arg(&mut args, "-o");
    push_arg(&mut args, ap_iface);
    push_arg(&mut args, "-d");
    push_arg(&mut args, subnet);
    push_arg(&mut args, "-m");
    push_arg(&mut args, "state");
    push_arg(&mut args, "--state");
    push_arg(&mut args, "ESTABLISHED,RELATED");
    push_arg(&mut args, "-j");
    push_arg(&mut args, "ACCEPT");
    proof {
        let r = nat_rules(upstream@, ap_iface@, subnet@)[2];
        assert(texts(args@) =~= Seq::<Seq<char>>::empty() + seq![verb@, r.chain] + r.rule);
    }
    args
}

/// Running `iptables`.
fn ipt(args: Vec<String>) -> (res: Step)
    ensures
        res@ == iptables_command(texts(args@)),
{
    Step::Run { program: "iptables".to_owned(), args, purpose: None }
}

/// What sets address translation up, if `iptables` was found and the gateway
/// is one.
pub fn enable_nat(
    iptables_found: bool,
    upstream: &str,
    ap_iface: &str,
    gateway: &str,
) -> (res: Result<Plan, ProcessError>)
    ensures
        !iptables_found ==> (res matches Err(e) && e@ == ProcessErrorView::NotFound("iptables"@)),
        iptables_found && subnet_of(gateway@) is None ==> (res matches Err(e) && e@
            == ProcessErrorView::InvalidGateway(gateway@)),
        iptables_found && subnet_of(gateway@) is Some ==> (res matches Ok(plan)
            && !plan.keep_going && plan.steps_view() == nat_on_steps(
            upstream@,
            ap_iface@,
            subnet_of(gateway@)->0,
        )),
{
    match which("iptables", iptables_found) {
        Ok(()) => {},
        Err(e) => {
            return Err(e);
        },
    }
    let subnet: String = match gateway_to_subnet(gateway) {
        Ok(s) => s,
        Err(e) => {
            return Err(e);
        },
    };
    let net: &str = subnet.as_str();
    let plan: Plan = Plan {
        steps: vec![
            Step::Write {
                path: "/proc/sys/net/ipv4/ip_forward".to_owned(),
                data: "1".to_owned(),
                purpose: "enabling ip_forward".to_owned(),
            },
            ipt(masquerade_args("-A", upstream, ap_iface, net)),
            ipt(forward_args("-A", upstream, ap_iface, net)),
            ipt(return_args("-A", upstream, ap_iface, net)),
        ],
        keep_going: false,
    };
    assert(plan.steps_view() =~= nat_on_steps(upstream@, ap_iface@, subnet@));
    Ok(plan)
}

/// What takes address translation down, whatever of it fails. A gateway that
/// is none has had none set up.
pub fn disable_nat(upstream: &str, ap_iface: &str, gateway: &str) -> (res: Plan)
    ensures
        res.keep_going,
        res.steps_view() == nat_off_steps(upstream@, ap_iface@, gateway@),
{
    let steps: Vec<Step> = match gateway_to_subnet(gateway) {
        Ok(subnet) => vec![
            ipt(masquerade_args("-D", upstream, ap_iface, subnet.as_str())),
            ipt(forward_args("-D", upstream, ap_iface, subnet.as_str())),
            ipt(return_args("-D", upstream, ap_iface, subnet.as_str())),
        ],
        Err(_) => Vec::new(),
    };
    let plan: Plan = Plan { steps, keep_going: true };
    assert(plan.steps_view() =~= nat_off_steps(upstream@, ap_iface@, gateway@));
    plan
}

/// The interface that a listing of the default route names.
pub fn default_route_device(text: &str) -> (res: Option<String>)
    ensures
        match route_device(text@) {
            Some(d) => res matches Some(s) && s@ == d,
            None => res is None,
        },
{
    let all: Vec<String> = words(text);
    let n: usize = all.len();
    let ghost list = words_of(text@);
    let mut i: usize = 0;
    assert(list.skip(0) =~= list);
    while i < n
        invariant
            i <= n,
            n == all@.len(),
            list == texts(all@),
            route_device(text@) == word_after(list.skip(i as int), "dev"@),
        decreases n - i,
    {
        assert(list.skip(i as int)[0] == all@[i as int]@);
        if str_eq(all[i].as_str(), "dev") {
            if i + 1 < n {
                assert(list.skip(i as int)[1] == all@[i + 1]@);
                return Some(all[i + 1].clone());
            }
            return None;
        }
        assert(list.skip(i as int).drop_first() =~= list.skip(i + 1));
        i = i + 1;
    }
    None
}

/// The interface of the default route, by the output of `ip route show
/// default`.
pub fn detect_upstream(stdout: &[u8]) -> (res: Option<String>)
    ensures
        match route_device(lossy_text(stdout@)) {
            Some(d) => res matches Some(s) && s@ == d,
            None => res is None,
        },
        vstd::utf8::valid_utf8(stdout@) ==> match route_device(vstd::utf8::decode_utf8(stdout@)) {
            Some(d) => res matches Some(s) && s@ == d,
            None => res is None,
        },
{
    let text: String = from_utf8_lossy(stdout);
    default_route_device(text.as_str())
}

/// The interface for address translation: the one that is set, else the one of
/// the default route, unless that is the interface of the hotspot.
pub fn choose_upstream(cfg: &Config, detected: Option<String>) -> (res: Option<String>)
    ensures
        opt_text(res) == upstream_of(
            cfg@.upstream,
            opt_text(detected),
            cfg@.interface,
        ),
{
    match &cfg.upstream {
        Some(u) => Some(u.clone()),
        None => match detected {
            Some(d) => if str_eq(d.as_str(), cfg.interface.as_str()) {
                None
            } else {
                Some(d)
            },
            None => None,
        },
    }
}

/// What takes down the address translation of a hotspot with the settings
/// `cfg`, where the default route is over `detected`.
pub fn cleanup_nat(cfg: &Config, detected: Option<String>) -> (res: Plan)
    ensures
        res.keep_going,
        res.steps_view() == cleanup_steps(cfg@, opt_text(detected)),
{
    match choose_upstream(cfg, detected) {
        Some(up) => {
            let gateway: String = cfg.resolved_gateway();
            disable_nat(up.as_str(), cfg.interface.as_str(), gateway.as_str())
        },
        None => {
            let plan: Plan = Plan { steps: Vec::new(), keep_going: true };
            assert(plan.steps_view() =~= Seq::empty());
            plan
        },
    }
}

/// The directory for the files of a running hotspot.
pub fn runtime_dir() -> (res: String)
    ensures
        res@ == runtime_directory(),
{
    "/tmp/heisspunk".to_owned()
}

/// The file below `rt` that names the running `hostapd`.
pub fn pid_file_path(rt: &str) -> (res: String)
    ensures
        res@ == below(rt@, "hostapd.pid"@),
{
    path_below(rt, "hostapd.pid")
}

/// The file below `rt` with the record of address translation.
pub fn nat_record_path(rt: &str) -> (res: String)
    ensures
        res@ == below(rt@, "nat"@),
{
    path_below(rt, "nat")
}

/// The configuration file of `hostapd` below `rt`.
pub fn conf_file_path(rt: &str) -> (res: String)
    ensures
        res@ == below(rt@, "hostapd.conf"@),
{
    path_below(rt, "hostapd.conf")
}

/// What is written to the file that names the running `hostapd`.
pub fn pid_file_text(pid: u32) -> (res: String)
    ensures
        res@ == decimal(pid as nat),
{
    decimal_text(pid)
}

/// The process that the text of a file names.
pub fn parse_pid(text: &str) -> (res: Option<i32>)
    ensures
        match pid_of(text@) {
            Some(v) => res == Some(v as i32),
            None => res is None,
        },
{
    let t: String = trim(text);
    parse_i32(t.as_str())
}

/// The process to end, by the file that names it: none where there is no file.
/// Where there is one to end, the file is to be removed after.
pub fn kill_from_pid_file(file: &PidFile) -> (res: Result<Option<i32>, ProcessError>)
    ensures
        match pid_fault(*file) {
            Some(fault) => res matches Err(e) && e@ == fault,
            None => res == Ok::<Option<i32>, ProcessError>(named_pid(*file)),
        },
{
    match file {
        PidFile::Missing => Ok(None),
        PidFile::Unreadable => Err(ProcessError::PidFileUnreadable),
        PidFile::Contents(text) => match parse_pid(text.as_str()) {
            Some(pid) => Ok(Some(pid)),
            None => Err(ProcessError::PidFileInvalid),
        },
    }
}

/// The process to ask after, by the file that names it. Without one the
/// hotspot is not running.
pub fn pid_to_probe(file: &PidFile) -> (res: Option<i32>)
    ensures
        res == named_pid(*file),
{
    match file {
        PidFile::Contents(text) => parse_pid(text.as_str()),
        _ => None,
    }
}

/// Whether the hotspot is running: the file names a process, and that one
/// answered.
pub fn pid_is_running(file: &PidFile, answered: bool) -> (res: bool)
    ensures
        res == (named_pid(*file) is Some && answered),
{
    pid_to_probe(file).is_some() && answered
}

/// Ending the running `hostapd`.
pub struct Teardown {
    /// The process to end; the file that names it is removed after.
    pub kill: Option<i32>,
    /// The fault to report.
    pub fault: Option<ProcessError>,
}

/// How the running `hostapd` is ended, by the file that names it. A fault is
/// reported, and nothing is ended.
pub fn teardown_hostapd(file: &PidFile) -> (res: Teardown)
    ensures
        res.kill == named_pid(*file),
        opt_fault(res.fault) == pid_fault(*file),
{
    match kill_from_pid_file(file) {
        Ok(kill) => Teardown { kill, fault: None },
        Err(e) => Teardown { kill: None, fault: Some(e) },
    }
}

/// What stopping a hotspot comes to.
pub struct Stop {
    pub teardown: Teardown,
    /// What takes address translation down.
    pub cleanup: Plan,
}

/// What takes down all address translation that was set up by a record,
/// whatever of it fails.
pub fn disable_recorded(list: &Vec<NatRecord>) -> (res: Plan)
    ensures
        res.keep_going,
        res.steps_view() == recorded_off_steps(record_views(list@)),
{
    let ghost all = record_views(list@);
    let n: usize = list.len();
    let mut plan: Plan = Plan { steps: Vec::new(), keep_going: true };
    let mut i: usize = 0;
    assert(plan.steps_view() =~= recorded_off_steps(all.take(0)));
    while i < n
        invariant
            i <= n,
            n == list@.len(),
            all == record_views(list@),
            plan.keep_going,
            plan.steps_view() == recorded_off_steps(all.take(i as int)),
        decreases n - i,
    {
        let r: &NatRecord = &list[i];
        let ghost done = plan.steps_view();
        let mut more: Plan = disable_nat(
            r.upstream.as_str(),
            r.ap_iface.as_str(),
            r.gateway.as_str(),
        );
        let ghost added = more.steps_view();
        plan.steps.append(&mut more.steps);
        assert(plan.steps_view() =~= done + added);
        assert(all.take(i + 1).drop_last() =~= all.take(i as int));
        assert(all.take(i + 1).last() == r@);
        i = i + 1;
    }
    assert(all.take(n as int) =~= all);
    plan
}

/// What takes the address translation of a hotspot down, by the text of its
/// record, if there is one, else by its settings and the default route.
pub fn stop_nat(record: Option<&str>, cfg: Option<&Config>, detected: Option<String>) -> (res: Plan)
    ensures
        res.keep_going,
        res.steps_view() == stop_steps(
            match record {
                Some(text) => Some(text@),
                None => None,
            },
            match cfg {
                Some(c) => Some(c@),
                None => None,
            },
            opt_text(detected),
        ),
{
    if let Some(text) = record {
        if let Some(list) = read_nat_record(text) {
            if list.len() > 0 {
                return disable_recorded(&list);
            }
        }
    }
    match cfg {
        Some(c) => cleanup_nat(c, detected),
        None => {
            let plan: Plan = Plan { steps: Vec::new(), keep_going: true };
            assert(plan.steps_view() =~= Seq::empty());
            plan
        },
    }
}

/// How a hotspot is stopped: the running `hostapd` is ended, and then its
/// address translation is taken down, by the text of its record, if there is
/// one, else by the configuration, if there is one.
pub fn cmd_stop(
    file: &PidFile,
    record: Option<&str>,
    loaded: Option<&Config>,
    detected: Option<String>,
) -> (res: Stop)
    ensures
        res.teardown.kill == named_pid(*file),
        opt_fault(res.teardown.fault) == pid_fault(*file),
        res.cleanup.keep_going,
        res.cleanup.steps_view() == stop_steps(
            match record {
                Some(text) => Some(text@),
                None => None,
            },
            match loaded {
                Some(cfg) => Some(cfg@),
                None => None,
            },
            opt_text(detected),
        ),
{
    let teardown: Teardown = teardown_hostapd(file);
    let cleanup: Plan = stop_nat(record, loaded, detected);
    Stop { teardown, cleanup }
}

/// The line that says whether the hotspot is running, and as which process.
pub open spec fn status_line(running: bool, pid_text: Seq<char>) -> Seq<char> {
    if running {
        "running  hostapd="@ + trimmed(pid_text)
    } else {
        "stopped"@
    }
}

/// The line that says whether the hotspot is running, and as which process.
pub fn status_text(running: bool, pid_text: &str) -> (res: String)
    ensures
        res@ == status_line(running, pid_text@),
{
    if running {
        "running  hostapd=".to_owned().concat(trim(pid_text).as_str())
    } else {
        "stopped".to_owned()
    }
}

} // verus!
