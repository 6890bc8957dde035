use heisspunk::config::Config;
use heisspunk::process::{
    choose_upstream, cleanup_nat, cmd_stop, command_line, command_result, conf_file_path,
    configure_interface, default_route_device, detect_upstream, disable_nat, disable_recorded,
    enable_nat, gateway_to_cidr, gateway_to_subnet, kill_from_pid_file, nat_record_path, parse_pid,
    pid_file_path, pid_file_text, pid_is_running, pid_to_probe, runtime_dir, status_text, stop_nat,
    teardown_hostapd, which, PidFile, Plan, ProcessError, Progress, Step,
};
use heisspunk::record::{nat_record_text, read_nat_record};

fn working() -> Config {
    Config { interface: "wlan0".to_owned(), ssid: "Punk".to_owned(), ..Config::default() }
}

fn shown(plan: &Plan) -> Vec<String> {
    plan.steps
        .iter()
        .map(|s| match s {
            Step::Run { program, args, .. } => command_line(program, args),
            Step::Write { path, data, .. } => format!("{} > {}", data, path),
        })
        .collect()
}

fn contents(s: &str) -> PidFile {
    PidFile::Contents(s.to_owned())
}

#[test]
fn gateway_with_its_prefix() {
    assert_eq!(gateway_to_cidr("10.1.2.3").unwrap(), "10.1.2.3/8");
    assert_eq!(gateway_to_cidr("172.16.0.1").unwrap(), "172.16.0.1/12");
    assert_eq!(gateway_to_cidr("192.168.100.1").unwrap(), "192.168.100.1/24");
    assert_eq!(gateway_to_cidr("a.b.c.d").unwrap(), "a.b.c.d/24");
    assert_eq!(gateway_to_cidr("1.2.3").unwrap_err().message(), "invalid gateway IP: 1.2.3");
}

#[test]
fn network_of_a_gateway() {
    assert_eq!(gateway_to_subnet("10.1.2.3").unwrap(), "10.1.2.0/8");
    assert_eq!(gateway_to_subnet("172.16.5.1").unwrap(), "172.16.5.0/12");
    assert_eq!(gateway_to_subnet("192.168.100.1").unwrap(), "192.168.100.0/24");
    assert!(matches!(
        gateway_to_subnet("1.2.3.4.5"),
        Err(ProcessError::InvalidGateway(g)) if g == "1.2.3.4.5"
    ));
}

#[test]
fn interface_is_set_up() {
    let plan = configure_interface(true, "wlan0", "192.168.100.1").unwrap();
    assert!(!plan.keep_going);
    assert_eq!(
        shown(&plan),
        vec![
            "ip addr flush dev wlan0",
            "ip addr add 192.168.100.1/24 dev wlan0",
            "ip link set wlan0 up",
        ]
    );
}

#[test]
fn failures_are_reported_by_purpose() {
    let purposes = |plan: &Plan| -> Vec<Option<String>> {
        plan.steps
            .iter()
            .map(|s| match s {
                Step::Run { purpose, .. } => purpose.clone(),
                Step::Write { purpose, .. } => Some(purpose.clone()),
            })
            .collect()
    };
    let some = |s: &str| Some(s.to_owned());
    let plan = configure_interface(true, "wlan0", "192.168.100.1").unwrap();
    assert_eq!(
        purposes(&plan),
        vec![some("ip addr flush"), some("ip addr add"), some("ip link set up")]
    );
    let plan = enable_nat(true, "eth0", "wlan0", "192.168.100.1").unwrap();
    assert_eq!(purposes(&plan), vec![some("enabling ip_forward"), None, None, None]);
}

#[test]
fn interface_is_not_set_up_without_program_or_gateway() {
    match configure_interface(false, "wlan0", "x") {
        Err(e) => assert_eq!(e.message(), "ip not found in PATH"),
        Ok(_) => panic!("accepted"),
    }
    match configure_interface(true, "wlan0", "x") {
        Err(e) => assert_eq!(e.message(), "invalid gateway IP: x"),
        Ok(_) => panic!("accepted"),
    }
}

#[test]
fn translation_is_set_up_and_taken_down() {
    let on = enable_nat(true, "eth0", "wlan0", "192.168.100.1").unwrap();
    assert!(!on.keep_going);
    assert_eq!(
        shown(&on),
        vec![
            "1 > /proc/sys/net/ipv4/ip_forward",
            "iptables -t nat -A POSTROUTING -o eth0 -s 192.168.100.0/24 -j MASQUERADE",
            "iptables -A FORWARD -i wlan0 -o eth0 -s 192.168.100.0/24 -j ACCEPT",
            "iptables -A FORWARD -i eth0 -o wlan0 -d 192.168.100.0/24 -m state --state \
             ESTABLISHED,RELATED -j ACCEPT",
        ]
    );
    let off = disable_nat("eth0", "wlan0", "192.168.100.1");
    assert!(off.keep_going);
    let undone: Vec<String> =
        shown(&on)[1..].iter().map(|s| s.replace(" -A ", " -D ")).collect();
    assert_eq!(shown(&off), undone);
    assert!(disable_nat("eth0", "wlan0", "nowhere").steps.is_empty());
}

#[test]
fn translation_is_not_set_up_without_program_or_gateway() {
    match enable_nat(false, "eth0", "wlan0", "x") {
        Err(e) => assert_eq!(e.message(), "iptables not found in PATH"),
        Ok(_) => panic!("accepted"),
    }
    assert!(matches!(
        enable_nat(true, "eth0", "wlan0", "x"),
        Err(ProcessError::InvalidGateway(_))
    ));
}

#[test]
fn plans_stop_at_a_failure_or_go_on() {
    let on = enable_nat(true, "eth0", "wlan0", "192.168.100.1").unwrap();
    assert_eq!(on.first_step(), Progress::Next(0));
    assert_eq!(on.after_step(0, true), Progress::Next(1));
    assert_eq!(on.after_step(1, false), Progress::Failed);
    assert_eq!(on.after_step(3, true), Progress::Done);
    let off = disable_nat("eth0", "wlan0", "192.168.100.1");
    assert_eq!(off.after_step(0, false), Progress::Next(1));
    assert_eq!(off.after_step(2, false), Progress::Done);
    assert_eq!(disable_nat("eth0", "wlan0", "x").first_step(), Progress::Done);
}

#[test]
fn programs_and_commands_that_fail() {
    assert!(which("iw", true).is_ok());
    assert_eq!(which("iw", false).unwrap_err().message(), "iw not found in PATH");
    let args = vec!["link".to_owned(), "set".to_owned()];
    assert!(command_result("ip", &args, true).is_ok());
    assert_eq!(command_result("ip", &args, false).unwrap_err().message(), "ip link set failed");
    assert_eq!(command_line("ip", &Vec::new()), "ip ");
}

#[test]
fn device_of_the_default_route() {
    let route = "default via 192.168.1.1 dev enp5s0 proto dhcp metric 100 \n";
    assert_eq!(default_route_device(route).as_deref(), Some("enp5s0"));
    assert_eq!(default_route_device("default dev wwan0 dev x").as_deref(), Some("wwan0"));
    assert_eq!(default_route_device("dev dev").as_deref(), Some("dev"));
    assert_eq!(default_route_device("default via 1.1.1.1 dev"), None);
    assert_eq!(default_route_device("devs eth0"), None);
    assert_eq!(default_route_device(""), None);
}

#[test]
fn route_that_is_not_utf8_is_read_as_far_as_it_is() {
    assert_eq!(detect_upstream(b"default dev eth0\n").as_deref(), Some("eth0"));
    assert_eq!(detect_upstream(b"\xff dev eth\xfe0 x").as_deref(), Some("eth\u{fffd}0"));
    assert_eq!(detect_upstream(b"dev\xff eth0"), None);
    assert_eq!(detect_upstream("dev é".as_bytes()).as_deref(), Some("é"));
}

#[test]
fn upstream_is_set_or_detected() {
    let mut c = working();
    assert_eq!(choose_upstream(&c, Some("eth0".to_owned())).as_deref(), Some("eth0"));
    assert_eq!(choose_upstream(&c, Some("wlan0".to_owned())), None);
    assert_eq!(choose_upstream(&c, None), None);
    c.upstream = Some("wlan0".to_owned());
    assert_eq!(choose_upstream(&c, Some("eth0".to_owned())).as_deref(), Some("wlan0"));
}

#[test]
fn cleanup_undoes_the_start() {
    let c = working();
    let up = choose_upstream(&c, Some("eth0".to_owned())).unwrap();
    let on = enable_nat(true, &up, &c.interface, &c.resolved_gateway()).unwrap();
    let off = cleanup_nat(&c, Some("eth0".to_owned()));
    let undone: Vec<String> =
        shown(&on)[1..].iter().map(|s| s.replace(" -A ", " -D ")).collect();
    assert_eq!(shown(&off), undone);
    assert!(cleanup_nat(&c, Some("wlan0".to_owned())).steps.is_empty());
    assert!(cleanup_nat(&c, None).steps.is_empty());
}

#[test]
fn files_of_a_running_hotspot() {
    assert_eq!(runtime_dir(), "/tmp/heisspunk");
    assert_eq!(pid_file_path(&runtime_dir()), "/tmp/heisspunk/hostapd.pid");
    assert_eq!(conf_file_path(&runtime_dir()), "/tmp/heisspunk/hostapd.conf");
    assert_eq!(nat_record_path(&runtime_dir()), "/tmp/heisspunk/nat");
}

#[test]
fn process_number_reads_back() {
    for pid in [0u32, 1, 4711, 2147483647] {
        assert_eq!(parse_pid(&pid_file_text(pid)), Some(pid as i32));
    }
    assert_eq!(parse_pid(&pid_file_text(2147483648)), None);
    assert_eq!(parse_pid(" 12\n"), Some(12));
    assert_eq!(parse_pid("-5"), Some(-5));
    assert_eq!(parse_pid("12 13"), None);
}

#[test]
fn process_to_end() {
    assert_eq!(kill_from_pid_file(&PidFile::Missing).unwrap(), None);
    assert_eq!(kill_from_pid_file(&contents("42\n")).unwrap(), Some(42));
    assert_eq!(
        kill_from_pid_file(&PidFile::Unreadable).unwrap_err().message(),
        "reading pid file"
    );
    assert_eq!(kill_from_pid_file(&contents("x")).unwrap_err().message(), "parsing pid");
    let t = teardown_hostapd(&contents("42"));
    assert_eq!(t.kill, Some(42));
    assert!(t.fault.is_none());
    let t = teardown_hostapd(&contents(""));
    assert_eq!(t.kill, None);
    assert!(matches!(t.fault, Some(ProcessError::PidFileInvalid)));
    let t = teardown_hostapd(&PidFile::Unreadable);
    assert!(matches!(t.fault, Some(ProcessError::PidFileUnreadable)));
}

#[test]
fn stopping_ends_and_cleans_up() {
    let c = working();
    let route = || Some("eth0".to_owned());
    let s = cmd_stop(&contents("7"), None, Some(&c), route());
    assert_eq!(s.teardown.kill, Some(7));
    assert_eq!(s.cleanup.steps.len(), 3);
    let s = cmd_stop(&contents("?"), None, Some(&c), route());
    assert_eq!(s.teardown.kill, None);
    assert!(s.teardown.fault.is_some());
    assert_eq!(s.cleanup.steps.len(), 3);
    let s = cmd_stop(&PidFile::Missing, None, None, route());
    assert!(s.teardown.fault.is_none() && s.cleanup.steps.is_empty() && s.cleanup.keep_going);
}

fn undone(on: &Plan) -> Vec<String> {
    shown(on)[1..].iter().map(|s| s.replace(" -A ", " -D ")).collect()
}

#[test]
fn stopping_without_configuration_deletes_what_was_recorded() {
    let on = enable_nat(true, "eth0", "wlan0", "10.0.0.1").unwrap();
    let record = nat_record_text("eth0", "wlan0", "10.0.0.1");
    let s = cmd_stop(&contents("7"), Some(&record), None, None);
    assert_eq!(s.teardown.kill, Some(7));
    assert!(s.cleanup.keep_going);
    assert_eq!(s.cleanup.steps.len(), 3);
    assert_eq!(shown(&s.cleanup), undone(&on));
}

#[test]
fn record_counts_more_than_settings_and_route() {
    let on = enable_nat(true, "eth0", "wlan0", "10.0.0.1").unwrap();
    let record = nat_record_text("eth0", "wlan0", "10.0.0.1");
    let mut c = working();
    c.upstream = Some("wwan0".to_owned());
    assert_eq!(shown(&stop_nat(Some(&record), Some(&c), Some("eth9".to_owned()))), undone(&on));
}

#[test]
fn every_start_is_undone() {
    let first = enable_nat(true, "eth0", "wlan0", "10.0.0.1").unwrap();
    let second = enable_nat(true, "wwan0", "wlan1", "172.16.0.1").unwrap();
    let mut record = nat_record_text("eth0", "wlan0", "10.0.0.1");
    record.push_str(&nat_record_text("wwan0", "wlan1", "172.16.0.1"));
    record.push_str(&nat_record_text("eth0", "wlan0", "10.0.0.1"));
    let want = [undone(&first), undone(&second), undone(&first)].concat();
    assert_eq!(shown(&stop_nat(Some(&record), None, None)), want);
    let list = read_nat_record(&record).unwrap();
    assert_eq!(shown(&disable_recorded(&list)), want);
}

#[test]
fn record_that_is_none_is_passed_over() {
    let c = working();
    let by_settings = shown(&stop_nat(None, Some(&c), Some("eth0".to_owned())));
    assert_eq!(by_settings.len(), 3);
    for text in ["", "eth0", "eth0\nwlan0\n", "eth0\nwlan0\n10.0.0.1", "a\nb\n\\x\n"] {
        let plan = stop_nat(Some(text), Some(&c), Some("eth0".to_owned()));
        assert_eq!(shown(&plan), by_settings, "{:?}", text);
        assert!(stop_nat(Some(text), None, None).steps.is_empty());
    }
}

#[test]
fn record_reads_back() {
    assert_eq!(nat_record_text("eth0", "wlan0", "10.0.0.1"), "eth0\nwlan0\n10.0.0.1\n");
    for (u, a, g) in [("", "", ""), ("a\nb", "\\n", "\r"), ("é\\", "\n\n", "x y")] {
        let list = read_nat_record(&nat_record_text(u, a, g)).unwrap();
        assert_eq!(list.len(), 1);
        assert_eq!(list[0].upstream, u);
        assert_eq!(list[0].ap_iface, a);
        assert_eq!(list[0].gateway, g);
    }
    assert_eq!(read_nat_record("").unwrap().len(), 0);
    assert!(read_nat_record("a\nb\n").is_none());
}

#[test]
fn state_of_the_hotspot() {
    assert_eq!(pid_to_probe(&contents(" 9 ")), Some(9));
    assert_eq!(pid_to_probe(&contents("nine")), None);
    assert_eq!(pid_to_probe(&PidFile::Missing), None);
    assert!(pid_is_running(&contents("9"), true));
    assert!(!pid_is_running(&contents("9"), false));
    assert!(!pid_is_running(&contents("nine"), true));
    assert!(!pid_is_running(&PidFile::Unreadable, true));
    assert_eq!(status_text(true, " 9\n"), "running  hostapd=9");
    assert_eq!(status_text(false, "9"), "stopped");
}
