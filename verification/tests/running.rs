use heisspunk::config::{Config, DhcpRange, NetworkClass};
use heisspunk::dns::{dns_forwarder, DnsAction, DnsForwarder, DNS_PORT, TIMEOUT_SECS};
use heisspunk::net::{Ipv4Addr, Received};
use heisspunk::session::{
    checked_lease_secs, dhcp_server, dhcp_settings, next_stage, parse_lease_secs, SessionError,
    Stage,
};
use heisspunk::supervisor::{interruptible_sleep, Effect, Event, Phase, Supervisor, MAX_DELAY};

fn working() -> Config {
    Config { interface: "wlan0".to_owned(), ssid: "Punk".to_owned(), ..Config::default() }
}

fn quiet() -> Event {
    Event::Signals { shutdown: false, reload: false }
}

fn up() -> Supervisor {
    let mut s = Supervisor::new(working());
    assert_eq!(s.step(quiet()), vec![Effect::StartSession]);
    assert_eq!(s.step(Event::Started(true)), Vec::<Effect>::new());
    assert_eq!(s.phase, Phase::Running);
    s
}

#[test]
fn queries_go_to_the_resolver_as_they_are() {
    let f = DnsForwarder::new(Ipv4Addr::new(10, 0, 0, 1));
    assert_eq!((f.listen, f.port), (Ipv4Addr::new(10, 0, 0, 1), 53));
    match f.serve(Received::Packet(&[1, 2, 3])) {
        DnsAction::Forward { query, to, to_port } => {
            assert_eq!(query, vec![1, 2, 3]);
            assert_eq!((to, to_port), (Ipv4Addr::new(1, 1, 1, 1), DNS_PORT));
        }
        _ => panic!("not forwarded"),
    }
    assert!(matches!(f.serve(Received::TimedOut), DnsAction::Wait));
    assert!(matches!(f.serve(Received::Failed), DnsAction::Warn));
    assert_eq!(TIMEOUT_SECS, 3);
}

#[test]
fn forwarder_needs_a_gateway() {
    let mut c = working();
    assert_eq!(dns_forwarder(&c).unwrap().listen, Ipv4Addr::new(192, 168, 100, 1));
    c.gateway = Some("nowhere".to_owned());
    assert!(dns_forwarder(&c).is_none());
}

#[test]
fn time_of_a_lease() {
    for (s, n) in [
        ("12h", 43200), ("1h", 3600), ("30m", 1800), ("90s", 90), ("77", 77), ("", 43200),
        ("h", 43200), ("m", 1800), ("s", 43200), ("xh", 43200), ("xm", 1800), ("xs", 43200),
        ("x", 43200), ("1d", 43200), ("+2h", 7200), ("-2h", 43200), ("1193046h", 4294965600),
        ("4294967295", 4294967295), ("4294967296", 43200), ("4294967296h", 43200),
        ("12H", 43200), ("0s", 0), ("é", 43200),
    ] {
        assert_eq!(parse_lease_secs(s), n, "{}", s);
        assert_eq!(checked_lease_secs(s), Some(n), "{}", s);
    }
    assert_eq!(checked_lease_secs("1193047h"), None);
    assert_eq!(checked_lease_secs("71582789m"), None);
}

#[test]
fn faulty_addresses_are_named() {
    let range = |s: &str, e: &str, n: &str| DhcpRange {
        start: s.to_owned(),
        end: e.to_owned(),
        netmask: n.to_owned(),
    };
    let mut c = working();
    c.dhcp_range = Some(range("10.0.0.2", "10.0.0.9", "255.0.0.0"));
    let s = dhcp_settings(&c).unwrap();
    assert_eq!(s.gateway, Ipv4Addr::new(192, 168, 100, 1));
    assert_eq!(s.start, Ipv4Addr::new(10, 0, 0, 2));
    assert_eq!(s.end, Ipv4Addr::new(10, 0, 0, 9));
    assert_eq!(s.netmask, Ipv4Addr::new(255, 0, 0, 0));
    for (r, fault, text) in [
        (range("x", "y", "z"), SessionError::RangeStart, "parsing DHCP range start"),
        (range("1.1.1.1", "y", "z"), SessionError::RangeEnd, "parsing DHCP range end"),
        (range("1.1.1.1", "1.1.1.2", "z"), SessionError::Netmask, "parsing subnet mask"),
    ] {
        c.dhcp_range = Some(r);
        let e = dhcp_settings(&c).unwrap_err();
        assert_eq!(e, fault);
        assert_eq!(e.message(), text);
    }
    c.gateway = Some("1.2.3".to_owned());
    let e = dhcp_settings(&c).unwrap_err();
    assert_eq!((e, e.message()), (SessionError::Gateway, "parsing gateway"));
    assert!(matches!(dhcp_server(&c), Err(SessionError::Gateway)));
}

#[test]
fn default_addresses_make_a_server() {
    for (class, first) in [
        (NetworkClass::A, Ipv4Addr::new(10, 0, 0, 10)),
        (NetworkClass::B, Ipv4Addr::new(172, 16, 0, 10)),
        (NetworkClass::C, Ipv4Addr::new(192, 168, 100, 10)),
    ] {
        let mut c = working();
        c.network_class = class;
        let mut server = dhcp_server(&c).ok().unwrap();
        let gateway = dhcp_settings(&c).unwrap().gateway;
        assert_eq!(server.assign_or_get(&[0; 6], 0), Some(first));
        for n in 1..241u8 {
            let ip = server.assign_or_get(&[n; 6], 0).unwrap();
            assert_ne!(ip, gateway);
        }
        assert_eq!(server.assign_or_get(&[255; 6], 0), None);
    }
}

#[test]
fn stages_of_a_start() {
    let mut seen = Vec::new();
    let mut stage = Stage::Interface;
    while stage != Stage::Up {
        seen.push(stage);
        stage = next_stage(stage, true, true).unwrap();
    }
    assert_eq!(
        seen,
        vec![
            Stage::Interface, Stage::Nat, Stage::Dhcp, Stage::Dns, Stage::Hostapd, Stage::PidFile,
        ]
    );
    assert_eq!(next_stage(Stage::Interface, true, false), Some(Stage::Dhcp));
    for stage in [Stage::Interface, Stage::Nat, Stage::Dhcp, Stage::Hostapd, Stage::PidFile] {
        assert_eq!(next_stage(stage, false, true), None);
    }
    assert_eq!(next_stage(Stage::Dns, false, true), Some(Stage::Hostapd));
}

#[test]
fn wait_doubles_up_to_the_longest() {
    let mut s = Supervisor::new(working());
    for secs in [1, 2, 4, 8, 16, 30, 30, 30] {
        assert_eq!(s.step(quiet()), vec![Effect::StartSession]);
        assert_eq!(s.step(Event::Started(false)), vec![Effect::RenewServices]);
        assert_eq!(s.step(quiet()), vec![Effect::Backoff(secs)]);
    }
    assert_eq!(s.restart_delay, MAX_DELAY);
    s.step(quiet());
    s.step(Event::Started(true));
    assert_eq!(s.restart_delay, 1);
}

#[test]
fn running_hotspot_is_watched() {
    let mut s = up();
    let e = Event::Running { shutdown: false, reload: false, exited: false };
    assert_eq!(s.step(e), vec![Effect::Pause(500)]);
    assert_eq!(s.phase, Phase::Running);
    let e = Event::Running { shutdown: false, reload: false, exited: true };
    assert_eq!(
        s.step(e),
        vec![Effect::StopServices, Effect::Teardown, Effect::RenewServices]
    );
    assert_eq!(s.phase, Phase::Down);
    assert_eq!(s.step(quiet()), vec![Effect::Backoff(1)]);
    assert_eq!((s.phase, s.restart_delay), (Phase::Idle, 2));
}

#[test]
fn stopping_takes_everything_down() {
    let mut s = up();
    let e = Event::Running { shutdown: true, reload: true, exited: true };
    assert_eq!(
        s.step(e),
        vec![Effect::StopServices, Effect::KillHostapd, Effect::Teardown, Effect::CleanupNat]
    );
    assert_eq!(s.phase, Phase::Stopped);
    let mut s = Supervisor::new(working());
    assert_eq!(
        s.step(Event::Signals { shutdown: true, reload: true }),
        vec![Effect::CleanupNat]
    );
    assert_eq!(s.phase, Phase::Stopped);
    let mut s = Supervisor::new(working());
    s.step(quiet());
    s.step(Event::Started(false));
    assert_eq!(
        s.step(Event::Signals { shutdown: true, reload: false }),
        vec![Effect::CleanupNat]
    );
    assert_eq!((s.phase, s.restart_delay), (Phase::Stopped, 1));
}

#[test]
fn reload_while_running() {
    let mut other = working();
    other.ssid = "Other".to_owned();
    let mut s = up();
    let e = Event::Running { shutdown: false, reload: true, exited: true };
    assert_eq!(
        s.step(e),
        vec![Effect::StopServices, Effect::KillHostapd, Effect::Teardown, Effect::ResolveConfig]
    );
    assert_eq!(s.step(Event::Resolved(Some(other))), vec![Effect::RenewServices]);
    assert_eq!((s.cfg.ssid.as_str(), s.phase), ("Other", Phase::Down));
}

#[test]
fn reload_before_the_start() {
    let mut other = working();
    other.ssid = "Other".to_owned();
    let mut s = Supervisor::new(working());
    let e = Event::Signals { shutdown: false, reload: true };
    assert_eq!(s.step(e), vec![Effect::ResolveConfig]);
    assert_eq!(s.step(Event::Resolved(Some(other))), vec![Effect::StartSession]);
    assert_eq!((s.cfg.ssid.as_str(), s.phase), ("Other", Phase::Starting));
}

#[test]
fn failed_reload_keeps_the_settings() {
    let mut s = up();
    s.step(Event::Running { shutdown: false, reload: true, exited: false });
    assert_eq!(s.step(Event::Resolved(None)), vec![Effect::RenewServices]);
    assert_eq!(s.cfg.ssid, "Punk");
    let mut s = Supervisor::new(working());
    s.step(Event::Signals { shutdown: false, reload: true });
    assert_eq!(s.step(Event::Resolved(None)), vec![Effect::StartSession]);
    assert_eq!(s.cfg.ssid, "Punk");
}

#[test]
fn naps_add_up() {
    for whole in [0u64, 1, 199, 200, 201, 1000, 30_000] {
        let mut rest = whole;
        let mut slept = 0;
        while let Some((nap, left)) = interruptible_sleep(rest, false) {
            assert!(nap > 0 && nap <= 200);
            slept += nap;
            rest = left;
        }
        assert_eq!(slept, whole);
    }
    assert_eq!(interruptible_sleep(500, false), Some((200, 300)));
    assert_eq!(interruptible_sleep(500, true), None);
}
