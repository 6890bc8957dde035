use heisspunk::cli::{
    apply_args, check_config, check_wireless_interface, merge_args, phy_link_path, resolve_config,
    wireless_dir_path, StartArgs,
};
use heisspunk::config::{
    path_below, sudo_user_config_path, Config, ConfigError, ConfigSource, DhcpRange, HwMode,
    NetworkClass,
};
use heisspunk::report::{default_config_text, show_text, starting_settings};

fn working() -> Config {
    Config { interface: "wlan0".to_owned(), ssid: "Punk".to_owned(), ..Config::default() }
}

fn message_of(r: Result<Config, ConfigError>) -> String {
    match r {
        Ok(_) => panic!("accepted"),
        Err(e) => e.message(),
    }
}

#[test]
fn defaults_of_the_settings() {
    let c = Config::default();
    assert_eq!((c.interface.as_str(), c.ssid.as_str()), ("", ""));
    assert_eq!(c.passphrase, None);
    assert_eq!(c.channel, 6);
    assert_eq!(c.hw_mode, HwMode::G);
    assert_eq!(c.network_class, NetworkClass::C);
    assert_eq!(c.gateway, None);
    assert!(c.dhcp_range.is_none());
    assert_eq!(c.dhcp_lease, "12h");
    assert_eq!(c.upstream, None);
    assert!(!c.hidden && c.ieee80211n && !c.ieee80211ac);
    assert_eq!(c.country_code, "CH");
}

#[test]
fn defaults_of_the_network_classes() {
    let (g, r, n) = NetworkClass::A.defaults();
    assert_eq!((g, n), ("10.0.0.1", "10.0.0.0"));
    assert_eq!((r.start.as_str(), r.end.as_str()), ("10.0.0.10", "10.0.0.250"));
    assert_eq!(r.netmask, "255.0.0.0");
    let (g, r, n) = NetworkClass::B.defaults();
    assert_eq!((g, n), ("172.16.0.1", "172.16.0.0"));
    assert_eq!((r.start.as_str(), r.end.as_str()), ("172.16.0.10", "172.16.0.250"));
    assert_eq!(r.netmask, "255.240.0.0");
    let (g, r, n) = NetworkClass::C.defaults();
    assert_eq!((g, n), ("192.168.100.1", "192.168.100.0"));
    assert_eq!((r.start.as_str(), r.end.as_str()), ("192.168.100.10", "192.168.100.250"));
    assert_eq!(r.netmask, "255.255.255.0");
}

#[test]
fn gateway_and_range_follow_the_class_unless_set() {
    let mut c = working();
    assert_eq!(c.resolved_gateway(), "192.168.100.1");
    c.network_class = NetworkClass::B;
    assert_eq!(c.resolved_gateway(), "172.16.0.1");
    assert_eq!(c.resolved_dhcp_range().start, "172.16.0.10");
    c.gateway = Some("10.9.8.7".to_owned());
    c.dhcp_range = Some(DhcpRange {
        start: "10.9.8.20".to_owned(),
        end: "10.9.8.30".to_owned(),
        netmask: "255.255.0.0".to_owned(),
    });
    assert_eq!(c.resolved_gateway(), "10.9.8.7");
    let r = c.resolved_dhcp_range();
    assert_eq!((r.start.as_str(), r.end.as_str()), ("10.9.8.20", "10.9.8.30"));
    assert_eq!(r.netmask, "255.255.0.0");
}

#[test]
fn length_of_the_name_is_checked() {
    let mut c = working();
    assert!(c.validate().is_ok());
    c.ssid = "x".repeat(32);
    assert!(c.validate().is_ok());
    c.ssid = "x".repeat(33);
    assert!(matches!(c.validate(), Err(ConfigError::SsidLength)));
    c.ssid = String::new();
    assert!(matches!(c.validate(), Err(ConfigError::SsidLength)));
    c.ssid = "é".repeat(17);
    assert!(c.validate().is_ok());
    c.ssid = "é".repeat(32);
    assert!(c.validate().is_ok());
    c.ssid = "é".repeat(33);
    assert!(matches!(c.validate(), Err(ConfigError::SsidLength)));
}

#[test]
fn length_of_the_passphrase_is_checked() {
    let mut c = working();
    for (n, ok) in [(0, false), (7, false), (8, true), (63, true), (64, false)] {
        c.passphrase = Some("p".repeat(n));
        assert_eq!(c.validate().is_ok(), ok, "{}", n);
        c.passphrase = Some("ü".repeat(n));
        assert_eq!(c.validate().is_ok(), ok, "{}", n);
    }
    c.passphrase = Some("secret".to_owned());
    assert!(matches!(c.validate(), Err(ConfigError::PassphraseLength)));
    // The name is looked at first.
    c.ssid = String::new();
    assert!(matches!(c.validate(), Err(ConfigError::SsidLength)));
}

#[test]
fn interface_is_needed() {
    let mut c = working();
    c.interface = String::new();
    assert!(matches!(check_config(c.clone()), Err(ConfigError::InterfaceMissing)));
    c.ssid = String::new();
    assert!(matches!(check_config(c), Err(ConfigError::SsidLength)));
    assert!(check_config(working()).is_ok());
}

#[test]
fn flags_take_precedence() {
    let mut c = working();
    c.passphrase = Some("from the file".to_owned());
    c.gateway = Some("10.0.0.7".to_owned());
    c.dhcp_lease = "5m".to_owned();
    c.ieee80211n = false;
    let args = StartArgs {
        interface: Some("wlp3s0".to_owned()),
        ssid: Some("Other".to_owned()),
        passphrase: Some("from the flag".to_owned()),
        channel: Some(36),
        hw_mode: Some("A".to_owned()),
        network_class: Some("B".to_owned()),
        upstream: Some("eth7".to_owned()),
        country_code: Some("DE".to_owned()),
        hidden: true,
        ieee80211ac: true,
    };
    let m = merge_args(c, args).unwrap();
    assert_eq!((m.interface.as_str(), m.ssid.as_str()), ("wlp3s0", "Other"));
    assert_eq!(m.passphrase.as_deref(), Some("from the flag"));
    assert_eq!(m.channel, 36);
    assert_eq!(m.hw_mode, HwMode::A);
    assert_eq!(m.network_class, NetworkClass::B);
    assert_eq!(m.upstream.as_deref(), Some("eth7"));
    assert_eq!(m.country_code, "DE");
    assert!(m.hidden && m.ieee80211ac);
    assert_eq!(m.gateway.as_deref(), Some("10.0.0.7"));
    assert_eq!(m.dhcp_lease, "5m");
    assert!(!m.ieee80211n);
}

#[test]
fn settings_stay_without_flags() {
    let mut c = working();
    c.passphrase = Some("password".to_owned());
    c.upstream = Some("eth0".to_owned());
    c.hidden = true;
    c.ieee80211ac = true;
    c.hw_mode = HwMode::B;
    c.network_class = NetworkClass::A;
    let m = merge_args(c, StartArgs::default()).unwrap();
    assert_eq!((m.interface.as_str(), m.ssid.as_str()), ("wlan0", "Punk"));
    assert_eq!(m.passphrase.as_deref(), Some("password"));
    assert_eq!(m.upstream.as_deref(), Some("eth0"));
    assert!(m.hidden && m.ieee80211ac);
    assert_eq!((m.hw_mode, m.network_class), (HwMode::B, NetworkClass::A));
}

#[test]
fn unknown_modes_and_classes_are_refused() {
    let bad_mode = StartArgs { hw_mode: Some("N".to_owned()), ..StartArgs::default() };
    assert_eq!(
        message_of(merge_args(working(), bad_mode)),
        "unknown hw_mode 'n', expected b/g/a"
    );
    let bad_class = StartArgs { network_class: Some("D".to_owned()), ..StartArgs::default() };
    assert_eq!(
        message_of(merge_args(working(), bad_class)),
        "unknown network_class 'd', expected a/b/c"
    );
    let both = StartArgs {
        hw_mode: Some(String::new()),
        network_class: Some("x".to_owned()),
        ..StartArgs::default()
    };
    assert_eq!(message_of(merge_args(working(), both)), "unknown hw_mode '', expected b/g/a");
}

#[test]
fn refused_letters_are_reported_in_lower_case() {
    let k = StartArgs { hw_mode: Some("\u{212a}Ü".to_owned()), ..StartArgs::default() };
    match merge_args(working(), k) {
        Err(ConfigError::UnknownHwMode(s)) => assert_eq!(s, "kü"),
        _ => panic!("accepted"),
    }
    let i = StartArgs { network_class: Some("\u{130}".to_owned()), ..StartArgs::default() };
    match merge_args(working(), i) {
        Err(ConfigError::UnknownNetworkClass(s)) => assert_eq!(s, "i\u{307}"),
        _ => panic!("accepted"),
    }
}

#[test]
fn letters_in_lower_case_are_taken_as_they_are() {
    let m = apply_args(working(), StartArgs::default(), Some("b".to_owned()), Some("a".to_owned()));
    let m = m.unwrap();
    assert_eq!((m.hw_mode, m.network_class), (HwMode::B, NetworkClass::A));
    let r = apply_args(working(), StartArgs::default(), Some("B".to_owned()), None);
    assert!(matches!(r, Err(ConfigError::UnknownHwMode(_))));
}

#[test]
fn mode_letters_read_back() {
    for mode in [HwMode::B, HwMode::G, HwMode::A] {
        assert_eq!(HwMode::from_lower(mode.as_str()).unwrap(), mode);
    }
    for class in [NetworkClass::A, NetworkClass::B, NetworkClass::C] {
        assert_eq!(NetworkClass::from_lower(class.letter()).unwrap(), class);
    }
    assert!(NetworkClass::from_lower("g").is_err());
}

#[test]
fn settings_are_resolved_from_file_or_defaults() {
    let args = StartArgs {
        interface: Some("wlan1".to_owned()),
        ssid: Some("Flag".to_owned()),
        ..StartArgs::default()
    };
    let c = resolve_config(None, args.clone()).unwrap();
    assert_eq!((c.interface.as_str(), c.channel), ("wlan1", 6));
    let mut file = working();
    file.channel = 11;
    let c = resolve_config(Some(file), args).unwrap();
    assert_eq!((c.ssid.as_str(), c.channel), ("Flag", 11));
    let r = resolve_config(None, StartArgs::default());
    assert_eq!(message_of(r), "ssid must be 1–32 characters");
}

#[test]
fn faults_are_reported() {
    assert_eq!(
        ConfigError::PassphraseLength.message(),
        "passphrase must be 8–63 characters (WPA2 PSK requirement)"
    );
    assert_eq!(
        ConfigError::InterfaceMissing.message(),
        "interface is required — set it in config.toml or pass --interface"
    );
    assert_eq!(
        ConfigError::NotWireless("eth0".to_owned()).message(),
        "'eth0' is not a wireless interface — list interfaces with: iw dev"
    );
}

#[test]
fn wireless_interfaces_are_known_by_their_files() {
    assert_eq!(phy_link_path("wlan0"), "/sys/class/net/wlan0/phy80211");
    assert_eq!(wireless_dir_path("wlan0"), "/sys/class/net/wlan0/wireless");
    assert!(check_wireless_interface("wlan0", true, false).is_ok());
    assert!(check_wireless_interface("wlan0", false, true).is_ok());
    assert!(matches!(
        check_wireless_interface("eth0", false, false),
        Err(ConfigError::NotWireless(s)) if s == "eth0"
    ));
}

#[test]
fn home_directory_is_looked_up() {
    let passwd = "root:x:0:0:root:/root:/bin/sh\nann:x:1:1::/home/ann:/bin/zsh\r\nbob:x:2:2\n";
    assert_eq!(
        sudo_user_config_path(passwd, "ann").as_deref(),
        Some("/home/ann/.config/heisspunk/config.toml")
    );
    assert_eq!(
        sudo_user_config_path(passwd, "root").as_deref(),
        Some("/root/.config/heisspunk/config.toml")
    );
    assert_eq!(sudo_user_config_path(passwd, "bob"), None);
    assert_eq!(sudo_user_config_path(passwd, "an"), None);
    assert_eq!(sudo_user_config_path("", "ann"), None);
    assert_eq!(
        sudo_user_config_path("a:::::/h/\na:::::/other", "a").as_deref(),
        Some("/h/.config/heisspunk/config.toml")
    );
    assert_eq!(
        sudo_user_config_path("a:::::", "a").as_deref(),
        Some(".config/heisspunk/config.toml")
    );
}

#[test]
fn paths_are_put_together() {
    assert_eq!(path_below("/tmp", "x"), "/tmp/x");
    assert_eq!(path_below("/tmp/", "x"), "/tmp/x");
    assert_eq!(path_below("", "x"), "x");
}

#[test]
fn file_of_the_calling_user_comes_first() {
    assert_eq!(Config::load_source(true, true), ConfigSource::SudoUser);
    assert_eq!(Config::load_source(true, false), ConfigSource::SudoUser);
    assert_eq!(Config::load_source(false, true), ConfigSource::Xdg);
    assert_eq!(Config::load_source(false, false), ConfigSource::Nothing);
}

#[test]
fn settings_are_shown() {
    assert_eq!(
        show_text(&working()),
        "interface    : wlan0\n\
         ssid         : Punk\n\
         passphrase   : <none — open>\n\
         channel      : 6\n\
         hw_mode      : g\n\
         network_class: C\n\
         gateway      : 192.168.100.1\n\
         dhcp_range   : 192.168.100.10 – 192.168.100.250 / 255.255.255.0\n\
         dhcp_lease   : 12h\n\
         upstream     : <auto-detect>\n\
         hidden       : false\n\
         ieee80211n   : true\n\
         ieee80211ac  : false\n\
         country_code : CH\n"
    );
    let mut c = working();
    c.passphrase = Some("password".to_owned());
    c.upstream = Some("eth0".to_owned());
    c.network_class = NetworkClass::A;
    c.hw_mode = HwMode::A;
    c.hidden = true;
    let text = show_text(&c);
    assert!(text.contains("passphrase   : password\n"));
    assert!(text.contains("upstream     : eth0\n"));
    assert!(text.contains("network_class: A\ngateway      : 10.0.0.1\n"));
    assert!(text.contains("hw_mode      : a\n"));
    assert!(text.contains("hidden       : true\n"));
}

#[test]
fn configuration_to_start_from() {
    let text = default_config_text();
    let all: Vec<&str> = text.lines().collect();
    assert_eq!(all.len(), 17);
    assert_eq!(
        all[0],
        "interface = \"wlan0\"       # wireless AP interface — find yours with: iw dev"
    );
    assert_eq!(all[1], "ssid = \"MyHotspot\"        # 1–32 characters");
    assert_eq!(
        all[2],
        "passphrase = \"changeme\"   # WPA2-PSK, 8–63 chars; omit for open network"
    );
    assert_eq!(all[10], "# netmask = \"255.255.255.0\"");
    assert_eq!(
        all[16],
        "country_code = \"CH\"       # ISO 3166-1 alpha-2, controls legal channels/power"
    );
    assert!(text.ends_with("power\n"));
}

#[test]
fn configuration_to_start_from_in_full() {
    assert_eq!(
        default_config_text(),
        "interface = \"wlan0\"       # wireless AP interface — find yours with: iw dev
ssid = \"MyHotspot\"        # 1–32 characters
passphrase = \"changeme\"   # WPA2-PSK, 8–63 chars; omit for open network
channel = 6                 # 2.4 GHz: 1–13 | 5 GHz: 36 40 44 48 52 ...
hw_mode = \"g\"             # b/g = 2.4 GHz, a = 5 GHz
network_class = \"c\"       # RFC 1918 defaults — a=10/8, b=172.16/12, c=192.168/24
# gateway = \"192.168.100.1\"
# [dhcp_range]
# start   = \"192.168.100.10\"
# end     = \"192.168.100.250\"
# netmask = \"255.255.255.0\"
dhcp_lease = \"12h\"        # suffixes: h m s
# upstream = \"eth0\"       # interface for NAT/masquerade; auto-detected if omitted
hidden = false              # suppress SSID beacon
ieee80211n = true           # HT, up to 300 Mbps
ieee80211ac = false         # VHT 5 GHz only; channel width auto-detected from driver
country_code = \"CH\"       # ISO 3166-1 alpha-2, controls legal channels/power
"
    );
}

#[test]
fn configuration_to_start_from_passes() {
    let c = starting_settings();
    assert!(c.validate().is_ok());
    assert_eq!((c.interface.as_str(), c.ssid.as_str()), ("wlan0", "MyHotspot"));
    let d = Config::default();
    assert_eq!((c.channel, c.hw_mode, c.network_class), (d.channel, d.hw_mode, d.network_class));
    assert_eq!((&c.gateway, &c.upstream), (&d.gateway, &d.upstream));
    assert!(c.dhcp_range.is_none() && d.dhcp_range.is_none());
    assert_eq!((&c.dhcp_lease, &c.country_code), (&d.dhcp_lease, &d.country_code));
    assert_eq!(
        (c.hidden, c.ieee80211n, c.ieee80211ac),
        (d.hidden, d.ieee80211n, d.ieee80211ac)
    );
    assert!(check_config(c).is_ok());
    assert!(resolve_config(Some(starting_settings()), StartArgs::default()).is_ok());
}

#[test]
fn configuration_to_start_from_says_its_settings() {
    let c = starting_settings();
    let t: toml::Table = default_config_text().parse().unwrap();
    assert_eq!(t.len(), 11);
    assert_eq!(t["interface"].as_str(), Some(c.interface.as_str()));
    assert_eq!(t["ssid"].as_str(), Some(c.ssid.as_str()));
    assert_eq!(t["passphrase"].as_str(), c.passphrase.as_deref());
    assert_eq!(t["channel"].as_integer(), Some(i64::from(c.channel)));
    assert_eq!(t["hw_mode"].as_str(), Some(c.hw_mode.as_str()));
    assert_eq!(t["network_class"].as_str(), Some(c.network_class.letter()));
    assert_eq!(t["dhcp_lease"].as_str(), Some(c.dhcp_lease.as_str()));
    assert_eq!(t["hidden"].as_bool(), Some(c.hidden));
    assert_eq!(t["ieee80211n"].as_bool(), Some(c.ieee80211n));
    assert_eq!(t["ieee80211ac"].as_bool(), Some(c.ieee80211ac));
    assert_eq!(t["country_code"].as_str(), Some(c.country_code.as_str()));
}
