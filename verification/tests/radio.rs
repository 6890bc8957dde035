use heisspunk::config::{Config, HwMode};
use heisspunk::hostapd::{
    after_launch, classify_hostapd_line, classify_lower, generate, is_reduced, log_step,
    next_launch, wait_or_alive, LaunchError, LaunchOutcome, LaunchStep, Liveness, LogStep, Poll,
    Severity, SETTLE_NANOS,
};
use heisspunk::phy::{
    ht_40mhz_flags, parse_iw_output, phy_name, vht_center_freq_idx, PhyCaps, VhtWidth,
};

fn caps(ht_caps: u16, vht_caps: u32) -> PhyCaps {
    PhyCaps { ht_caps, vht_caps, has_vht: true, max_vht_width: VhtWidth::W80 }
}

fn working() -> Config {
    Config { interface: "wlan0".to_owned(), ssid: "Punk".to_owned(), ..Config::default() }
}

const BASE: &str = "interface=wlan0\nssid=Punk\nchannel=36\nhw_mode=a\ncountry_code=CH\n\
    ignore_broadcast_ssid=0\ndriver=nl80211\nlogger_syslog=-1\nlogger_syslog_level=3\n\
    logger_stdout=-1\nlogger_stdout_level=0\n";

fn on_5ghz() -> Config {
    let mut c = working();
    c.channel = 36;
    c.hw_mode = HwMode::A;
    c
}

#[test]
fn bonding_of_every_channel() {
    let above = [36, 44, 52, 60, 100, 108, 116, 124, 132, 140, 1, 2, 3, 4, 5, 6, 7];
    let below = [40, 48, 56, 64, 104, 112, 120, 128, 136, 144, 8, 9, 10, 11, 12, 13];
    for c in 0..=255u8 {
        let want = if above.contains(&c) {
            "[HT40+]"
        } else if below.contains(&c) {
            "[HT40-]"
        } else {
            ""
        };
        assert_eq!(ht_40mhz_flags(c), want, "{}", c);
    }
}

#[test]
fn bonded_channels_agree() {
    assert_eq!((ht_40mhz_flags(36), ht_40mhz_flags(40)), ("[HT40+]", "[HT40-]"));
    assert_eq!((ht_40mhz_flags(140), ht_40mhz_flags(144)), ("[HT40+]", "[HT40-]"));
}

#[test]
fn middle_of_wide_channels() {
    for (c, m) in [
        (36, 42), (48, 42), (52, 58), (64, 58), (100, 106), (112, 106), (116, 122), (128, 122),
        (132, 138), (144, 138), (149, 155), (161, 155), (49, 55), (165, 171), (249, 255),
        (250, 255), (255, 255), (1, 7),
    ] {
        assert_eq!(vht_center_freq_idx(c, VhtWidth::W80), m, "{}", c);
    }
    for (c, m) in [
        (36, 50), (64, 50), (100, 114), (128, 114), (149, 163), (241, 255), (242, 255), (1, 15),
    ] {
        assert_eq!(vht_center_freq_idx(c, VhtWidth::W160), m, "{}", c);
        assert_eq!(vht_center_freq_idx(c, VhtWidth::W80P80), m, "{}", c);
    }
}

#[test]
fn flags_of_80211n() {
    assert_eq!(caps(0, 0).ht_capab_string(36), "[SMPS-STATIC][DSSS_CCK-40]");
    assert_eq!(
        caps(0xffff, 0).ht_capab_string(36),
        "[LDPC][HT40+][GF][SHORT-GI-20][SHORT-GI-40][TX-STBC][RX-STBC123][MAX-AMSDU-7935]"
    );
    assert_eq!(
        caps(0x19ef, 0).ht_capab_string(40),
        "[LDPC][HT40-][SHORT-GI-20][SHORT-GI-40][TX-STBC][RX-STBC1][MAX-AMSDU-7935]"
    );
    assert_eq!(caps(0x1004, 0).ht_capab_string(36), "[SMPS-DYNAMIC]");
    assert_eq!(caps(0x1208, 0).ht_capab_string(36), "[RX-STBC12]");
    assert_eq!(caps(0x100a, 0).ht_capab_string(14), "");
}

#[test]
fn flags_of_80211ac() {
    assert_eq!(caps(0, 0).vht_capab_string(), "");
    assert_eq!(
        caps(0, 0xffff_ffff).vht_capab_string(),
        "[RXLDPC][SHORT-GI-80][SHORT-GI-160][TX-STBC-2BY1][SU-BEAMFORMER][SU-BEAMFORMEE]\
         [MU-BEAMFORMER][MU-BEAMFORMEE][VHT-TXOP-PS][HTC-VHT][RX-ANTENNA-PATTERN]\
         [TX-ANTENNA-PATTERN]"
    );
    assert_eq!(caps(0, 1).vht_capab_string(), "[MAX-MPDU-7991]");
    assert_eq!(caps(0, 2).vht_capab_string(), "[MAX-MPDU-11454]");
    for (n, f) in [(1, "1"), (2, "12"), (3, "123"), (4, "1234")] {
        assert_eq!(caps(0, n << 8).vht_capab_string(), format!("[RX-STBC-{}]", f));
    }
    assert_eq!(caps(0, 5 << 8).vht_capab_string(), "");
    for n in 1..=3u32 {
        assert_eq!(caps(0, n << 13).vht_capab_string(), format!("[BF-ANTENNA-{}]", n + 1));
    }
    assert_eq!(caps(0, 4 << 13).vht_capab_string(), "");
}

#[test]
fn numbers_of_the_widths() {
    let mut c = PhyCaps::default();
    assert_eq!(c.vht_oper_chwidth(), 1);
    c.max_vht_width = VhtWidth::W160;
    assert_eq!(c.vht_oper_chwidth(), 2);
    c.max_vht_width = VhtWidth::W80P80;
    assert_eq!(c.vht_oper_chwidth(), 3);
    assert!(VhtWidth::W80 < VhtWidth::W160 && VhtWidth::W160 < VhtWidth::W80P80);
    assert_eq!(VhtWidth::default(), VhtWidth::W80);
}

const LISTING: &str = "Wiphy phy0\n\tBand 1:\n\t\tCapabilities: 0x1111\n\tBand 2:\r\n\
    \t\tCapabilities: 0x19ef\n\t\tVHT Capabilities (0x338001b6):\n\t\t\tMax MPDU length: 11454\n\
    \tBand 4:\n\t\tCapabilities: 0x2222\n\t\tVHT Capabilities (0x00000001):\n";

#[test]
fn listing_is_read_for_the_second_band() {
    let c = parse_iw_output(LISTING);
    assert_eq!((c.ht_caps, c.vht_caps, c.has_vht), (0x19ef, 0x338001b6, true));
    assert_eq!(c.max_vht_width, VhtWidth::W160);
}

#[test]
fn listing_without_the_second_band_says_nothing() {
    let c = parse_iw_output("Band 1:\n Capabilities: 0x19ef\n VHT Capabilities (0x338001b6):\n");
    assert_eq!((c.ht_caps, c.vht_caps, c.has_vht), (0, 0, false));
    assert_eq!(c.max_vht_width, VhtWidth::W80);
}

#[test]
fn width_follows_the_capabilities() {
    for (v, w) in [
        ("0", VhtWidth::W80), ("4", VhtWidth::W160), ("8", VhtWidth::W80P80), ("c", VhtWidth::W80),
    ] {
        let c = parse_iw_output(&format!("Band 2:\nVHT Capabilities (0x{}):", v));
        assert_eq!((c.has_vht, c.max_vht_width), (true, w));
    }
}

#[test]
fn unreadable_capabilities_are_passed_over() {
    let c = parse_iw_output(
        "Band 2:\nCapabilities: 0x12\nCapabilities: 0x12345\nCapabilities: 0xzz\n\
         VHT Capabilities (0x):\nVHT Capabilities (0x123456789):\nCapabilities: 0x",
    );
    assert_eq!((c.ht_caps, c.has_vht), (0x12, false));
    let c = parse_iw_output("Band 2:\nVHT Capabilities (0x 1f \nCapabilities: 0x 20 ");
    assert_eq!((c.ht_caps, c.vht_caps), (0x20, 0x1f));
}

#[test]
fn output_that_is_not_utf8_is_read_as_far_as_it_is() {
    let mut out = b"\xff\xfe phy0\nBand 2:\n\tCapabilities: 0x19ef\n".to_vec();
    let c = PhyCaps::query(&out);
    assert_eq!(c.ht_caps, 0x19ef);
    out.extend_from_slice(b"Capabilities: 0x1\xff\n");
    assert_eq!(PhyCaps::query(&out).ht_caps, 0x19ef);
    assert_eq!(PhyCaps::query(LISTING.as_bytes()).vht_caps, 0x338001b6);
}

#[test]
fn radio_is_named_by_the_last_part() {
    assert_eq!(phy_name("../../ieee80211/phy0").as_deref(), Some("phy0"));
    assert_eq!(phy_name("/a/phy1/").as_deref(), Some("phy1"));
    assert_eq!(phy_name("phy2/.").as_deref(), Some("phy2"));
    assert_eq!(phy_name("a/.."), None);
    assert_eq!(phy_name("/"), None);
    assert_eq!(phy_name(""), None);
    assert_eq!(phy_name("."), None);
}

#[test]
fn configuration_with_all_capabilities() {
    let mut c = on_5ghz();
    c.ieee80211ac = true;
    c.passphrase = Some("password".to_owned());
    let radio = parse_iw_output(LISTING);
    let want = format!(
        "{}ieee80211n=1\nwmm_enabled=1\n\
         ht_capab=[LDPC][HT40+][SHORT-GI-20][SHORT-GI-40][TX-STBC][RX-STBC1][MAX-AMSDU-7935]\n\
         ieee80211ac=1\n\
         vht_capab=[MAX-MPDU-11454][RXLDPC][SHORT-GI-80][TX-STBC-2BY1][RX-STBC-1]\
         [RX-ANTENNA-PATTERN][TX-ANTENNA-PATTERN]\n\
         vht_oper_chwidth=2\nvht_oper_centr_freq_seg0_idx=50\n\
         auth_algs=1\nwpa=2\nwpa_key_mgmt=WPA-PSK\nrsn_pairwise=CCMP\nwpa_passphrase=password\n",
        BASE
    );
    assert_eq!(generate(&c, &radio, "full"), want);
}

#[test]
fn configuration_with_what_every_radio_can_do() {
    let mut c = on_5ghz();
    c.ieee80211ac = true;
    let want = format!(
        "{}ieee80211n=1\nwmm_enabled=1\nht_capab=[HT40+][SHORT-GI-20][SHORT-GI-40]\n\
         ieee80211ac=1\nvht_capab=[SHORT-GI-80]\nvht_oper_chwidth=1\n\
         vht_oper_centr_freq_seg0_idx=42\nauth_algs=1\n",
        BASE
    );
    assert_eq!(generate(&c, &parse_iw_output(LISTING), "vht-minimal"), want);
}

#[test]
fn last_levels_ignore_the_radio() {
    let mut c = on_5ghz();
    c.ieee80211n = false;
    let ht = format!(
        "{}ieee80211n=1\nwmm_enabled=1\nht_capab=[HT40+][SHORT-GI-20]\nauth_algs=1\n",
        BASE
    );
    let bare = format!("{}ieee80211n=1\nwmm_enabled=1\nauth_algs=1\n", BASE);
    for radio in [PhyCaps::default(), parse_iw_output(LISTING)] {
        assert_eq!(generate(&c, &radio, "ht-only"), ht);
        assert_eq!(generate(&c, &radio, "bare"), bare);
        assert_eq!(generate(&c, &radio, "anything else"), bare);
    }
}

#[test]
fn configuration_without_80211n_and_80211ac() {
    let mut c = on_5ghz();
    c.ieee80211n = false;
    assert_eq!(generate(&c, &parse_iw_output(LISTING), "full"), format!("{}auth_algs=1\n", BASE));
    assert_eq!(
        generate(&c, &parse_iw_output(LISTING), "vht-minimal"),
        format!("{}auth_algs=1\n", BASE)
    );
}

#[test]
fn no_80211ac_without_radio_or_setting() {
    let mut c = on_5ghz();
    assert!(!generate(&c, &parse_iw_output(LISTING), "full").contains("ieee80211ac"));
    c.ieee80211ac = true;
    assert!(!generate(&c, &PhyCaps::default(), "full").contains("ieee80211ac"));
    c.ieee80211n = false;
    assert!(generate(&c, &PhyCaps::default(), "full").contains("ieee80211n=1"));
}

#[test]
fn empty_80211ac_flags_get_no_line() {
    let mut c = on_5ghz();
    c.ieee80211ac = true;
    let text = generate(&c, &caps(0, 0), "full");
    assert!(text.contains("ieee80211ac=1\nvht_oper_chwidth=1\n"));
}

#[test]
fn hidden_network() {
    let mut c = working();
    c.hidden = true;
    assert!(generate(&c, &PhyCaps::default(), "bare").contains("ignore_broadcast_ssid=1\n"));
}

#[test]
fn levels_are_tried_in_order() {
    let c = on_5ghz();
    let radio = parse_iw_output(LISTING);
    for (i, level) in ["full", "vht-minimal", "ht-only", "bare"].iter().enumerate() {
        let l = next_launch(&c, Some(radio), i).unwrap();
        assert_eq!(l.level, *level);
        assert_eq!(l.conf, generate(&c, &radio, level));
        assert_eq!(is_reduced(l.level), i > 0);
    }
    assert!(next_launch(&c, Some(radio), 4).is_none());
    let blind = next_launch(&c, None, 0).unwrap();
    assert_eq!(blind.conf, generate(&c, &PhyCaps::default(), "full"));
}

#[test]
fn only_an_exit_leads_to_the_next_level() {
    for failed in 0..4 {
        assert_eq!(after_launch(failed, LaunchOutcome::Alive), LaunchStep::Running);
        assert_eq!(after_launch(failed, LaunchOutcome::NotStarted), LaunchStep::Abort);
    }
    assert_eq!(after_launch(0, LaunchOutcome::Exited), LaunchStep::Try(1));
    assert_eq!(after_launch(1, LaunchOutcome::Exited), LaunchStep::Try(2));
    assert_eq!(after_launch(2, LaunchOutcome::Exited), LaunchStep::Try(3));
    assert_eq!(after_launch(3, LaunchOutcome::Exited), LaunchStep::AllFailed);
}

#[test]
fn every_level_is_tried_once_where_all_exit() {
    let c = on_5ghz();
    let mut tried = Vec::new();
    let mut failed = 0;
    let mut conf = String::new();
    let end = loop {
        let l = next_launch(&c, None, failed).unwrap();
        tried.push(l.level);
        conf = l.conf;
        match after_launch(failed, LaunchOutcome::Exited) {
            LaunchStep::Try(next) => failed = next,
            other => break other,
        }
    };
    assert_eq!(end, LaunchStep::AllFailed);
    assert_eq!(tried, vec!["full", "vht-minimal", "ht-only", "bare"]);
    assert_eq!(conf, generate(&c, &PhyCaps::default(), "bare"));
}

#[test]
fn failed_starts_are_reported() {
    assert_eq!(LaunchError::AllLevels.message(), "hostapd failed at all capability levels");
    assert_eq!(LaunchError::Spawn.message(), "spawning hostapd");
    assert_eq!(
        LaunchError::Write("ht-only".to_owned()).message(),
        "writing hostapd.conf (level=ht-only)"
    );
}

#[test]
fn lines_are_reported_by_what_they_say() {
    for (line, s) in [
        ("nl80211: ERROR", Severity::Warn),
        ("Failed to set beacon parameters", Severity::Warn),
        ("Could not configure driver", Severity::Warn),
        ("Unable to bind", Severity::Warn),
        ("Warning: x", Severity::Warn),
        ("Beacon lost", Severity::Warn),
        ("wlan0: AP-ENABLED", Severity::Info),
        ("AP-STA-CONNECTED 02:00", Severity::Info),
        ("AP-STA-DISCONNECTED 02:00", Severity::Info),
        ("STA authenticated", Severity::Info),
        ("STA associated (aid 1)", Severity::Info),
        ("4-Way HANDSHAKE", Severity::Info),
        ("connected, but failed", Severity::Warn),
        ("wlan0: interface state", Severity::Debug),
        ("", Severity::Debug),
    ] {
        assert_eq!(classify_hostapd_line(line), s, "{}", line);
    }
    assert_eq!(classify_lower("error"), Severity::Warn);
    assert_eq!(classify_lower("ERROR"), Severity::Debug);
}

#[test]
fn lines_beyond_ascii_are_put_in_lower_case_too() {
    assert_eq!(classify_hostapd_line("HANDSHA\u{212a}E é"), Severity::Info);
    assert_eq!(classify_hostapd_line("É ERROR"), Severity::Warn);
}

#[test]
fn output_is_read_up_to_a_blank_line() {
    assert_eq!(log_step(false, Some("AP-ENABLED")), LogStep::Report(Severity::Info));
    assert_eq!(log_step(false, Some("x")), LogStep::Report(Severity::Debug));
    assert_eq!(log_step(false, Some(" \t\u{a0}")), LogStep::End);
    assert_eq!(log_step(false, Some("")), LogStep::End);
    assert_eq!(log_step(false, None), LogStep::End);
    assert_eq!(log_step(true, Some("AP-ENABLED")), LogStep::End);
}

#[test]
fn process_is_watched_up_to_the_deadline() {
    assert_eq!(wait_or_alive(0, 10, Poll::Running), Liveness::Pause(100));
    assert_eq!(wait_or_alive(9, 10, Poll::Exited), Liveness::Exited);
    assert_eq!(wait_or_alive(9, 10, Poll::Failed), Liveness::Unknown);
    assert_eq!(wait_or_alive(10, 10, Poll::Exited), Liveness::Alive);
    assert_eq!(wait_or_alive(11, 10, Poll::Running), Liveness::Alive);
    assert_eq!(SETTLE_NANOS, 2_000_000_000);
}
