//! What is shown of the settings, and the configuration file to start from.
use vstd::prelude::*;
use vstd::string::*;

use crate::cli::checked;
use crate::config::{
    class_letter, default_config, law_mode_letter_reads_back, mode_letter, mode_of, Config,
    ConfigErrorView, ConfigView, DhcpRange, DhcpRangeView, NetworkClass,
};
use crate::number::{decimal, decimal_text, digit_value, law_decimal_reads_back, magnitude};
use crate::text::{
    join_lines, lemma_split_unlines, lemma_texts_push, lemma_values_empty, lemma_values_labelled,
    split_on, texts, unlines, values_of,
};

verus! {

broadcast use vstd::string::group_string_axioms;

/// A text that may be missing, or what is shown in its place.
pub open spec fn text_or(s: Option<Seq<char>>, otherwise: Seq<char>) -> Seq<char> {
    match s {
        Some(s) => s,
        None => otherwise,
    }
}

/// The name of a network class.
pub open spec fn class_name(class: NetworkClass) -> Seq<char> {
    match class {
        NetworkClass::A => "A"@,
        NetworkClass::B => "B"@,
        NetworkClass::C => "C"@,
    }
}

/// Yes or no.
pub open spec fn bool_name(b: bool) -> Seq<char> {
    if b {
        "true"@
    } else {
        "false"@
    }
}

/// The addresses that are given out, as they are shown.
pub open spec fn range_text(range: DhcpRangeView) -> Seq<char> {
    range.start + " – "@ + range.end + " / "@ + range.netmask
}

/// What is shown of the settings that a hotspot runs with.
pub open spec fn shown_lines(cfg: ConfigView) -> Seq<Seq<char>> {
    let range = cfg.range();
    seq![
        "interface    : "@ + cfg.interface,
        "ssid         : "@ + cfg.ssid,
        "passphrase   : "@ + text_or(cfg.passphrase, "<none — open>"@),
        "channel      : "@ + decimal(cfg.channel as nat),
        "hw_mode      : "@ + mode_letter(cfg.hw_mode),
        "network_class: "@ + class_name(cfg.network_class),
        "gateway      : "@ + cfg.gateway_text(),
        "dhcp_range   : "@ + range_text(range),
        "dhcp_lease   : "@ + cfg.dhcp_lease,
        "upstream     : "@ + text_or(cfg.upstream, "<auto-detect>"@),
        "hidden       : "@ + bool_name(cfg.hidden),
        "ieee80211n   : "@ + bool_name(cfg.ieee80211n),
        "ieee80211ac  : "@ + bool_name(cfg.ieee80211ac),
        "country_code : "@ + cfg.country_code,
    ]
}

/// The settings of the configuration file to start from: an interface, a name
/// and a passphrase, and else the defaults.
pub open spec fn starting_config() -> ConfigView {
    ConfigView {
        interface: "wlan0"@,
        ssid: "MyHotspot"@,
        passphrase: Some("changeme"@),
        ..default_config()
    }
}

/// The lines of the configuration file to start from: its settings, and the
/// defaults that it leaves out, as comments.
pub open spec fn starting_lines() -> Seq<Seq<char>> {
    let cfg = starting_config();
    let range = cfg.range();
    seq![
        "interface = \""@ + cfg.interface
            + "\"       # wireless AP interface — find yours with: iw dev"@,
        "ssid = \""@ + cfg.ssid + "\"        # 1–32 characters"@,
        "passphrase = \""@ + cfg.passphrase->0
            + "\"   # WPA2-PSK, 8–63 chars; omit for open network"@,
        "channel = "@ + decimal(cfg.channel as nat)
            + "                 # 2.4 GHz: 1–13 | 5 GHz: 36 40 44 48 52 ..."@,
        "hw_mode = \""@ + mode_letter(cfg.hw_mode) + "\"             # b/g = 2.4 GHz, a = 5 GHz"@,
        "network_class = \""@ + class_letter(cfg.network_class)
            + "\"       # RFC 1918 defaults — a=10/8, b=172.16/12, c=192.168/24"@,
        "# gateway = \""@ + cfg.gateway_text() + "\""@,
        "# [dhcp_range]"@,
        "# start   = \""@ + range.start + "\""@,
        "# end     = \""@ + range.end + "\""@,
        "# netmask = \""@ + range.netmask + "\""@,
        "dhcp_lease = \""@ + cfg.dhcp_lease + "\"        # suffixes: h m s"@,
        "# upstream = \"eth0\"       # interface for NAT/masquerade; auto-detected if omitted"@,
        "hidden = "@ + bool_name(cfg.hidden) + "              # suppress SSID beacon"@,
        "ieee80211n = "@ + bool_name(cfg.ieee80211n) + "           # HT, up to 300 Mbps"@,
        "ieee80211ac = "@ + bool_name(cfg.ieee80211ac)
            + "         # VHT 5 GHz only; channel width auto-detected from driver"@,
        "country_code = \""@ + cfg.country_code
            + "\"       # ISO 3166-1 alpha-2, controls legal channels/power"@,
    ]
}

/// The number of a label, from 0 on; -1 for another text.
#[verifier::opaque]
spec fn label_number(label: Seq<char>) -> int {
    if label == "interface    : "@ {
        0
    } else if label == "ssid         : "@ {
        1
    } else if label == "passphrase   : "@ {
        2
    } else if label == "channel      : "@ {
        3
    } else if label == "hw_mode      : "@ {
        4
    } else if label == "network_class: "@ {
        5
    } else if label == "gateway      : "@ {
        6
    } else if label == "dhcp_range   : "@ {
        7
    } else if label == "dhcp_lease   : "@ {
        8
    } else if label == "upstream     : "@ {
        9
    } else if label == "hidden       : "@ {
        10
    } else if label == "ieee80211n   : "@ {
        11
    } else if label == "ieee80211ac  : "@ {
        12
    } else if label == "country_code : "@ {
        13
    } else {
        -1
    }
}

/// What tells the labels apart, which are all of the same length.
proof fn lemma_label_texts()
    ensures
        "interface    : "@.len() == 15,
        "interface    : "@[0] == 'i',
        "interface    : "@[1] == 'n',
        "ssid         : "@.len() == 15,
        "ssid         : "@[0] == 's',
        "passphrase   : "@.len() == 15,
        "passphrase   : "@[0] == 'p',
        "channel      : "@.len() == 15,
        "channel      : "@[0] == 'c',
        "channel      : "@[1] == 'h',
        "hw_mode      : "@.len() == 15,
        "hw_mode      : "@[0] == 'h',
        "hw_mode      : "@[1] == 'w',
        "network_class: "@.len() == 15,
        "network_class: "@[0] == 'n',
        "gateway      : "@.len() == 15,
        "gateway      : "@[0] == 'g',
        "dhcp_range   : "@.len() == 15,
        "dhcp_range   : "@[0] == 'd',
        "dhcp_range   : "@[5] == 'r',
        "dhcp_lease   : "@.len() == 15,
        "dhcp_lease   : "@[0] == 'd',
        "dhcp_lease   : "@[5] == 'l',
        "upstream     : "@.len() == 15,
        "upstream     : "@[0] == 'u',
        "hidden       : "@.len() == 15,
        "hidden       : "@[0] == 'h',
        "hidden       : "@[1] == 'i',
        "ieee80211n   : "@.len() == 15,
        "ieee80211n   : "@[0] == 'i',
        "ieee80211n   : "@[1] == 'e',
        "ieee80211n   : "@[9] == 'n',
        "ieee80211ac  : "@.len() == 15,
        "ieee80211ac  : "@[0] == 'i',
        "ieee80211ac  : "@[1] == 'e',
        "ieee80211ac  : "@[9] == 'a',
        "country_code : "@.len() == 15,
        "country_code : "@[0] == 'c',
        "country_code : "@[1] == 'o',
{
    assert({
        &&& "interface    : "@.len() == 15
        &&& "interface    : "@[0] == 'i'
        &&& "interface    : "@[1] == 'n'
    }) by {
        reveal_strlit("interface    : ");
    }
    assert({
        &&& "ssid         : "@.len() == 15
        &&& "ssid         : "@[0] == 's'
    }) by {
        reveal_strlit("ssid         : ");
    }
    assert({
        &&& "passphrase   : "@.len() == 15
        &&& "passphrase   : "@[0] == 'p'
    }) by {
        reveal_strlit("passphrase   : ");
    }
    assert({
        &&& "channel      : "@.len() == 15
        &&& "channel      : "@[0] == 'c'
        &&& "channel      : "@[1] == 'h'
    }) by {
        reveal_strlit("channel      : ");
    }
    assert({
        &&& "hw_mode      : "@.len() == 15
        &&& "hw_mode      : "@[0] == 'h'
        &&& "hw_mode      : "@[1] == 'w'
    }) by {
        reveal_strlit("hw_mode      : ");
    }
    assert({
        &&& "network_class: "@.len() == 15
        &&& "network_class: "@[0] == 'n'
    }) by {
        reveal_strlit("network_class: ");
    }
    assert({
        &&& "gateway      : "@.len() == 15
        &&& "gateway      : "@[0] == 'g'
    }) by {
        reveal_strlit("gateway      : ");
    }
    assert({
        &&& "dhcp_range   : "@.len() == 15
        &&& "dhcp_range   : "@[0] == 'd'
        &&& "dhcp_range   : "@[5] == 'r'
    }) by {
        reveal_strlit("dhcp_range   : ");
    }
    assert({
        &&& "dhcp_lease   : "@.len() == 15
        &&& "dhcp_lease   : "@[0] == 'd'
        &&& "dhcp_lease   : "@[5] == 'l'
    }) by {
        reveal_strlit("dhcp_lease   : ");
    }
    assert({
        &&& "upstream     : "@.len() == 15
        &&& "upstream     : "@[0] == 'u'
    }) by {
        reveal_strlit("upstream     : ");
    }
    assert({
        &&& "hidden       : "@.len() == 15
        &&& "hidden       : "@[0] == 'h'
        &&& "hidden       : "@[1] == 'i'
    }) by {
        reveal_strlit("hidden       : ");
    }
    assert({
        &&& "ieee80211n   : "@.len() == 15
        &&& "ieee80211n   : "@[0] == 'i'
        &&& "ieee80211n   : "@[1] == 'e'
        &&& "ieee80211n   : "@[9] == 'n'
    }) by {
        reveal_strlit("ieee80211n   : ");
    }
    assert({
        &&& "ieee80211ac  : "@.len() == 15
        &&& "ieee80211ac  : "@[0] == 'i'
        &&& "ieee80211ac  : "@[1] == 'e'
        &&& "ieee80211ac  : "@[9] == 'a'
    }) by {
        reveal_strlit("ieee80211ac  : ");
    }
    assert({
        &&& "country_code : "@.len() == 15
        &&& "country_code : "@[0] == 'c'
        &&& "country_code : "@[1] == 'o'
    }) by {
        reveal_strlit("country_code : ");
    }
}

/// The labels have different numbers.
proof fn lemma_label_numbers()
    ensures
        label_number("interface    : "@) == 0,
        label_number("ssid         : "@) == 1,
        label_number("passphrase   : "@) == 2,
        label_number("channel      : "@) == 3,
        label_number("hw_mode      : "@) == 4,
        label_number("network_class: "@) == 5,
        label_number("gateway      : "@) == 6,
        label_number("dhcp_range   : "@) == 7,
        label_number("dhcp_lease   : "@) == 8,
        label_number("upstream     : "@) == 9,
        label_number("hidden       : "@) == 10,
        label_number("ieee80211n   : "@) == 11,
        label_number("ieee80211ac  : "@) == 12,
        label_number("country_code : "@) == 13,
{
    lemma_label_texts();
    reveal(label_number);
}

/// A line more: its value counts for its label alone.
proof fn lemma_shown(lines: Seq<Seq<char>>, label: Seq<char>, value: Seq<char>, other: Seq<char>)
    requires
        label_number(label) >= 0,
        label_number(other) >= 0,
    ensures
        values_of(lines.push(label + value), other) == if label_number(label) == label_number(
            other,
        ) {
            values_of(lines, other).push(value)
        } else {
            values_of(lines, other)
        },
{
    lemma_label_texts();
    lemma_label_numbers();
    reveal(label_number);
    lemma_values_labelled(lines, label, value, other);
}

/// What is shown under each label.
proof fn lemma_shown_values(cfg: ConfigView, label: Seq<char>)
    requires
        label_number(label) >= 0,
    ensures
        ({
            let n = label_number(label);
            let got = values_of(shown_lines(cfg), label);
            &&& n == 0 ==> got == seq![cfg.interface]
            &&& n == 1 ==> got == seq![cfg.ssid]
            &&& n == 2 ==> got == seq![text_or(cfg.passphrase, "<none — open>"@)]
            &&& n == 3 ==> got == seq![decimal(cfg.channel as nat)]
            &&& n == 4 ==> got == seq![mode_letter(cfg.hw_mode)]
            &&& n == 5 ==> got == seq![class_name(cfg.network_class)]
            &&& n == 6 ==> got == seq![cfg.gateway_text()]
            &&& n == 7 ==> got == seq![range_text(cfg.range())]
            &&& n == 8 ==> got == seq![cfg.dhcp_lease]
            &&& n == 9 ==> got == seq![text_or(cfg.upstream, "<auto-detect>"@)]
            &&& n == 10 ==> got == seq![bool_name(cfg.hidden)]
            &&& n == 11 ==> got == seq![bool_name(cfg.ieee80211n)]
            &&& n == 12 ==> got == seq![bool_name(cfg.ieee80211ac)]
            &&& n == 13 ==> got == seq![cfg.country_code]
        }),
{
    lemma_label_numbers();
    lemma_values_empty(label);
    let l0 = Seq::<Seq<char>>::empty();
    lemma_shown(l0, "interface    : "@, cfg.interface, label);
    let l1 = l0.push("interface    : "@ + cfg.interface);
    lemma_shown(l1, "ssid         : "@, cfg.ssid, label);
    let l2 = l1.push("ssid         : "@ + cfg.ssid);
    lemma_shown(l2, "passphrase   : "@, text_or(cfg.passphrase, "<none — open>"@), label);
    let l3 = l2.push("passphrase   : "@ + text_or(cfg.passphrase, "<none — open>"@));
    lemma_shown(l3, "channel      : "@, decimal(cfg.channel as nat), label);
    let l4 = l3.push("channel      : "@ + decimal(cfg.channel as nat));
    lemma_shown(l4, "hw_mode      : "@, mode_letter(cfg.hw_mode), label);
    let l5 = l4.push("hw_mode      : "@ + mode_letter(cfg.hw_mode));
    lemma_shown(l5, "network_class: "@, class_name(cfg.network_class), label);
    let l6 = l5.push("network_class: "@ + class_name(cfg.network_class));
    lemma_shown(l6, "gateway      : "@, cfg.gateway_text(), label);
    let l7 = l6.push("gateway      : "@ + cfg.gateway_text());
    lemma_shown(l7, "dhcp_range   : "@, range_text(cfg.range()), label);
    let l8 = l7.push("dhcp_range   : "@ + range_text(cfg.range()));
    lemma_shown(l8, "dhcp_lease   : "@, cfg.dhcp_lease, label);
    let l9 = l8.push("dhcp_lease   : "@ + cfg.dhcp_lease);
    lemma_shown(l9, "upstream     : "@, text_or(cfg.upstream, "<auto-detect>"@), label);
    let l10 = l9.push("upstream     : "@ + text_or(cfg.upstream, "<auto-detect>"@));
    lemma_shown(l10, "hidden       : "@, bool_name(cfg.hidden), label);
    let l11 = l10.push("hidden       : "@ + bool_name(cfg.hidden));
    lemma_shown(l11, "ieee80211n   : "@, bool_name(cfg.ieee80211n), label);
    let l12 = l11.push("ieee80211n   : "@ + bool_name(cfg.ieee80211n));
    lemma_shown(l12, "ieee80211ac  : "@, bool_name(cfg.ieee80211ac), label);
    let l13 = l12.push("ieee80211ac  : "@ + bool_name(cfg.ieee80211ac));
    lemma_shown(l13, "country_code : "@, cfg.country_code, label);
    let l14 = l13.push("country_code : "@ + cfg.country_code);
    assert(shown_lines(cfg) == l14);
}

/// Each setting is shown in one line, under its own name: those of the file and
/// the flags as they are, the gateway and the addresses with what the network
/// class fills in.
pub proof fn law_settings_are_shown(cfg: ConfigView)
    ensures
        ({
            let lines = shown_lines(cfg);
            let channel = values_of(lines, "channel      : "@);
            let mode = values_of(lines, "hw_mode      : "@);
            &&& lines.len() == 14
            &&& values_of(lines, "interface    : "@) == seq![cfg.interface]
            &&& values_of(lines, "ssid         : "@) == seq![cfg.ssid]
            &&& values_of(lines, "passphrase   : "@) == seq![
                match cfg.passphrase {
                    Some(pw) => pw,
                    None => "<none — open>"@,
                },
            ]
            &&& channel.len() == 1
            &&& magnitude(channel[0], 10) == Some(cfg.channel as nat)
            &&& mode.len() == 1
            &&& mode_of(mode[0]) == Some(cfg.hw_mode)
            &&& values_of(lines, "network_class: "@) == seq![
                match cfg.network_class {
                    NetworkClass::A => "A"@,
                    NetworkClass::B => "B"@,
                    NetworkClass::C => "C"@,
                },
            ]
            &&& values_of(lines, "gateway      : "@) == seq![cfg.gateway_text()]
            &&& values_of(lines, "dhcp_range   : "@) == seq![
                cfg.range().start + " – "@ + cfg.range().end + " / "@ + cfg.range().netmask,
            ]
            &&& values_of(lines, "dhcp_lease   : "@) == seq![cfg.dhcp_lease]
            &&& values_of(lines, "upstream     : "@) == seq![
                match cfg.upstream {
                    Some(up) => up,
                    None => "<auto-detect>"@,
                },
            ]
            &&& values_of(lines, "hidden       : "@) == seq![
                if cfg.hidden {
                    "true"@
                } else {
                    "false"@
                },
            ]
            &&& values_of(lines, "ieee80211n   : "@) == seq![
                if cfg.ieee80211n {
                    "true"@
                } else {
                    "false"@
                },
            ]
            &&& values_of(lines, "ieee80211ac  : "@) == seq![
                if cfg.ieee80211ac {
                    "true"@
                } else {
                    "false"@
                },
            ]
            &&& values_of(lines, "country_code : "@) == seq![cfg.country_code]
        }),
{
    lemma_label_numbers();
    law_decimal_reads_back(cfg.channel as nat);
    law_mode_letter_reads_back(cfg.hw_mode);
    lemma_shown_values(cfg, "interface    : "@);
    lemma_shown_values(cfg, "ssid         : "@);
    lemma_shown_values(cfg, "passphrase   : "@);
    lemma_shown_values(cfg, "channel      : "@);
    lemma_shown_values(cfg, "hw_mode      : "@);
    lemma_shown_values(cfg, "network_class: "@);
    lemma_shown_values(cfg, "gateway      : "@);
    lemma_shown_values(cfg, "dhcp_range   : "@);
    lemma_shown_values(cfg, "dhcp_lease   : "@);
    lemma_shown_values(cfg, "upstream     : "@);
    lemma_shown_values(cfg, "hidden       : "@);
    lemma_shown_values(cfg, "ieee80211n   : "@);
    lemma_shown_values(cfg, "ieee80211ac  : "@);
    lemma_shown_values(cfg, "country_code : "@);
}

/// `s` holds no line feed.
pub open spec fn one_line(s: Seq<char>) -> bool {
    !s.contains('\n')
}

/// The texts of the settings hold no line feeds.
pub open spec fn on_one_line(cfg: ConfigView) -> bool {
    &&& one_line(cfg.interface)
    &&& one_line(cfg.ssid)
    &&& one_line(text_or(cfg.passphrase, Seq::empty()))
    &&& one_line(cfg.gateway_text())
    &&& one_line(cfg.range().start)
    &&& one_line(cfg.range().end)
    &&& one_line(cfg.range().netmask)
    &&& one_line(cfg.dhcp_lease)
    &&& one_line(text_or(cfg.upstream, Seq::empty()))
    &&& one_line(cfg.country_code)
}

/// Two texts without line feeds, one behind the other.
proof fn lemma_one_line(a: Seq<char>, b: Seq<char>)
    requires
        one_line(a),
        one_line(b),
    ensures
        one_line(a + b),
{
    let s = a + b;
    if s.contains('\n') {
        let i = choose|i: int| 0 <= i < s.len() && s[i] == '\n';
        if i < a.len() {
            assert(a[i] == '\n');
        } else {
            assert(b[i - a.len()] == '\n');
        }
    }
}

/// A number in print holds no line feed.
proof fn lemma_decimal_one_line(n: nat)
    ensures
        one_line(decimal(n)),
{
    law_decimal_reads_back(n);
    let s = decimal(n);
    if s.contains('\n') {
        let i = choose|i: int| 0 <= i < s.len() && s[i] == '\n';
        assert(digit_value(s[i], 10) is Some);
    }
}

/// The fixed texts hold no line feeds.
proof fn lemma_fixed_one_line()
    ensures
        one_line("interface    : "@),
        one_line("ssid         : "@),
        one_line("passphrase   : "@),
        one_line("channel      : "@),
        one_line("hw_mode      : "@),
        one_line("network_class: "@),
        one_line("gateway      : "@),
        one_line("dhcp_range   : "@),
        one_line("dhcp_lease   : "@),
        one_line("upstream     : "@),
        one_line("hidden       : "@),
        one_line("ieee80211n   : "@),
        one_line("ieee80211ac  : "@),
        one_line("country_code : "@),
        one_line("<none — open>"@),
        one_line("<auto-detect>"@),
        one_line(" – "@),
        one_line(" / "@),
        one_line("A"@),
        one_line("B"@),
        one_line("C"@),
        one_line("a"@),
        one_line("b"@),
        one_line("g"@),
        one_line("true"@),
        one_line("false"@),
{
    assert(one_line("interface    : "@)) by {
        reveal_strlit("interface    : ");
    }
    assert(one_line("ssid         : "@)) by {
        reveal_strlit("ssid         : ");
    }
    assert(one_line("passphrase   : "@)) by {
        reveal_strlit("passphrase   : ");
    }
    assert(one_line("channel      : "@)) by {
        reveal_strlit("channel      : ");
    }
    assert(one_line("hw_mode      : "@)) by {
        reveal_strlit("hw_mode      : ");
    }
    assert(one_line("network_class: "@)) by {
        reveal_strlit("network_class: ");
    }
    assert(one_line("gateway      : "@)) by {
        reveal_strlit("gateway      : ");
    }
    assert(one_line("dhcp_range   : "@)) by {
        reveal_strlit("dhcp_range   : ");
    }
    assert(one_line("dhcp_lease   : "@)) by {
        reveal_strlit("dhcp_lease   : ");
    }
    assert(one_line("upstream     : "@)) by {
        reveal_strlit("upstream     : ");
    }
    assert(one_line("hidden       : "@)) by {
        reveal_strlit("hidden       : ");
    }
    assert(one_line("ieee80211n   : "@)) by {
        reveal_strlit("ieee80211n   : ");
    }
    assert(one_line("ieee80211ac  : "@)) by {
        reveal_strlit("ieee80211ac  : ");
    }
    assert(one_line("country_code : "@)) by {
        reveal_strlit("country_code : ");
    }
    assert(one_line("<none — open>"@)) by {
        reveal_strlit("<none — open>");
    }
    assert(one_line("<auto-detect>"@)) by {
        reveal_strlit("<auto-detect>");
    }
    assert(one_line(" – "@)) by {
        reveal_strlit(" – ");
    }
    assert(one_line(" / "@)) by {
        reveal_strlit(" / ");
    }
    assert(one_line("A"@)) by {
        reveal_strlit("A");
    }
    assert(one_line("B"@)) by {
        reveal_strlit("B");
    }
    assert(one_line("C"@)) by {
        reveal_strlit("C");
    }
    assert(one_line("a"@)) by {
        reveal_strlit("a");
    }
    assert(one_line("b"@)) by {
        reveal_strlit("b");
    }
    assert(one_line("g"@)) by {
        reveal_strlit("g");
    }
    assert(one_line("true"@)) by {
        reveal_strlit("true");
    }
    assert(one_line("false"@)) by {
        reveal_strlit("false");
    }
}

/// What is shown of settings without line feeds is read back line by line.
proof fn lemma_shown_lines_read_back(cfg: ConfigView)
    requires
        on_one_line(cfg),
    ensures
        split_on(unlines(shown_lines(cfg)), '\n') == shown_lines(cfg).push(Seq::empty()),
{
    let lines = shown_lines(cfg);
    lemma_fixed_one_line();
    lemma_decimal_one_line(cfg.channel as nat);
    let range = cfg.range();
    lemma_one_line(range.start, " – "@);
    lemma_one_line(range.start + " – "@, range.end);
    lemma_one_line(range.start + " – "@ + range.end, " / "@);
    lemma_one_line(range.start + " – "@ + range.end + " / "@, range.netmask);
    lemma_one_line("interface    : "@, cfg.interface);
    lemma_one_line("ssid         : "@, cfg.ssid);
    lemma_one_line("passphrase   : "@, text_or(cfg.passphrase, "<none — open>"@));
    lemma_one_line("channel      : "@, decimal(cfg.channel as nat));
    lemma_one_line("hw_mode      : "@, mode_letter(cfg.hw_mode));
    lemma_one_line("network_class: "@, class_name(cfg.network_class));
    lemma_one_line("gateway      : "@, cfg.gateway_text());
    lemma_one_line("dhcp_range   : "@, range_text(cfg.range()));
    lemma_one_line("dhcp_lease   : "@, cfg.dhcp_lease);
    lemma_one_line("upstream     : "@, text_or(cfg.upstream, "<auto-detect>"@));
    lemma_one_line("hidden       : "@, bool_name(cfg.hidden));
    lemma_one_line("ieee80211n   : "@, bool_name(cfg.ieee80211n));
    lemma_one_line("ieee80211ac  : "@, bool_name(cfg.ieee80211ac));
    lemma_one_line("country_code : "@, cfg.country_code);
    assert forall|i: int| 0 <= i < lines.len() implies !(#[trigger] lines[i]).contains('\n') by {
        assert(one_line(lines[i])) by {
            if i == 0 {
                assert(lines[0] == "interface    : "@ + cfg.interface);
            }
            if i == 1 {
                assert(lines[1] == "ssid         : "@ + cfg.ssid);
            }
            if i == 2 {
                let pass = text_or(cfg.passphrase, "<none — open>"@);
                assert(lines[2] == "passphrase   : "@ + pass);
            }
            if i == 3 {
                assert(lines[3] == "channel      : "@ + decimal(cfg.channel as nat));
            }
            if i == 4 {
                assert(lines[4] == "hw_mode      : "@ + mode_letter(cfg.hw_mode));
            }
            if i == 5 {
                assert(lines[5] == "network_class: "@ + class_name(cfg.network_class));
            }
            if i == 6 {
                assert(lines[6] == "gateway      : "@ + cfg.gateway_text());
            }
            if i == 7 {
                assert(lines[7] == "dhcp_range   : "@ + range_text(cfg.range()));
            }
            if i == 8 {
                assert(lines[8] == "dhcp_lease   : "@ + cfg.dhcp_lease);
            }
            if i == 9 {
                assert(lines[9] == "upstream     : "@ + text_or(cfg.upstream, "<auto-detect>"@));
            }
            if i == 10 {
                assert(lines[10] == "hidden       : "@ + bool_name(cfg.hidden));
            }
            if i == 11 {
                assert(lines[11] == "ieee80211n   : "@ + bool_name(cfg.ieee80211n));
            }
            if i == 12 {
                assert(lines[12] == "ieee80211ac  : "@ + bool_name(cfg.ieee80211ac));
            }
            if i == 13 {
                assert(lines[13] == "country_code : "@ + cfg.country_code);
            }
        }
    }
    lemma_split_unlines(lines);
}

/// A text up to its first blank, and what follows.
proof fn lemma_first_blank(a: Seq<char>, rest: Seq<char>, b: Seq<char>, other: Seq<char>)
    requires
        !a.contains(' '),
        !b.contains(' '),
        rest.len() > 0,
        other.len() > 0,
        rest[0] == ' ',
        other[0] == ' ',
        a + rest == b + other,
    ensures
        a == b,
        rest == other,
{
    let s = a + rest;
    let t = b + other;
    assert(s[a.len() as int] == ' ');
    assert(t[b.len() as int] == ' ');
    if a.len() < b.len() {
        assert(b[a.len() as int] == t[a.len() as int]);
        assert(b.contains(' '));
    }
    if b.len() < a.len() {
        assert(a[b.len() as int] == s[b.len() as int]);
        assert(a.contains(' '));
    }
    assert(a =~= s.take(a.len() as int));
    assert(b =~= t.take(b.len() as int));
    assert(rest =~= s.skip(a.len() as int));
    assert(other =~= t.skip(b.len() as int));
}

/// The addresses that are given out can be told by how they are shown, where
/// the first two hold no blank.
proof fn lemma_range_is_told(a: DhcpRangeView, b: DhcpRangeView)
    requires
        !a.start.contains(' '),
        !a.end.contains(' '),
        !b.start.contains(' '),
        !b.end.contains(' '),
        range_text(a) == range_text(b),
    ensures
        a == b,
{
    reveal_strlit(" – ");
    reveal_strlit(" / ");
    let a2 = " / "@ + a.netmask;
    let b2 = " / "@ + b.netmask;
    let a1 = " – "@ + (a.end + a2);
    let b1 = " – "@ + (b.end + b2);
    assert(range_text(a) =~= a.start + a1);
    assert(range_text(b) =~= b.start + b1);
    lemma_first_blank(a.start, a1, b.start, b1);
    assert(a1.skip(3) =~= a.end + a2);
    assert(b1.skip(3) =~= b.end + b2);
    lemma_first_blank(a.end, a2, b.end, b2);
    assert(a2.skip(3) =~= a.netmask);
    assert(b2.skip(3) =~= b.netmask);
}

/// What is shown tells settings apart: where it is the same text, and the texts
/// of the settings hold no line feeds, so are the settings, up to whether a
/// passphrase or an upstream is one that reads like the note on its absence;
/// gateway and addresses are those that result. The addresses are told where
/// they hold no blanks.
pub proof fn law_shown_text_tells_settings_apart(a: ConfigView, b: ConfigView)
    requires
        on_one_line(a),
        on_one_line(b),
        unlines(shown_lines(a)) == unlines(shown_lines(b)),
    ensures
        a.interface == b.interface,
        a.ssid == b.ssid,
        text_or(a.passphrase, "<none — open>"@) == text_or(b.passphrase, "<none — open>"@),
        a.channel == b.channel,
        a.hw_mode == b.hw_mode,
        a.network_class == b.network_class,
        a.gateway_text() == b.gateway_text(),
        a.dhcp_lease == b.dhcp_lease,
        text_or(a.upstream, "<auto-detect>"@) == text_or(b.upstream, "<auto-detect>"@),
        a.hidden == b.hidden,
        a.ieee80211n == b.ieee80211n,
        a.ieee80211ac == b.ieee80211ac,
        a.country_code == b.country_code,
        !a.range().start.contains(' ') && !a.range().end.contains(' ')
            && !b.range().start.contains(' ') && !b.range().end.contains(' ') ==> a.range()
            == b.range(),
{
    lemma_shown_lines_read_back(a);
    lemma_shown_lines_read_back(b);
    let lines = shown_lines(a);
    assert(lines =~= lines.push(Seq::empty()).drop_last());
    assert(shown_lines(b) =~= shown_lines(b).push(Seq::empty()).drop_last());
    assert(lines == shown_lines(b));
    lemma_label_numbers();
    law_decimal_reads_back(a.channel as nat);
    law_decimal_reads_back(b.channel as nat);
    law_mode_letter_reads_back(a.hw_mode);
    law_mode_letter_reads_back(b.hw_mode);
    lemma_shown_values(a, "interface    : "@);
    lemma_shown_values(b, "interface    : "@);
    lemma_shown_values(a, "ssid         : "@);
    lemma_shown_values(b, "ssid         : "@);
    lemma_shown_values(a, "passphrase   : "@);
    lemma_shown_values(b, "passphrase   : "@);
    lemma_shown_values(a, "channel      : "@);
    lemma_shown_values(b, "channel      : "@);
    lemma_shown_values(a, "hw_mode      : "@);
    lemma_shown_values(b, "hw_mode      : "@);
    lemma_shown_values(a, "network_class: "@);
    lemma_shown_values(b, "network_class: "@);
    lemma_shown_values(a, "gateway      : "@);
    lemma_shown_values(b, "gateway      : "@);
    lemma_shown_values(a, "dhcp_range   : "@);
    lemma_shown_values(b, "dhcp_range   : "@);
    lemma_shown_values(a, "dhcp_lease   : "@);
    lemma_shown_values(b, "dhcp_lease   : "@);
    lemma_shown_values(a, "upstream     : "@);
    lemma_shown_values(b, "upstream     : "@);
    lemma_shown_values(a, "hidden       : "@);
    lemma_shown_values(b, "hidden       : "@);
    lemma_shown_values(a, "ieee80211n   : "@);
    lemma_shown_values(b, "ieee80211n   : "@);
    lemma_shown_values(a, "ieee80211ac  : "@);
    lemma_shown_values(b, "ieee80211ac  : "@);
    lemma_shown_values(a, "country_code : "@);
    lemma_shown_values(b, "country_code : "@);
    assert(values_of(lines, "interface    : "@)[0] == a.interface);
    assert(values_of(lines, "interface    : "@)[0] == b.interface);
    assert(values_of(lines, "ssid         : "@)[0] == a.ssid);
    assert(values_of(lines, "ssid         : "@)[0] == b.ssid);
    assert(values_of(lines, "passphrase   : "@)[0] == text_or(a.passphrase, "<none — open>"@));
    assert(values_of(lines, "passphrase   : "@)[0] == text_or(b.passphrase, "<none — open>"@));
    assert(values_of(lines, "channel      : "@)[0] == decimal(a.channel as nat));
    assert(values_of(lines, "channel      : "@)[0] == decimal(b.channel as nat));
    assert(values_of(lines, "hw_mode      : "@)[0] == mode_letter(a.hw_mode));
    assert(values_of(lines, "hw_mode      : "@)[0] == mode_letter(b.hw_mode));
    assert(values_of(lines, "network_class: "@)[0] == class_name(a.network_class));
    assert(values_of(lines, "network_class: "@)[0] == class_name(b.network_class));
    assert(values_of(lines, "gateway      : "@)[0] == a.gateway_text());
    assert(values_of(lines, "gateway      : "@)[0] == b.gateway_text());
    assert(values_of(lines, "dhcp_range   : "@)[0] == range_text(a.range()));
    assert(values_of(lines, "dhcp_range   : "@)[0] == range_text(b.range()));
    assert(values_of(lines, "dhcp_lease   : "@)[0] == a.dhcp_lease);
    assert(values_of(lines, "dhcp_lease   : "@)[0] == b.dhcp_lease);
    assert(values_of(lines, "upstream     : "@)[0] == text_or(a.upstream, "<auto-detect>"@));
    assert(values_of(lines, "upstream     : "@)[0] == text_or(b.upstream, "<auto-detect>"@));
    assert(values_of(lines, "hidden       : "@)[0] == bool_name(a.hidden));
    assert(values_of(lines, "hidden       : "@)[0] == bool_name(b.hidden));
    assert(values_of(lines, "ieee80211n   : "@)[0] == bool_name(a.ieee80211n));
    assert(values_of(lines, "ieee80211n   : "@)[0] == bool_name(b.ieee80211n));
    assert(values_of(lines, "ieee80211ac  : "@)[0] == bool_name(a.ieee80211ac));
    assert(values_of(lines, "ieee80211ac  : "@)[0] == bool_name(b.ieee80211ac));
    assert(values_of(lines, "country_code : "@)[0] == a.country_code);
    assert(values_of(lines, "country_code : "@)[0] == b.country_code);
    assert({
        &&& a.hidden == b.hidden
        &&& a.ieee80211n == b.ieee80211n
        &&& a.ieee80211ac == b.ieee80211ac
    }) by {
        reveal_strlit("true");
        reveal_strlit("false");
        assert("true"@.len() == 4 && "false"@.len() == 5);
    }
    assert(a.network_class == b.network_class) by {
        reveal_strlit("A");
        reveal_strlit("B");
        reveal_strlit("C");
        assert("A"@[0] == 'A' && "B"@[0] == 'B' && "C"@[0] == 'C');
    }
    if !a.range().start.contains(' ') && !a.range().end.contains(' ')
        && !b.range().start.contains(' ') && !b.range().end.contains(' ') {
        lemma_range_is_told(a.range(), b.range());
    }
}

/// The configuration file to start from differs from the defaults in the
/// interface, the name and the passphrase alone.
pub proof fn law_starting_config_keeps_the_defaults()
    ensures
        ({
            let cfg = starting_config();
            &&& cfg.interface == "wlan0"@
            &&& cfg.ssid == "MyHotspot"@
            &&& cfg.passphrase is Some
            &&& cfg == (ConfigView {
                interface: cfg.interface,
                ssid: cfg.ssid,
                passphrase: cfg.passphrase,
                ..default_config()
            })
        }),
{
}

/// The configuration file to start from keeps to its own limits: a hotspot can
/// be started with its settings as they are.
pub proof fn law_starting_config_passes()
    ensures
        starting_config().fault() is None,
        checked(starting_config()) == Ok::<ConfigView, ConfigErrorView>(starting_config()),
{
    reveal_strlit("wlan0");
    reveal_strlit("MyHotspot");
    reveal_strlit("changeme");
}

fn class_text(class: NetworkClass) -> (res: &'static str)
    ensures
        res@ == class_name(class),
{
    match class {
        NetworkClass::A => "A",
        NetworkClass::B => "B",
        NetworkClass::C => "C",
    }
}

fn bool_text(b: bool) -> (res: &'static str)
    ensures
        res@ == bool_name(b),
{
    if b {
        "true"
    } else {
        "false"
    }
}

fn push_shown(lines: &mut Vec<String>, label: &str, value: &str)
    ensures
        texts(final(lines)@) == texts(old(lines)@).push(label@ + value@),
{
    broadcast use lemma_texts_push;

    lines.push(label.to_owned().concat(value));
}

/// What is shown of the settings that a hotspot runs with.
pub fn show_text(cfg: &Config) -> (res: String)
    ensures
        res@ == unlines(shown_lines(cfg@)),
{
    let gateway: String = cfg.resolved_gateway();
    let range: DhcpRange = cfg.resolved_dhcp_range();
    let addresses: String = range.start.clone().concat(" – ").concat(range.end.as_str()).concat(
        " / ",
    ).concat(range.netmask.as_str());
    let passphrase: &str = match &cfg.passphrase {
        Some(pw) => pw.as_str(),
        None => "<none — open>",
    };
    let upstream: &str = match &cfg.upstream {
        Some(u) => u.as_str(),
        None => "<auto-detect>",
    };
    let mut lines: Vec<String> = Vec::new();
    push_shown(&mut lines, "interface    : ", cfg.interface.as_str());
    push_shown(&mut lines, "ssid         : ", cfg.ssid.as_str());
    push_shown(&mut lines, "passphrase   : ", passphrase);
    push_shown(&mut lines, "channel      : ", decimal_text(cfg.channel as u32).as_str());
    push_shown(&mut lines, "hw_mode      : ", cfg.hw_mode.as_str());
    push_shown(&mut lines, "network_class: ", class_text(cfg.network_class));
    push_shown(&mut lines, "gateway      : ", gateway.as_str());
    push_shown(&mut lines, "dhcp_range   : ", addresses.as_str());
    push_shown(&mut lines, "dhcp_lease   : ", cfg.dhcp_lease.as_str());
    push_shown(&mut lines, "upstream     : ", upstream);
    push_shown(&mut lines, "hidden       : ", bool_text(cfg.hidden));
    push_shown(&mut lines, "ieee80211n   : ", bool_text(cfg.ieee80211n));
    push_shown(&mut lines, "ieee80211ac  : ", bool_text(cfg.ieee80211ac));
    push_shown(&mut lines, "country_code : ", cfg.country_code.as_str());
    assert(texts(lines@) =~= shown_lines(cfg@));
    join_lines(&lines)
}

/// Adds a line that gives a value between `head` and `tail`.
fn push_entry(lines: &mut Vec<String>, head: &str, value: &str, tail: &str)
    ensures
        texts(final(lines)@) == texts(old(lines)@).push(head@ + value@ + tail@),
{
    broadcast use lemma_texts_push;

    lines.push(head.to_owned().concat(value).concat(tail));
}

/// Adds a line.
fn push_plain(lines: &mut Vec<String>, line: &str)
    ensures
        texts(final(lines)@) == texts(old(lines)@).push(line@),
{
    broadcast use lemma_texts_push;

    lines.push(line.to_owned());
}

/// The settings of the configuration file to start from.
pub fn starting_settings() -> (res: Config)
    ensures
        res@ == starting_config(),
        res@.fault() is None,
{
    proof {
        law_starting_config_passes();
    }
    let base: Config = Config::default();
    Config {
        interface: "wlan0".to_owned(),
        ssid: "MyHotspot".to_owned(),
        passphrase: Some("changeme".to_owned()),
        channel: base.channel,
        hw_mode: base.hw_mode,
        network_class: base.network_class,
        gateway: base.gateway,
        dhcp_range: base.dhcp_range,
        dhcp_lease: base.dhcp_lease,
        upstream: base.upstream,
        hidden: base.hidden,
        ieee80211n: base.ieee80211n,
        ieee80211ac: base.ieee80211ac,
        country_code: base.country_code,
    }
}

/// The configuration file to start from.
pub fn default_config_text() -> (res: String)
    ensures
        res@ == unlines(starting_lines()),
{
    let cfg: Config = starting_settings();
    let gateway: String = cfg.resolved_gateway();
    let range: DhcpRange = cfg.resolved_dhcp_range();
    let channel: String = decimal_text(cfg.channel as u32);
    let passphrase: &str = match &cfg.passphrase {
        Some(pw) => pw.as_str(),
        None => "",
    };
    let mut lines: Vec<String> = Vec::new();
    push_entry(
        &mut lines,
        "interface = \"",
        cfg.interface.as_str(),
        "\"       # wireless AP interface — find yours with: iw dev",
    );
    push_entry(&mut lines, "ssid = \"", cfg.ssid.as_str(), "\"        # 1–32 characters");
    push_entry(
        &mut lines,
        "passphrase = \"",
        passphrase,
        "\"   # WPA2-PSK, 8–63 chars; omit for open network",
    );
    push_entry(
        &mut lines,
        "channel = ",
        channel.as_str(),
        "                 # 2.4 GHz: 1–13 | 5 GHz: 36 40 44 48 52 ...",
    );
    push_entry(
        &mut lines,
        "hw_mode = \"",
        cfg.hw_mode.as_str(),
        "\"             # b/g = 2.4 GHz, a = 5 GHz",
    );
    push_entry(
        &mut lines,
        "network_class = \"",
        cfg.network_class.letter(),
        "\"       # RFC 1918 defaults — a=10/8, b=172.16/12, c=192.168/24",
    );
    push_entry(&mut lines, "# gateway = \"", gateway.as_str(), "\"");
    push_plain(&mut lines, "# [dhcp_range]");
    push_entry(&mut lines, "# start   = \"", range.start.as_str(), "\"");
    push_entry(&mut lines, "# end     = \"", range.end.as_str(), "\"");
    push_entry(&mut lines, "# netmask = \"", range.netmask.as_str(), "\"");
    push_entry(
        &mut lines,
        "dhcp_lease = \"",
        cfg.dhcp_lease.as_str(),
        "\"        # suffixes: h m s",
    );
    push_plain(
        &mut lines,
        "# upstream = \"eth0\"       # interface for NAT/masquerade; auto-detected if omitted",
    );
    push_entry(
        &mut lines,
        "hidden = ",
        bool_text(cfg.hidden),
        "              # suppress SSID beacon",
    );
    push_entry(
        &mut lines,
        "ieee80211n = ",
        bool_text(cfg.ieee80211n),
        "           # HT, up to 300 Mbps",
    );
    push_entry(
        &mut lines,
        "ieee80211ac = ",
        bool_text(cfg.ieee80211ac),
        "         # VHT 5 GHz only; channel width auto-detected from driver",
    );
    push_entry(
        &mut lines,
        "country_code = \"",
        cfg.country_code.as_str(),
        "\"       # ISO 3166-1 alpha-2, controls legal channels/power",
    );
    assert(texts(lines@) =~= starting_lines());
    join_lines(&lines)
}

} // verus!
