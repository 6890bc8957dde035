//! The configuration file of `hostapd`, the order in which reduced ones are
//! tried, and what becomes of the lines that it prints.
use vstd::prelude::*;
use vstd::string::*;
use vstd::utf8::*;

use crate::config::{law_mode_letter_reads_back, mode_letter, mode_of, Config, ConfigView};
use crate::number::{decimal, decimal_text, law_decimal_reads_back, magnitude};
use crate::phy::{
    bonding_flags, center_channel, ht_40mhz_flags, ht_flags, no_caps, vht_center_freq_idx,
    vht_flags, width_number, PhyCaps, VhtWidth,
};
use crate::text::{
    contains, ends_in_first, join_lines, law_occurrence, lemma_texts_push, lemma_values_add,
    lemma_values_empty, lemma_values_marked, occurs_in, str_eq, texts, trim, trimmed, unlines,
    values_of,
};
use crate::unicode::{ascii_lower, lowercase, to_lowercase};

verus! {

broadcast use vstd::string::group_string_axioms;

/// How loud a line of `hostapd` is reported.
#[derive(Debug, Clone, Copy, PartialEq, Eq, Structural)]
pub enum Severity {
    Warn,
    Info,
    Debug,
}

/// What becomes of the output of `hostapd` at a line.
#[derive(Debug, Clone, Copy, PartialEq, Eq, Structural)]
pub enum LogStep {
    /// Report the line and read on.
    Report(Severity),
    /// Read no more.
    End,
}

/// One attempt to start `hostapd`: how much of the radio it may use, and the
/// configuration file for that.
pub struct Launch {
    pub level: &'static str,
    pub conf: String,
}

/// What became of an attempt to start `hostapd`.
#[derive(Debug, Clone, Copy, PartialEq, Eq, Structural)]
pub enum LaunchOutcome {
    /// It lived long enough.
    Alive,
    /// It exited, or cannot be asked after.
    Exited,
    /// Its configuration file could not be written, or it could not be run.
    NotStarted,
}

/// What follows an attempt to start `hostapd`.
#[derive(Debug, Clone, Copy, PartialEq, Eq, Structural)]
pub enum LaunchStep {
    /// Nothing: it is running.
    Running,
    /// The attempt at the level of this number.
    Try(usize),
    /// Nothing: it exited at every level.
    AllFailed,
    /// Nothing: it could not be started, and no other level is tried.
    Abort,
}

/// Why `hostapd` is not running.
#[derive(Debug, Clone)]
pub enum LaunchError {
    /// The configuration file for this level could not be written.
    Write(String),
    /// It could not be run.
    Spawn,
    /// It exited at every level.
    AllLevels,
}

/// What asking after a process that was just started gave.
#[derive(Debug, Clone, Copy, PartialEq, Eq, Structural)]
pub enum Poll {
    Exited,
    Running,
    Failed,
}

/// What to make of a process that was just started.
#[derive(Debug, Clone, Copy, PartialEq, Eq, Structural)]
pub enum Liveness {
    /// It lived long enough.
    Alive,
    /// It exited.
    Exited,
    /// It cannot be asked after.
    Unknown,
    /// Ask again after this many milliseconds.
    Pause(u64),
}

// ---------------------------------------------------------------------------
// Model
// ---------------------------------------------------------------------------

/// The lines that are in every configuration file.
pub open spec fn base_lines(cfg: ConfigView) -> Seq<Seq<char>> {
    seq![
        "interface="@ + cfg.interface,
        "ssid="@ + cfg.ssid,
        "channel="@ + decimal(cfg.channel as nat),
        "hw_mode="@ + mode_letter(cfg.hw_mode),
        "country_code="@ + cfg.country_code,
        "ignore_broadcast_ssid="@ + decimal(if cfg.hidden {
            1
        } else {
            0
        }),
        "driver=nl80211"@,
        "logger_syslog=-1"@,
        "logger_syslog_level=3"@,
        "logger_stdout=-1"@,
        "logger_stdout_level=0"@,
    ]
}

/// The lines that switch 802.11n on, with flags that are named.
pub open spec fn ht_lines(flags: Seq<char>) -> Seq<Seq<char>> {
    seq!["ieee80211n=1"@, "wmm_enabled=1"@, "ht_capab="@ + flags]
}

/// The lines on 802.11ac with all that the radio can do.
pub open spec fn full_vht_lines(cfg: ConfigView, caps: PhyCaps) -> Seq<Seq<char>> {
    let flags = vht_flags(caps.vht_caps);
    seq!["ieee80211ac=1"@] + (if flags.len() > 0 {
        seq!["vht_capab="@ + flags]
    } else {
        Seq::empty()
    }) + seq![
        "vht_oper_chwidth="@ + decimal(width_number(caps.max_vht_width) as nat),
        "vht_oper_centr_freq_seg0_idx="@ + decimal(
            center_channel(cfg.channel, caps.max_vht_width) as nat,
        ),
    ]
}

/// The lines on 802.11ac with what every radio can do.
pub open spec fn minimal_vht_lines(cfg: ConfigView) -> Seq<Seq<char>> {
    seq![
        "ieee80211ac=1"@,
        "vht_capab=[SHORT-GI-80]"@,
        "vht_oper_chwidth=1"@,
        "vht_oper_centr_freq_seg0_idx="@ + decimal(
            center_channel(cfg.channel, VhtWidth::W80) as nat,
        ),
    ]
}

/// The lines on 802.11n and 802.11ac for a level of capabilities.
pub open spec fn mode_lines(cfg: ConfigView, caps: PhyCaps, level: Seq<char>) -> Seq<Seq<char>> {
    let ht = cfg.ieee80211n || cfg.ieee80211ac;
    let vht = cfg.ieee80211ac && caps.has_vht;
    if level == "full"@ {
        (if ht {
            ht_lines(ht_flags(caps.ht_caps, cfg.channel))
        } else {
            Seq::empty()
        }) + (if vht {
            full_vht_lines(cfg, caps)
        } else {
            Seq::empty()
        })
    } else if level == "vht-minimal"@ {
        (if ht {
            ht_lines(bonding_flags(cfg.channel) + "[SHORT-GI-20][SHORT-GI-40]"@)
        } else {
            Seq::empty()
        }) + (if vht {
            minimal_vht_lines(cfg)
        } else {
            Seq::empty()
        })
    } else if level == "ht-only"@ {
        ht_lines(bonding_flags(cfg.channel) + "[SHORT-GI-20]"@)
    } else {
        seq!["ieee80211n=1"@, "wmm_enabled=1"@]
    }
}

/// The lines on who may join.
pub open spec fn auth_lines(cfg: ConfigView) -> Seq<Seq<char>> {
    match cfg.passphrase {
        Some(pw) => seq![
            "auth_algs=1"@,
            "wpa=2"@,
            "wpa_key_mgmt=WPA-PSK"@,
            "rsn_pairwise=CCMP"@,
            "wpa_passphrase="@ + pw,
        ],
        None => seq!["auth_algs=1"@],
    }
}

/// The lines of the configuration file.
pub open spec fn conf_lines(cfg: ConfigView, caps: PhyCaps, level: Seq<char>) -> Seq<Seq<char>> {
    base_lines(cfg) + mode_lines(cfg, caps, level) + auth_lines(cfg)
}

/// The levels of capabilities, from all to the least.
pub open spec fn levels() -> Seq<Seq<char>> {
    seq!["full"@, "vht-minimal"@, "ht-only"@, "bare"@]
}

#[verifier::ext_equal]
pub enum LaunchErrorView {
    Write(Seq<char>),
    Spawn,
    AllLevels,
}

impl View for LaunchError {
    type V = LaunchErrorView;

    open spec fn view(&self) -> LaunchErrorView {
        match self {
            LaunchError::Write(level) => LaunchErrorView::Write(level@),
            LaunchError::Spawn => LaunchErrorView::Spawn,
            LaunchError::AllLevels => LaunchErrorView::AllLevels,
        }
    }
}

/// What a fault is reported as.
pub open spec fn launch_fault_text(fault: LaunchErrorView) -> Seq<char> {
    match fault {
        LaunchErrorView::Write(level) => "writing hostapd.conf (level="@ + level + ")"@,
        LaunchErrorView::Spawn => "spawning hostapd"@,
        LaunchErrorView::AllLevels => "hostapd failed at all capability levels"@,
    }
}

/// What follows an attempt that was made after `failed` levels: the next level
/// only if `hostapd` exited, and if there is one.
pub open spec fn step_after(failed: nat, outcome: LaunchOutcome) -> LaunchStep {
    match outcome {
        LaunchOutcome::Alive => LaunchStep::Running,
        LaunchOutcome::NotStarted => LaunchStep::Abort,
        LaunchOutcome::Exited => if failed + 1 < levels().len() {
            LaunchStep::Try((failed + 1) as usize)
        } else {
            LaunchStep::AllFailed
        },
    }
}

/// The levels at which `hostapd` is tried, from the level of the number `from`
/// on, and what that comes to, where the attempt at the level of the number `i`
/// comes to `outcomes[i]`.
pub open spec fn attempts(outcomes: Seq<LaunchOutcome>, from: nat) -> (Seq<nat>, LaunchStep)
    decreases levels().len() - from,
{
    let next = step_after(from, outcomes[from as int]);
    if next is Try && from < levels().len() {
        let (rest, end) = attempts(outcomes, from + 1);
        (seq![from] + rest, end)
    } else {
        (seq![from], next)
    }
}

/// How loud a line is reported that is `lower` in lower case.
pub open spec fn severity_of(lower: Seq<char>) -> Severity {
    if occurs_in(lower, "error"@) || occurs_in(lower, "failed"@) || occurs_in(lower, "could not"@)
        || occurs_in(lower, "unable"@) || occurs_in(lower, "warning"@) || occurs_in(
        lower,
        "beacon"@,
    ) {
        Severity::Warn
    } else if occurs_in(lower, "enabled"@) || occurs_in(lower, "connected"@) || occurs_in(
        lower,
        "disconnected"@,
    ) || occurs_in(lower, "authenticated"@) || occurs_in(lower, "associated"@) || occurs_in(
        lower,
        "handshake"@,
    ) {
        Severity::Info
    } else {
        Severity::Debug
    }
}

// ---------------------------------------------------------------------------
// Laws
// ---------------------------------------------------------------------------

/// A network without a passphrase is open, one with a passphrase asks for it,
/// whatever the radio and the level.
pub proof fn law_passphrase_decides_security(cfg: ConfigView, caps: PhyCaps, level: Seq<char>)
    ensures
        ({
            let lines = conf_lines(cfg, caps, level);
            let n = lines.len() as int;
            &&& cfg.passphrase is None ==> lines == base_lines(cfg) + mode_lines(cfg, caps, level)
                + seq!["auth_algs=1"@]
            &&& cfg.passphrase matches Some(pw) ==> {
                &&& lines[n - 4] == "wpa=2"@
                &&& lines[n - 1] == "wpa_passphrase="@ + pw
            }
        }),
{
}

/// The last two levels ask nothing of the radio that was detected.
pub proof fn law_last_levels_ignore_radio(cfg: ConfigView, a: PhyCaps, b: PhyCaps)
    ensures
        conf_lines(cfg, a, levels()[2]) == conf_lines(cfg, b, levels()[2]),
        conf_lines(cfg, a, levels()[3]) == conf_lines(cfg, b, levels()[3]),
{
    lemma_levels_differ();
}

/// No two levels have the same name.
proof fn lemma_levels_differ()
    ensures
        forall|i: int, j: int| 0 <= i < j < 4 ==> levels()[i] != levels()[j],
{
    reveal_strlit("full");
    reveal_strlit("vht-minimal");
    reveal_strlit("ht-only");
    reveal_strlit("bare");
    assert("full"@[0] == 'f');
    assert("bare"@[0] == 'b');
    assert("ht-only"@.len() == 7);
    assert("vht-minimal"@.len() == 11);
    assert("full"@.len() == 4);
    assert("bare"@.len() == 4);
}

/// The number of a key of the configuration file, from 0 on; -1 for another
/// text.
#[verifier::opaque]
spec fn key_number(key: Seq<char>) -> int {
    if key == "interface="@ {
        0
    } else if key == "ssid="@ {
        1
    } else if key == "channel="@ {
        2
    } else if key == "hw_mode="@ {
        3
    } else if key == "country_code="@ {
        4
    } else if key == "ignore_broadcast_ssid="@ {
        5
    } else if key == "driver="@ {
        6
    } else if key == "logger_syslog="@ {
        7
    } else if key == "logger_syslog_level="@ {
        8
    } else if key == "logger_stdout="@ {
        9
    } else if key == "logger_stdout_level="@ {
        10
    } else if key == "ieee80211n="@ {
        11
    } else if key == "wmm_enabled="@ {
        12
    } else if key == "ht_capab="@ {
        13
    } else if key == "ieee80211ac="@ {
        14
    } else if key == "vht_capab="@ {
        15
    } else if key == "vht_oper_chwidth="@ {
        16
    } else if key == "vht_oper_centr_freq_seg0_idx="@ {
        17
    } else if key == "auth_algs="@ {
        18
    } else if key == "wpa="@ {
        19
    } else if key == "wpa_key_mgmt="@ {
        20
    } else if key == "rsn_pairwise="@ {
        21
    } else if key == "wpa_passphrase="@ {
        22
    } else {
        -1
    }
}

/// What tells keys of the same length apart, and where they end.
proof fn lemma_key_texts()
    ensures
        ends_in_first("interface="@, '='),
        "interface="@.len() == 10,
        "interface="@[0] == 'i',
        ends_in_first("ssid="@, '='),
        "ssid="@.len() == 5,
        ends_in_first("channel="@, '='),
        "channel="@.len() == 8,
        "channel="@[0] == 'c',
        ends_in_first("hw_mode="@, '='),
        "hw_mode="@.len() == 8,
        "hw_mode="@[0] == 'h',
        ends_in_first("country_code="@, '='),
        "country_code="@.len() == 13,
        "country_code="@[0] == 'c',
        ends_in_first("ignore_broadcast_ssid="@, '='),
        "ignore_broadcast_ssid="@.len() == 22,
        ends_in_first("driver="@, '='),
        "driver="@.len() == 7,
        ends_in_first("logger_syslog="@, '='),
        "logger_syslog="@.len() == 14,
        "logger_syslog="@[8] == 'y',
        ends_in_first("logger_syslog_level="@, '='),
        "logger_syslog_level="@.len() == 20,
        "logger_syslog_level="@[8] == 'y',
        ends_in_first("logger_stdout="@, '='),
        "logger_stdout="@.len() == 14,
        "logger_stdout="@[8] == 't',
        ends_in_first("logger_stdout_level="@, '='),
        "logger_stdout_level="@.len() == 20,
        "logger_stdout_level="@[8] == 't',
        ends_in_first("ieee80211n="@, '='),
        "ieee80211n="@.len() == 11,
        ends_in_first("wmm_enabled="@, '='),
        "wmm_enabled="@.len() == 12,
        "wmm_enabled="@[0] == 'w',
        ends_in_first("ht_capab="@, '='),
        "ht_capab="@.len() == 9,
        ends_in_first("ieee80211ac="@, '='),
        "ieee80211ac="@.len() == 12,
        "ieee80211ac="@[0] == 'i',
        ends_in_first("vht_capab="@, '='),
        "vht_capab="@.len() == 10,
        "vht_capab="@[0] == 'v',
        ends_in_first("vht_oper_chwidth="@, '='),
        "vht_oper_chwidth="@.len() == 17,
        ends_in_first("vht_oper_centr_freq_seg0_idx="@, '='),
        "vht_oper_centr_freq_seg0_idx="@.len() == 29,
        ends_in_first("auth_algs="@, '='),
        "auth_algs="@.len() == 10,
        "auth_algs="@[0] == 'a',
        ends_in_first("wpa="@, '='),
        "wpa="@.len() == 4,
        ends_in_first("wpa_key_mgmt="@, '='),
        "wpa_key_mgmt="@.len() == 13,
        "wpa_key_mgmt="@[0] == 'w',
        ends_in_first("rsn_pairwise="@, '='),
        "rsn_pairwise="@.len() == 13,
        "rsn_pairwise="@[0] == 'r',
        ends_in_first("wpa_passphrase="@, '='),
        "wpa_passphrase="@.len() == 15,
{
    assert({
        &&& ends_in_first("interface="@, '=')
        &&& "interface="@.len() == 10
        &&& "interface="@[0] == 'i'
    }) by {
        reveal_strlit("interface=");
        reveal(ends_in_first);
    }
    assert({
        &&& ends_in_first("ssid="@, '=')
        &&& "ssid="@.len() == 5
    }) by {
        reveal_strlit("ssid=");
        reveal(ends_in_first);
    }
    assert({
        &&& ends_in_first("channel="@, '=')
        &&& "channel="@.len() == 8
        &&& "channel="@[0] == 'c'
    }) by {
        reveal_strlit("channel=");
        reveal(ends_in_first);
    }
    assert({
        &&& ends_in_first("hw_mode="@, '=')
        &&& "hw_mode="@.len() == 8
        &&& "hw_mode="@[0] == 'h'
    }) by {
        reveal_strlit("hw_mode=");
        reveal(ends_in_first);
    }
    assert({
        &&& ends_in_first("country_code="@, '=')
        &&& "country_code="@.len() == 13
        &&& "country_code="@[0] == 'c'
    }) by {
        reveal_strlit("country_code=");
        reveal(ends_in_first);
    }
    assert({
        &&& ends_in_first("ignore_broadcast_ssid="@, '=')
        &&& "ignore_broadcast_ssid="@.len() == 22
    }) by {
        reveal_strlit("ignore_broadcast_ssid=");
        reveal(ends_in_first);
    }
    assert({
        &&& ends_in_first("driver="@, '=')
        &&& "driver="@.len() == 7
    }) by {
        reveal_strlit("driver=");
        reveal(ends_in_first);
    }
    assert({
        &&& ends_in_first("logger_syslog="@, '=')
        &&& "logger_syslog="@.len() == 14
        &&& "logger_syslog="@[8] == 'y'
    }) by {
        reveal_strlit("logger_syslog=");
        reveal(ends_in_first);
    }
    assert({
        &&& ends_in_first("logger_syslog_level="@, '=')
        &&& "logger_syslog_level="@.len() == 20
        &&& "logger_syslog_level="@[8] == 'y'
    }) by {
        reveal_strlit("logger_syslog_level=");
        reveal(ends_in_first);
    }
    assert({
        &&& ends_in_first("logger_stdout="@, '=')
        &&& "logger_stdout="@.len() == 14
        &&& "logger_stdout="@[8] == 't'
    }) by {
        reveal_strlit("logger_stdout=");
        reveal(ends_in_first);
    }
    assert({
        &&& ends_in_first("logger_stdout_level="@, '=')
        &&& "logger_stdout_level="@.len() == 20
        &&& "logger_stdout_level="@[8] == 't'
    }) by {
        reveal_strlit("logger_stdout_level=");
        reveal(ends_in_first);
    }
    assert({
        &&& ends_in_first("ieee80211n="@, '=')
        &&& "ieee80211n="@.len() == 11
    }) by {
        reveal_strlit("ieee80211n=");
        reveal(ends_in_first);
    }
    assert({
        &&& ends_in_first("wmm_enabled="@, '=')
        &&& "wmm_enabled="@.len() == 12
        &&& "wmm_enabled="@[0] == 'w'
    }) by {
        reveal_strlit("wmm_enabled=");
        reveal(ends_in_first);
    }
    assert({
        &&& ends_in_first("ht_capab="@, '=')
        &&& "ht_capab="@.len() == 9
    }) by {
        reveal_strlit("ht_capab=");
        reveal(ends_in_first);
    }
    assert({
        &&& ends_in_first("ieee80211ac="@, '=')
        &&& "ieee80211ac="@.len() == 12
        &&& "ieee80211ac="@[0] == 'i'
    }) by {
        reveal_strlit("ieee80211ac=");
        reveal(ends_in_first);
    }
    assert({
        &&& ends_in_first("vht_capab="@, '=')
        &&& "vht_capab="@.len() == 10
        &&& "vht_capab="@[0] == 'v'
    }) by {
        reveal_strlit("vht_capab=");
        reveal(ends_in_first);
    }
    assert({
        &&& ends_in_first("vht_oper_chwidth="@, '=')
        &&& "vht_oper_chwidth="@.len() == 17
    }) by {
        reveal_strlit("vht_oper_chwidth=");
        reveal(ends_in_first);
    }
    assert({
        &&& ends_in_first("vht_oper_centr_freq_seg0_idx="@, '=')
        &&& "vht_oper_centr_freq_seg0_idx="@.len() == 29
    }) by {
        reveal_strlit("vht_oper_centr_freq_seg0_idx=");
        reveal(ends_in_first);
    }
    assert({
        &&& ends_in_first("auth_algs="@, '=')
        &&& "auth_algs="@.len() == 10
        &&& "auth_algs="@[0] == 'a'
    }) by {
        reveal_strlit("auth_algs=");
        reveal(ends_in_first);
    }
    assert({
        &&& ends_in_first("wpa="@, '=')
        &&& "wpa="@.len() == 4
    }) by {
        reveal_strlit("wpa=");
        reveal(ends_in_first);
    }
    assert({
        &&& ends_in_first("wpa_key_mgmt="@, '=')
        &&& "wpa_key_mgmt="@.len() == 13
        &&& "wpa_key_mgmt="@[0] == 'w'
    }) by {
        reveal_strlit("wpa_key_mgmt=");
        reveal(ends_in_first);
    }
    assert({
        &&& ends_in_first("rsn_pairwise="@, '=')
        &&& "rsn_pairwise="@.len() == 13
        &&& "rsn_pairwise="@[0] == 'r'
    }) by {
        reveal_strlit("rsn_pairwise=");
        reveal(ends_in_first);
    }
    assert({
        &&& ends_in_first("wpa_passphrase="@, '=')
        &&& "wpa_passphrase="@.len() == 15
    }) by {
        reveal_strlit("wpa_passphrase=");
        reveal(ends_in_first);
    }
}

/// The keys have different numbers.
proof fn lemma_key_numbers()
    ensures
        key_number("interface="@) == 0,
        key_number("ssid="@) == 1,
        key_number("channel="@) == 2,
        key_number("hw_mode="@) == 3,
        key_number("country_code="@) == 4,
        key_number("ignore_broadcast_ssid="@) == 5,
        key_number("driver="@) == 6,
        key_number("logger_syslog="@) == 7,
        key_number("logger_syslog_level="@) == 8,
        key_number("logger_stdout="@) == 9,
        key_number("logger_stdout_level="@) == 10,
        key_number("ieee80211n="@) == 11,
        key_number("wmm_enabled="@) == 12,
        key_number("ht_capab="@) == 13,
        key_number("ieee80211ac="@) == 14,
        key_number("vht_capab="@) == 15,
        key_number("vht_oper_chwidth="@) == 16,
        key_number("vht_oper_centr_freq_seg0_idx="@) == 17,
        key_number("auth_algs="@) == 18,
        key_number("wpa="@) == 19,
        key_number("wpa_key_mgmt="@) == 20,
        key_number("rsn_pairwise="@) == 21,
        key_number("wpa_passphrase="@) == 22,
{
    lemma_key_texts();
    reveal(key_number);
}

/// A line more in a configuration file: its value counts for its key alone.
proof fn lemma_setting(lines: Seq<Seq<char>>, key: Seq<char>, value: Seq<char>, other: Seq<char>)
    requires
        key_number(key) >= 0,
        key_number(other) >= 0,
    ensures
        values_of(lines.push(key + value), other) == if key_number(key) == key_number(other) {
            values_of(lines, other).push(value)
        } else {
            values_of(lines, other)
        },
{
    lemma_key_texts();
    lemma_key_numbers();
    reveal(key_number);
    lemma_values_marked(lines, key, value, other, '=');
}

/// The lines that are always the same, by key and value.
proof fn lemma_fixed_lines()
    ensures
        "driver=nl80211"@ == "driver="@ + "nl80211"@,
        "logger_syslog=-1"@ == "logger_syslog="@ + "-1"@,
        "logger_syslog_level=3"@ == "logger_syslog_level="@ + "3"@,
        "logger_stdout=-1"@ == "logger_stdout="@ + "-1"@,
        "logger_stdout_level=0"@ == "logger_stdout_level="@ + "0"@,
        "ieee80211n=1"@ == "ieee80211n="@ + "1"@,
        "wmm_enabled=1"@ == "wmm_enabled="@ + "1"@,
        "ieee80211ac=1"@ == "ieee80211ac="@ + "1"@,
        "vht_capab=[SHORT-GI-80]"@ == "vht_capab="@ + "[SHORT-GI-80]"@,
        "vht_oper_chwidth=1"@ == "vht_oper_chwidth="@ + "1"@,
        "auth_algs=1"@ == "auth_algs="@ + "1"@,
        "wpa=2"@ == "wpa="@ + "2"@,
        "wpa_key_mgmt=WPA-PSK"@ == "wpa_key_mgmt="@ + "WPA-PSK"@,
        "rsn_pairwise=CCMP"@ == "rsn_pairwise="@ + "CCMP"@,
{
    assert("driver=nl80211"@ == "driver="@ + "nl80211"@) by {
        reveal_strlit("driver=nl80211");
        reveal_strlit("driver=");
        reveal_strlit("nl80211");
        assert("driver=nl80211"@ =~= "driver="@ + "nl80211"@);
    }
    assert("logger_syslog=-1"@ == "logger_syslog="@ + "-1"@) by {
        reveal_strlit("logger_syslog=-1");
        reveal_strlit("logger_syslog=");
        reveal_strlit("-1");
        assert("logger_syslog=-1"@ =~= "logger_syslog="@ + "-1"@);
    }
    assert("logger_syslog_level=3"@ == "logger_syslog_level="@ + "3"@) by {
        reveal_strlit("logger_syslog_level=3");
        reveal_strlit("logger_syslog_level=");
        reveal_strlit("3");
        assert("logger_syslog_level=3"@ =~= "logger_syslog_level="@ + "3"@);
    }
    assert("logger_stdout=-1"@ == "logger_stdout="@ + "-1"@) by {
        reveal_strlit("logger_stdout=-1");
        reveal_strlit("logger_stdout=");
        reveal_strlit("-1");
        assert("logger_stdout=-1"@ =~= "logger_stdout="@ + "-1"@);
    }
    assert("logger_stdout_level=0"@ == "logger_stdout_level="@ + "0"@) by {
        reveal_strlit("logger_stdout_level=0");
        reveal_strlit("logger_stdout_level=");
        reveal_strlit("0");
        assert("logger_stdout_level=0"@ =~= "logger_stdout_level="@ + "0"@);
    }
    assert("ieee80211n=1"@ == "ieee80211n="@ + "1"@) by {
        reveal_strlit("ieee80211n=1");
        reveal_strlit("ieee80211n=");
        reveal_strlit("1");
        assert("ieee80211n=1"@ =~= "ieee80211n="@ + "1"@);
    }
    assert("wmm_enabled=1"@ == "wmm_enabled="@ + "1"@) by {
        reveal_strlit("wmm_enabled=1");
        reveal_strlit("wmm_enabled=");
        reveal_strlit("1");
        assert("wmm_enabled=1"@ =~= "wmm_enabled="@ + "1"@);
    }
    assert("ieee80211ac=1"@ == "ieee80211ac="@ + "1"@) by {
        reveal_strlit("ieee80211ac=1");
        reveal_strlit("ieee80211ac=");
        reveal_strlit("1");
        assert("ieee80211ac=1"@ =~= "ieee80211ac="@ + "1"@);
    }
    assert("vht_capab=[SHORT-GI-80]"@ == "vht_capab="@ + "[SHORT-GI-80]"@) by {
        reveal_strlit("vht_capab=[SHORT-GI-80]");
        reveal_strlit("vht_capab=");
        reveal_strlit("[SHORT-GI-80]");
        assert("vht_capab=[SHORT-GI-80]"@ =~= "vht_capab="@ + "[SHORT-GI-80]"@);
    }
    assert("vht_oper_chwidth=1"@ == "vht_oper_chwidth="@ + "1"@) by {
        reveal_strlit("vht_oper_chwidth=1");
        reveal_strlit("vht_oper_chwidth=");
        reveal_strlit("1");
        assert("vht_oper_chwidth=1"@ =~= "vht_oper_chwidth="@ + "1"@);
    }
    assert("auth_algs=1"@ == "auth_algs="@ + "1"@) by {
        reveal_strlit("auth_algs=1");
        reveal_strlit("auth_algs=");
        reveal_strlit("1");
        assert("auth_algs=1"@ =~= "auth_algs="@ + "1"@);
    }
    assert("wpa=2"@ == "wpa="@ + "2"@) by {
        reveal_strlit("wpa=2");
        reveal_strlit("wpa=");
        reveal_strlit("2");
        assert("wpa=2"@ =~= "wpa="@ + "2"@);
    }
    assert("wpa_key_mgmt=WPA-PSK"@ == "wpa_key_mgmt="@ + "WPA-PSK"@) by {
        reveal_strlit("wpa_key_mgmt=WPA-PSK");
        reveal_strlit("wpa_key_mgmt=");
        reveal_strlit("WPA-PSK");
        assert("wpa_key_mgmt=WPA-PSK"@ =~= "wpa_key_mgmt="@ + "WPA-PSK"@);
    }
    assert("rsn_pairwise=CCMP"@ == "rsn_pairwise="@ + "CCMP"@) by {
        reveal_strlit("rsn_pairwise=CCMP");
        reveal_strlit("rsn_pairwise=");
        reveal_strlit("CCMP");
        assert("rsn_pairwise=CCMP"@ =~= "rsn_pairwise="@ + "CCMP"@);
    }
}

/// A setting that is on or off, as a digit.
spec fn hidden_text(hidden: bool) -> Seq<char> {
    decimal(
        if hidden {
            1
        } else {
            0
        },
    )
}

/// What the lines that are in every configuration file say.
proof fn lemma_base_values(cfg: ConfigView, key: Seq<char>)
    requires
        key_number(key) >= 0,
    ensures
        key_number(key) == 0 ==> values_of(base_lines(cfg), key) == seq![cfg.interface],
        key_number(key) == 1 ==> values_of(base_lines(cfg), key) == seq![cfg.ssid],
        key_number(key) == 2 ==> values_of(base_lines(cfg), key) == seq![
            decimal(cfg.channel as nat),
        ],
        key_number(key) == 3 ==> values_of(base_lines(cfg), key) == seq![mode_letter(cfg.hw_mode)],
        key_number(key) == 4 ==> values_of(base_lines(cfg), key) == seq![cfg.country_code],
        key_number(key) == 5 ==> values_of(base_lines(cfg), key) == seq![hidden_text(cfg.hidden)],
        key_number(key) == 6 ==> values_of(base_lines(cfg), key) == seq!["nl80211"@],
        key_number(key) == 7 ==> values_of(base_lines(cfg), key) == seq!["-1"@],
        key_number(key) == 8 ==> values_of(base_lines(cfg), key) == seq!["3"@],
        key_number(key) == 9 ==> values_of(base_lines(cfg), key) == seq!["-1"@],
        key_number(key) == 10 ==> values_of(base_lines(cfg), key) == seq!["0"@],
        key_number(key) > 10 ==> values_of(base_lines(cfg), key) == Seq::<Seq<char>>::empty(),
{
    lemma_key_numbers();
    lemma_fixed_lines();
    let l0 = Seq::<Seq<char>>::empty();
    lemma_values_empty(key);
    lemma_setting(l0, "interface="@, cfg.interface, key);
    let l1 = l0.push("interface="@ + cfg.interface);
    lemma_setting(l1, "ssid="@, cfg.ssid, key);
    let l2 = l1.push("ssid="@ + cfg.ssid);
    lemma_setting(l2, "channel="@, decimal(cfg.channel as nat), key);
    let l3 = l2.push("channel="@ + decimal(cfg.channel as nat));
    lemma_setting(l3, "hw_mode="@, mode_letter(cfg.hw_mode), key);
    let l4 = l3.push("hw_mode="@ + mode_letter(cfg.hw_mode));
    lemma_setting(l4, "country_code="@, cfg.country_code, key);
    let l5 = l4.push("country_code="@ + cfg.country_code);
    lemma_setting(l5, "ignore_broadcast_ssid="@, hidden_text(cfg.hidden), key);
    let l6 = l5.push("ignore_broadcast_ssid="@ + hidden_text(cfg.hidden));
    lemma_setting(l6, "driver="@, "nl80211"@, key);
    let l7 = l6.push("driver="@ + "nl80211"@);
    lemma_setting(l7, "logger_syslog="@, "-1"@, key);
    let l8 = l7.push("logger_syslog="@ + "-1"@);
    lemma_setting(l8, "logger_syslog_level="@, "3"@, key);
    let l9 = l8.push("logger_syslog_level="@ + "3"@);
    lemma_setting(l9, "logger_stdout="@, "-1"@, key);
    let l10 = l9.push("logger_stdout="@ + "-1"@);
    lemma_setting(l10, "logger_stdout_level="@, "0"@, key);
    let l11 = l10.push("logger_stdout_level="@ + "0"@);
    assert(base_lines(cfg) == l11);
}

/// What the lines on 802.11n say.
proof fn lemma_ht_values(flags: Seq<char>, key: Seq<char>)
    requires
        key_number(key) >= 0,
    ensures
        key_number(key) == 11 ==> values_of(ht_lines(flags), key) == seq!["1"@],
        key_number(key) == 12 ==> values_of(ht_lines(flags), key) == seq!["1"@],
        key_number(key) == 13 ==> values_of(ht_lines(flags), key) == seq![flags],
        !(11 <= key_number(key) <= 13) ==> values_of(ht_lines(flags), key)
            == Seq::<Seq<char>>::empty(),
{
    lemma_key_numbers();
    lemma_fixed_lines();
    let l0 = Seq::<Seq<char>>::empty();
    lemma_values_empty(key);
    lemma_setting(l0, "ieee80211n="@, "1"@, key);
    let l1 = l0.push("ieee80211n="@ + "1"@);
    lemma_setting(l1, "wmm_enabled="@, "1"@, key);
    let l2 = l1.push("wmm_enabled="@ + "1"@);
    lemma_setting(l2, "ht_capab="@, flags, key);
    let l3 = l2.push("ht_capab="@ + flags);
    assert(ht_lines(flags) == l3);
}

/// What the lines on 802.11n without flags say.
proof fn lemma_bare_values(key: Seq<char>)
    requires
        key_number(key) >= 0,
    ensures
        values_of(seq!["ieee80211n=1"@, "wmm_enabled=1"@], key) == if key_number(key) == 11
            || key_number(key) == 12 {
            seq!["1"@]
        } else {
            Seq::empty()
        },
{
    lemma_key_numbers();
    lemma_fixed_lines();
    let l0 = Seq::<Seq<char>>::empty();
    lemma_values_empty(key);
    lemma_setting(l0, "ieee80211n="@, "1"@, key);
    let l1 = l0.push("ieee80211n="@ + "1"@);
    lemma_setting(l1, "wmm_enabled="@, "1"@, key);
    let l2 = l1.push("wmm_enabled="@ + "1"@);
    assert(seq!["ieee80211n=1"@, "wmm_enabled=1"@] == l2);
}

/// What the lines on 802.11ac say that every radio can do.
proof fn lemma_minimal_vht_values(cfg: ConfigView, key: Seq<char>)
    requires
        key_number(key) >= 0,
    ensures
        key_number(key) == 14 ==> values_of(minimal_vht_lines(cfg), key) == seq!["1"@],
        key_number(key) == 15 ==> values_of(minimal_vht_lines(cfg), key) == seq!["[SHORT-GI-80]"@],
        key_number(key) == 16 ==> values_of(minimal_vht_lines(cfg), key) == seq!["1"@],
        key_number(key) == 17 ==> values_of(minimal_vht_lines(cfg), key) == seq![
            decimal(center_channel(cfg.channel, VhtWidth::W80) as nat),
        ],
        !(14 <= key_number(key) <= 17) ==> values_of(minimal_vht_lines(cfg), key)
            == Seq::<Seq<char>>::empty(),
{
    lemma_key_numbers();
    lemma_fixed_lines();
    let l0 = Seq::<Seq<char>>::empty();
    lemma_values_empty(key);
    lemma_setting(l0, "ieee80211ac="@, "1"@, key);
    let l1 = l0.push("ieee80211ac="@ + "1"@);
    lemma_setting(l1, "vht_capab="@, "[SHORT-GI-80]"@, key);
    let l2 = l1.push("vht_capab="@ + "[SHORT-GI-80]"@);
    lemma_setting(l2, "vht_oper_chwidth="@, "1"@, key);
    let l3 = l2.push("vht_oper_chwidth="@ + "1"@);
    let middle = decimal(center_channel(cfg.channel, VhtWidth::W80) as nat);
    lemma_setting(l3, "vht_oper_centr_freq_seg0_idx="@, middle, key);
    let l4 = l3.push("vht_oper_centr_freq_seg0_idx="@ + middle);
    assert(minimal_vht_lines(cfg) == l4);
}

/// What the lines on 802.11ac say with all that the radio can do.
proof fn lemma_full_vht_values(cfg: ConfigView, caps: PhyCaps, key: Seq<char>)
    requires
        key_number(key) >= 0,
    ensures
        ({
            let flags = vht_flags(caps.vht_caps);
            let got = values_of(full_vht_lines(cfg, caps), key);
            let n = key_number(key);
            &&& n == 14 ==> got == seq!["1"@]
            &&& n == 15 && flags.len() > 0 ==> got == seq![flags]
            &&& n == 16 ==> got == seq![decimal(width_number(caps.max_vht_width) as nat)]
            &&& n == 17 ==> got == seq![
                decimal(center_channel(cfg.channel, caps.max_vht_width) as nat),
            ]
            &&& (n == 15 && flags.len() == 0) || (n != 14 && n != 15 && n != 16 && n != 17) ==> got
                == Seq::<Seq<char>>::empty()
        }),
{
    lemma_key_numbers();
    lemma_fixed_lines();
    lemma_values_empty(key);
    let flags = vht_flags(caps.vht_caps);
    let width = decimal(width_number(caps.max_vht_width) as nat);
    let middle = decimal(center_channel(cfg.channel, caps.max_vht_width) as nat);
    let l0 = Seq::<Seq<char>>::empty();
    lemma_setting(l0, "ieee80211ac="@, "1"@, key);
    let l1 = l0.push("ieee80211ac="@ + "1"@);
    lemma_setting(l1, "vht_capab="@, flags, key);
    let l2 = if flags.len() > 0 {
        l1.push("vht_capab="@ + flags)
    } else {
        l1
    };
    lemma_setting(l2, "vht_oper_chwidth="@, width, key);
    let l3 = l2.push("vht_oper_chwidth="@ + width);
    lemma_setting(l3, "vht_oper_centr_freq_seg0_idx="@, middle, key);
    let l4 = l3.push("vht_oper_centr_freq_seg0_idx="@ + middle);
    assert(full_vht_lines(cfg, caps) =~= l4);
}

/// What the lines on who may join say.
proof fn lemma_auth_values(cfg: ConfigView, key: Seq<char>)
    requires
        key_number(key) >= 0,
    ensures
        ({
            let got = values_of(auth_lines(cfg), key);
            let n = key_number(key);
            &&& n == 18 ==> got == seq!["1"@]
            &&& n == 19 && cfg.passphrase is Some ==> got == seq!["2"@]
            &&& n == 20 && cfg.passphrase is Some ==> got == seq!["WPA-PSK"@]
            &&& n == 21 && cfg.passphrase is Some ==> got == seq!["CCMP"@]
            &&& n == 22 && cfg.passphrase is Some ==> got == seq![cfg.passphrase->0]
            &&& n < 18 || (n > 18 && cfg.passphrase is None) ==> got == Seq::<Seq<char>>::empty()
        }),
{
    lemma_key_numbers();
    lemma_fixed_lines();
    lemma_values_empty(key);
    assert(key_number(key) <= 22) by {
        reveal(key_number);
    }
    let l0 = Seq::<Seq<char>>::empty();
    lemma_setting(l0, "auth_algs="@, "1"@, key);
    let l1 = l0.push("auth_algs="@ + "1"@);
    match cfg.passphrase {
        Some(pw) => {
            lemma_setting(l1, "wpa="@, "2"@, key);
            let l2 = l1.push("wpa="@ + "2"@);
            lemma_setting(l2, "wpa_key_mgmt="@, "WPA-PSK"@, key);
            let l3 = l2.push("wpa_key_mgmt="@ + "WPA-PSK"@);
            lemma_setting(l3, "rsn_pairwise="@, "CCMP"@, key);
            let l4 = l3.push("rsn_pairwise="@ + "CCMP"@);
            lemma_setting(l4, "wpa_passphrase="@, pw, key);
            let l5 = l4.push("wpa_passphrase="@ + pw);
            assert(auth_lines(cfg) == l5);
        },
        None => {
            assert(auth_lines(cfg) == l1);
        },
    }
}

/// What the lines on 802.11n and 802.11ac say, put together of their parts.
proof fn lemma_mode_values(cfg: ConfigView, caps: PhyCaps, level: Seq<char>, key: Seq<char>)
    requires
        key_number(key) >= 0,
    ensures
        ({
            let got = values_of(mode_lines(cfg, caps, level), key);
            let n = key_number(key);
            let none = Seq::<Seq<char>>::empty();
            let full = level == "full"@;
            let minimal = level == "vht-minimal"@;
            let only = level == "ht-only"@;
            let ht = !(full || minimal) || cfg.ieee80211n || cfg.ieee80211ac;
            let vht = (full || minimal) && cfg.ieee80211ac && caps.has_vht;
            let short = bonding_flags(cfg.channel);
            let width = if full {
                caps.max_vht_width
            } else {
                VhtWidth::W80
            };
            &&& n == 11 || n == 12 ==> got == if ht {
                seq!["1"@]
            } else {
                none
            }
            &&& n == 13 ==> got == if !ht {
                none
            } else if full {
                seq![ht_flags(caps.ht_caps, cfg.channel)]
            } else if minimal {
                seq![short + "[SHORT-GI-20][SHORT-GI-40]"@]
            } else if only {
                seq![short + "[SHORT-GI-20]"@]
            } else {
                none
            }
            &&& n == 14 ==> got == if vht {
                seq!["1"@]
            } else {
                none
            }
            &&& n == 15 ==> got == if !vht {
                none
            } else if minimal {
                seq!["[SHORT-GI-80]"@]
            } else if vht_flags(caps.vht_caps).len() > 0 {
                seq![vht_flags(caps.vht_caps)]
            } else {
                none
            }
            &&& n == 16 ==> got == if vht {
                seq![decimal(width_number(width) as nat)]
            } else {
                none
            }
            &&& n == 17 ==> got == if vht {
                seq![decimal(center_channel(cfg.channel, width) as nat)]
            } else {
                none
            }
            &&& n < 11 || n > 17 ==> got == none
        }),
{
    let none = Seq::<Seq<char>>::empty();
    let full = level == "full"@;
    let minimal = level == "vht-minimal"@;
    let short = bonding_flags(cfg.channel);
    let ht = cfg.ieee80211n || cfg.ieee80211ac;
    let vht = cfg.ieee80211ac && caps.has_vht;
    lemma_values_empty(key);
    lemma_levels_differ();
    assert(levels()[0] == "full"@ && levels()[1] == "vht-minimal"@ && levels()[2] == "ht-only"@);
    if full || minimal {
        let flags = if full {
            ht_flags(caps.ht_caps, cfg.channel)
        } else {
            short + "[SHORT-GI-20][SHORT-GI-40]"@
        };
        let a = if ht {
            ht_lines(flags)
        } else {
            none
        };
        let b = if !vht {
            none
        } else if full {
            full_vht_lines(cfg, caps)
        } else {
            minimal_vht_lines(cfg)
        };
        lemma_ht_values(flags, key);
        lemma_full_vht_values(cfg, caps, key);
        lemma_minimal_vht_values(cfg, key);
        lemma_one();
        lemma_values_add(a, b, key);
        assert(mode_lines(cfg, caps, level) == a + b);
        assert(none + values_of(b, key) =~= values_of(b, key));
        assert(values_of(a, key) + none =~= values_of(a, key));
    } else {
        lemma_ht_values(short + "[SHORT-GI-20]"@, key);
        lemma_bare_values(key);
    }
}

/// The number one, in print.
proof fn lemma_one()
    ensures
        decimal(1) == "1"@,
        decimal(0) == "0"@,
{
    reveal_strlit("1");
    reveal_strlit("0");
    assert(decimal(1) =~= "1"@);
    assert(decimal(0) =~= "0"@);
}

/// What the lines of the configuration file say, put together of their parts.
proof fn lemma_conf_values(cfg: ConfigView, caps: PhyCaps, level: Seq<char>, key: Seq<char>)
    requires
        key_number(key) >= 0,
    ensures
        ({
            let n = key_number(key);
            let got = values_of(conf_lines(cfg, caps, level), key);
            &&& n <= 10 ==> got == values_of(base_lines(cfg), key)
            &&& 11 <= n <= 17 ==> got == values_of(mode_lines(cfg, caps, level), key)
            &&& n >= 18 ==> got == values_of(auth_lines(cfg), key)
        }),
{
    let (a, b, c) = (base_lines(cfg), mode_lines(cfg, caps, level), auth_lines(cfg));
    let none = Seq::<Seq<char>>::empty();
    lemma_values_add(a + b, c, key);
    lemma_values_add(a, b, key);
    lemma_base_values(cfg, key);
    lemma_mode_values(cfg, caps, level, key);
    lemma_auth_values(cfg, key);
    let (va, vb, vc) = (values_of(a, key), values_of(b, key), values_of(c, key));
    assert(key_number(key) <= 10 ==> va + none + none =~= va);
    assert(none + vb + none =~= vb);
    assert(none + none + vc =~= vc);
}

/// The configuration file says each setting in one line and only one, whatever
/// the radio and the level: the interface, the name, the channel, the radio
/// mode, the country, and whether the network is hidden; and that `hostapd` is
/// to use the driver of the kernel.
pub proof fn law_configuration_says_the_settings(cfg: ConfigView, caps: PhyCaps, level: Seq<char>)
    ensures
        ({
            let lines = conf_lines(cfg, caps, level);
            let channel = values_of(lines, "channel="@);
            let mode = values_of(lines, "hw_mode="@);
            &&& values_of(lines, "interface="@) == seq![cfg.interface]
            &&& values_of(lines, "ssid="@) == seq![cfg.ssid]
            &&& channel.len() == 1
            &&& magnitude(channel[0], 10) == Some(cfg.channel as nat)
            &&& mode.len() == 1
            &&& mode_of(mode[0]) == Some(cfg.hw_mode)
            &&& values_of(lines, "country_code="@) == seq![cfg.country_code]
            &&& values_of(lines, "ignore_broadcast_ssid="@) == seq![
                if cfg.hidden {
                    "1"@
                } else {
                    "0"@
                },
            ]
            &&& values_of(lines, "driver="@) == seq!["nl80211"@]
            &&& values_of(lines, "logger_syslog="@) == seq!["-1"@]
            &&& values_of(lines, "logger_syslog_level="@) == seq!["3"@]
            &&& values_of(lines, "logger_stdout="@) == seq!["-1"@]
            &&& values_of(lines, "logger_stdout_level="@) == seq!["0"@]
        }),
{
    lemma_key_numbers();
    lemma_one();
    law_decimal_reads_back(cfg.channel as nat);
    law_mode_letter_reads_back(cfg.hw_mode);
    lemma_conf_values(cfg, caps, level, "interface="@);
    lemma_base_values(cfg, "interface="@);
    lemma_conf_values(cfg, caps, level, "ssid="@);
    lemma_base_values(cfg, "ssid="@);
    lemma_conf_values(cfg, caps, level, "channel="@);
    lemma_base_values(cfg, "channel="@);
    lemma_conf_values(cfg, caps, level, "hw_mode="@);
    lemma_base_values(cfg, "hw_mode="@);
    lemma_conf_values(cfg, caps, level, "country_code="@);
    lemma_base_values(cfg, "country_code="@);
    lemma_conf_values(cfg, caps, level, "ignore_broadcast_ssid="@);
    lemma_base_values(cfg, "ignore_broadcast_ssid="@);
    lemma_conf_values(cfg, caps, level, "driver="@);
    lemma_base_values(cfg, "driver="@);
    lemma_conf_values(cfg, caps, level, "logger_syslog="@);
    lemma_base_values(cfg, "logger_syslog="@);
    lemma_conf_values(cfg, caps, level, "logger_syslog_level="@);
    lemma_base_values(cfg, "logger_syslog_level="@);
    lemma_conf_values(cfg, caps, level, "logger_stdout="@);
    lemma_base_values(cfg, "logger_stdout="@);
    lemma_conf_values(cfg, caps, level, "logger_stdout_level="@);
    lemma_base_values(cfg, "logger_stdout_level="@);
}

/// Configuration files that are the same are for the same settings.
pub proof fn law_configuration_tells_settings_apart(
    a: ConfigView,
    a_caps: PhyCaps,
    a_level: Seq<char>,
    b: ConfigView,
    b_caps: PhyCaps,
    b_level: Seq<char>,
)
    requires
        conf_lines(a, a_caps, a_level) == conf_lines(b, b_caps, b_level),
    ensures
        a.interface == b.interface,
        a.ssid == b.ssid,
        a.channel == b.channel,
        a.hw_mode == b.hw_mode,
        a.country_code == b.country_code,
        a.hidden == b.hidden,
        a.passphrase == b.passphrase,
{
    law_configuration_says_the_settings(a, a_caps, a_level);
    law_configuration_says_the_settings(b, b_caps, b_level);
    law_configuration_says_who_may_join(a, a_caps, a_level);
    law_configuration_says_who_may_join(b, b_caps, b_level);
    reveal_strlit("0");
    reveal_strlit("1");
    let lines = conf_lines(a, a_caps, a_level);
    assert(values_of(lines, "interface="@)[0] == a.interface);
    assert(values_of(lines, "ssid="@)[0] == a.ssid);
    assert(values_of(lines, "country_code="@)[0] == a.country_code);
    let hidden = values_of(lines, "ignore_broadcast_ssid="@)[0];
    assert(a.hidden == (hidden[0] == '1'));
    assert(b.hidden == (hidden[0] == '1'));
    let pass = values_of(lines, "wpa_passphrase="@);
    assert(a.passphrase is Some == (pass.len() == 1));
    assert(b.passphrase is Some == (pass.len() == 1));
    if pass.len() == 1 {
        assert(a.passphrase->0 == pass[0]);
        assert(b.passphrase->0 == pass[0]);
    }
}

/// A network with a passphrase asks for it with WPA2, one without is open.
pub proof fn law_configuration_says_who_may_join(cfg: ConfigView, caps: PhyCaps, level: Seq<char>)
    ensures
        ({
            let lines = conf_lines(cfg, caps, level);
            let none = Seq::<Seq<char>>::empty();
            let asks = cfg.passphrase is Some;
            &&& values_of(lines, "auth_algs="@) == seq!["1"@]
            &&& asks ==> values_of(lines, "wpa="@) == seq!["2"@]
            &&& asks ==> values_of(lines, "wpa_key_mgmt="@) == seq!["WPA-PSK"@]
            &&& asks ==> values_of(lines, "rsn_pairwise="@) == seq!["CCMP"@]
            &&& asks ==> values_of(lines, "wpa_passphrase="@) == seq![cfg.passphrase->0]
            &&& !asks ==> values_of(lines, "wpa="@) == none
            &&& !asks ==> values_of(lines, "wpa_key_mgmt="@) == none
            &&& !asks ==> values_of(lines, "rsn_pairwise="@) == none
            &&& !asks ==> values_of(lines, "wpa_passphrase="@) == none
        }),
{
    lemma_key_numbers();
    lemma_conf_values(cfg, caps, level, "auth_algs="@);
    lemma_auth_values(cfg, "auth_algs="@);
    lemma_conf_values(cfg, caps, level, "wpa="@);
    lemma_auth_values(cfg, "wpa="@);
    lemma_conf_values(cfg, caps, level, "wpa_key_mgmt="@);
    lemma_auth_values(cfg, "wpa_key_mgmt="@);
    lemma_conf_values(cfg, caps, level, "rsn_pairwise="@);
    lemma_auth_values(cfg, "rsn_pairwise="@);
    lemma_conf_values(cfg, caps, level, "wpa_passphrase="@);
    lemma_auth_values(cfg, "wpa_passphrase="@);
}

/// The configuration file for all that a radio can do: 802.11n is on if 802.11n
/// or 802.11ac is set, with the flags of the radio for the channel; 802.11ac is
/// on if it is set and the radio has it, with its flags, if it has any, the
/// number of its widest channel and the middle of that.
pub proof fn law_full_level_uses_the_radio(cfg: ConfigView, caps: PhyCaps)
    ensures
        ({
            let lines = conf_lines(cfg, caps, "full"@);
            let none = Seq::<Seq<char>>::empty();
            let ht = cfg.ieee80211n || cfg.ieee80211ac;
            let vht = cfg.ieee80211ac && caps.has_vht;
            let flags = vht_flags(caps.vht_caps);
            let width = values_of(lines, "vht_oper_chwidth="@);
            let middle = values_of(lines, "vht_oper_centr_freq_seg0_idx="@);
            &&& ht ==> {
                &&& values_of(lines, "ieee80211n="@) == seq!["1"@]
                &&& values_of(lines, "wmm_enabled="@) == seq!["1"@]
                &&& values_of(lines, "ht_capab="@) == seq![ht_flags(caps.ht_caps, cfg.channel)]
            }
            &&& !ht ==> {
                &&& values_of(lines, "ieee80211n="@) == none
                &&& values_of(lines, "wmm_enabled="@) == none
                &&& values_of(lines, "ht_capab="@) == none
            }
            &&& vht ==> {
                &&& values_of(lines, "ieee80211ac="@) == seq!["1"@]
                &&& flags.len() > 0 ==> values_of(lines, "vht_capab="@) == seq![flags]
                &&& flags.len() == 0 ==> values_of(lines, "vht_capab="@) == none
                &&& width.len() == 1
                &&& magnitude(width[0], 10) == Some(
                    match caps.max_vht_width {
                        VhtWidth::W80 => 1nat,
                        VhtWidth::W160 => 2,
                        VhtWidth::W80P80 => 3,
                    },
                )
                &&& middle.len() == 1
                &&& magnitude(middle[0], 10) == Some(
                    center_channel(cfg.channel, caps.max_vht_width) as nat,
                )
            }
            &&& !vht ==> {
                &&& values_of(lines, "ieee80211ac="@) == none
                &&& values_of(lines, "vht_capab="@) == none
                &&& width == none
                &&& middle == none
            }
        }),
{
    lemma_key_numbers();
    law_decimal_reads_back(width_number(caps.max_vht_width) as nat);
    law_decimal_reads_back(center_channel(cfg.channel, caps.max_vht_width) as nat);
    let level = "full"@;
    lemma_levels_differ();
    assert(levels()[0] == "full"@ && levels()[1] == "vht-minimal"@);
    lemma_conf_values(cfg, caps, level, "ieee80211n="@);
    lemma_mode_values(cfg, caps, level, "ieee80211n="@);
    lemma_conf_values(cfg, caps, level, "wmm_enabled="@);
    lemma_mode_values(cfg, caps, level, "wmm_enabled="@);
    lemma_conf_values(cfg, caps, level, "ht_capab="@);
    lemma_mode_values(cfg, caps, level, "ht_capab="@);
    lemma_conf_values(cfg, caps, level, "ieee80211ac="@);
    lemma_mode_values(cfg, caps, level, "ieee80211ac="@);
    lemma_conf_values(cfg, caps, level, "vht_capab="@);
    lemma_mode_values(cfg, caps, level, "vht_capab="@);
    lemma_conf_values(cfg, caps, level, "vht_oper_chwidth="@);
    lemma_mode_values(cfg, caps, level, "vht_oper_chwidth="@);
    lemma_conf_values(cfg, caps, level, "vht_oper_centr_freq_seg0_idx="@);
    lemma_mode_values(cfg, caps, level, "vht_oper_centr_freq_seg0_idx="@);
}

/// The reduced configuration files use the channel width and the guard interval
/// that every radio has; the second one 802.11ac at 80 MHz, where it is set and
/// the radio has it, the last two none, and the last one no flags at all.
pub proof fn law_reduced_levels_ask_for_less(cfg: ConfigView, caps: PhyCaps)
    ensures
        ({
            let minimal = conf_lines(cfg, caps, "vht-minimal"@);
            let only = conf_lines(cfg, caps, "ht-only"@);
            let bare = conf_lines(cfg, caps, "bare"@);
            let none = Seq::<Seq<char>>::empty();
            let ht = cfg.ieee80211n || cfg.ieee80211ac;
            let vht = cfg.ieee80211ac && caps.has_vht;
            let middle = values_of(minimal, "vht_oper_centr_freq_seg0_idx="@);
            let short = bonding_flags(cfg.channel);
            &&& ht ==> values_of(minimal, "ieee80211n="@) == seq!["1"@]
            &&& ht ==> values_of(minimal, "ht_capab="@) == seq![
                short + "[SHORT-GI-20][SHORT-GI-40]"@,
            ]
            &&& !ht ==> values_of(minimal, "ieee80211n="@) == none
            &&& !ht ==> values_of(minimal, "ht_capab="@) == none
            &&& vht ==> values_of(minimal, "ieee80211ac="@) == seq!["1"@]
            &&& vht ==> values_of(minimal, "vht_capab="@) == seq!["[SHORT-GI-80]"@]
            &&& vht ==> values_of(minimal, "vht_oper_chwidth="@) == seq!["1"@]
            &&& vht ==> middle.len() == 1 && magnitude(middle[0], 10) == Some(
                center_channel(cfg.channel, VhtWidth::W80) as nat,
            )
            &&& !vht ==> values_of(minimal, "ieee80211ac="@) == none
            &&& !vht ==> values_of(minimal, "vht_capab="@) == none
            &&& !vht ==> values_of(minimal, "vht_oper_chwidth="@) == none
            &&& !vht ==> middle == none
            &&& values_of(only, "ieee80211n="@) == seq!["1"@]
            &&& values_of(only, "ht_capab="@) == seq![short + "[SHORT-GI-20]"@]
            &&& values_of(only, "ieee80211ac="@) == none
            &&& values_of(bare, "ieee80211n="@) == seq!["1"@]
            &&& values_of(bare, "wmm_enabled="@) == seq!["1"@]
            &&& values_of(bare, "ht_capab="@) == none
            &&& values_of(bare, "ieee80211ac="@) == none
        }),
{
    lemma_key_numbers();
    lemma_one();
    law_decimal_reads_back(center_channel(cfg.channel, VhtWidth::W80) as nat);
    lemma_levels_differ();
    let names = levels();
    assert(names[0] == "full"@ && names[1] == "vht-minimal"@);
    assert(names[2] == "ht-only"@ && names[3] == "bare"@);
    lemma_conf_values(cfg, caps, "vht-minimal"@, "ieee80211n="@);
    lemma_mode_values(cfg, caps, "vht-minimal"@, "ieee80211n="@);
    lemma_conf_values(cfg, caps, "vht-minimal"@, "ht_capab="@);
    lemma_mode_values(cfg, caps, "vht-minimal"@, "ht_capab="@);
    lemma_conf_values(cfg, caps, "vht-minimal"@, "ieee80211ac="@);
    lemma_mode_values(cfg, caps, "vht-minimal"@, "ieee80211ac="@);
    lemma_conf_values(cfg, caps, "vht-minimal"@, "vht_capab="@);
    lemma_mode_values(cfg, caps, "vht-minimal"@, "vht_capab="@);
    lemma_conf_values(cfg, caps, "vht-minimal"@, "vht_oper_chwidth="@);
    lemma_mode_values(cfg, caps, "vht-minimal"@, "vht_oper_chwidth="@);
    lemma_conf_values(cfg, caps, "vht-minimal"@, "vht_oper_centr_freq_seg0_idx="@);
    lemma_mode_values(cfg, caps, "vht-minimal"@, "vht_oper_centr_freq_seg0_idx="@);
    lemma_conf_values(cfg, caps, "ht-only"@, "ieee80211n="@);
    lemma_mode_values(cfg, caps, "ht-only"@, "ieee80211n="@);
    lemma_conf_values(cfg, caps, "ht-only"@, "ht_capab="@);
    lemma_mode_values(cfg, caps, "ht-only"@, "ht_capab="@);
    lemma_conf_values(cfg, caps, "ht-only"@, "ieee80211ac="@);
    lemma_mode_values(cfg, caps, "ht-only"@, "ieee80211ac="@);
    lemma_conf_values(cfg, caps, "bare"@, "ieee80211n="@);
    lemma_mode_values(cfg, caps, "bare"@, "ieee80211n="@);
    lemma_conf_values(cfg, caps, "bare"@, "wmm_enabled="@);
    lemma_mode_values(cfg, caps, "bare"@, "wmm_enabled="@);
    lemma_conf_values(cfg, caps, "bare"@, "ht_capab="@);
    lemma_mode_values(cfg, caps, "bare"@, "ht_capab="@);
    lemma_conf_values(cfg, caps, "bare"@, "ieee80211ac="@);
    lemma_mode_values(cfg, caps, "bare"@, "ieee80211ac="@);
}

/// The configuration file has no lines but those on the settings, on who may
/// join and on the radio.
pub proof fn law_configuration_says_nothing_else(cfg: ConfigView, caps: PhyCaps, level: Seq<char>)
    ensures
        ({
            let lines = conf_lines(cfg, caps, level);
            lines.len() == 11 + values_of(lines, "ieee80211n="@).len() + values_of(
                lines,
                "wmm_enabled="@,
            ).len() + values_of(lines, "ht_capab="@).len() + values_of(lines, "ieee80211ac="@).len()
                + values_of(lines, "vht_capab="@).len() + values_of(
                lines,
                "vht_oper_chwidth="@,
            ).len() + values_of(lines, "vht_oper_centr_freq_seg0_idx="@).len() + values_of(
                lines,
                "auth_algs="@,
            ).len() + values_of(lines, "wpa="@).len() + values_of(lines, "wpa_key_mgmt="@).len()
                + values_of(lines, "rsn_pairwise="@).len() + values_of(
                lines,
                "wpa_passphrase="@,
            ).len()
        }),
{
    lemma_key_numbers();
    law_configuration_says_who_may_join(cfg, caps, level);
    lemma_levels_differ();
    let names = levels();
    assert(names[0] == "full"@ && names[1] == "vht-minimal"@ && names[2] == "ht-only"@);
    lemma_conf_values(cfg, caps, level, "ieee80211n="@);
    lemma_mode_values(cfg, caps, level, "ieee80211n="@);
    lemma_conf_values(cfg, caps, level, "wmm_enabled="@);
    lemma_mode_values(cfg, caps, level, "wmm_enabled="@);
    lemma_conf_values(cfg, caps, level, "ht_capab="@);
    lemma_mode_values(cfg, caps, level, "ht_capab="@);
    lemma_conf_values(cfg, caps, level, "ieee80211ac="@);
    lemma_mode_values(cfg, caps, level, "ieee80211ac="@);
    lemma_conf_values(cfg, caps, level, "vht_capab="@);
    lemma_mode_values(cfg, caps, level, "vht_capab="@);
    lemma_conf_values(cfg, caps, level, "vht_oper_chwidth="@);
    lemma_mode_values(cfg, caps, level, "vht_oper_chwidth="@);
    lemma_conf_values(cfg, caps, level, "vht_oper_centr_freq_seg0_idx="@);
    lemma_mode_values(cfg, caps, level, "vht_oper_centr_freq_seg0_idx="@);
}

/// A line that holds a word of trouble is a warning wherever the word stands; one
/// that holds a word on who comes and goes is for information, unless it is a
/// warning; a line without any of these words is neither.
pub proof fn law_words_decide_severity(a: Seq<char>, b: Seq<char>, line: Seq<char>)
    ensures
        severity_of(a + "error"@ + b) == Severity::Warn,
        severity_of(a + "failed"@ + b) == Severity::Warn,
        severity_of(a + "could not"@ + b) == Severity::Warn,
        severity_of(a + "unable"@ + b) == Severity::Warn,
        severity_of(a + "warning"@ + b) == Severity::Warn,
        severity_of(a + "beacon"@ + b) == Severity::Warn,
        severity_of(a + "enabled"@ + b) != Severity::Debug,
        severity_of(a + "connected"@ + b) != Severity::Debug,
        severity_of(a + "disconnected"@ + b) != Severity::Debug,
        severity_of(a + "authenticated"@ + b) != Severity::Debug,
        severity_of(a + "associated"@ + b) != Severity::Debug,
        severity_of(a + "handshake"@ + b) != Severity::Debug,
        severity_of(line) == Severity::Warn ==> {
            ||| occurs_in(line, "error"@)
            ||| occurs_in(line, "failed"@)
            ||| occurs_in(line, "could not"@)
            ||| occurs_in(line, "unable"@)
            ||| occurs_in(line, "warning"@)
            ||| occurs_in(line, "beacon"@)
        },
        severity_of(line) == Severity::Info ==> {
            ||| occurs_in(line, "enabled"@)
            ||| occurs_in(line, "connected"@)
            ||| occurs_in(line, "disconnected"@)
            ||| occurs_in(line, "authenticated"@)
            ||| occurs_in(line, "associated"@)
            ||| occurs_in(line, "handshake"@)
        },
{
    law_occurrence(line, "error"@, a, b);
    law_occurrence(line, "failed"@, a, b);
    law_occurrence(line, "could not"@, a, b);
    law_occurrence(line, "unable"@, a, b);
    law_occurrence(line, "warning"@, a, b);
    law_occurrence(line, "beacon"@, a, b);
    law_occurrence(line, "enabled"@, a, b);
    law_occurrence(line, "connected"@, a, b);
    law_occurrence(line, "disconnected"@, a, b);
    law_occurrence(line, "authenticated"@, a, b);
    law_occurrence(line, "associated"@, a, b);
    law_occurrence(line, "handshake"@, a, b);
}

/// Starting `hostapd` tries the levels in order, each at most once, up to the
/// first at which it does not exit. It comes to a running `hostapd` or to none,
/// as that attempt did, and to a failure of all levels exactly if it exited at
/// every one.
pub proof fn law_levels_are_tried_up_to_the_first_that_holds(outcomes: Seq<LaunchOutcome>)
    requires
        outcomes.len() == levels().len(),
    ensures
        ({
            let (tried, end) = attempts(outcomes, 0);
            let last = tried.len() - 1;
            &&& 1 <= tried.len() <= levels().len()
            &&& forall|i: int| 0 <= i < tried.len() ==> #[trigger] tried[i] == i
            &&& forall|i: int| 0 <= i < last ==> #[trigger] outcomes[i] == LaunchOutcome::Exited
            &&& match outcomes[last] {
                LaunchOutcome::Alive => end == LaunchStep::Running,
                LaunchOutcome::NotStarted => end == LaunchStep::Abort,
                LaunchOutcome::Exited => end == LaunchStep::AllFailed && tried.len()
                    == levels().len() && levels()[tried.last() as int] == "bare"@,
            }
        }),
{
    reveal_with_fuel(attempts, 5);
}

/// A configuration that could not be written is reported with its level.
pub proof fn law_launch_fault_names_the_level(level: Seq<char>)
    ensures
        occurs_in(launch_fault_text(LaunchErrorView::Write(level)), level),
{
    law_occurrence(level, level, "writing hostapd.conf (level="@, ")"@);
}

/// A radio without 802.11ac, or settings without it, get no line on it.
pub proof fn law_no_vht_without_radio_and_setting(
    cfg: ConfigView,
    caps: PhyCaps,
    level: Seq<char>,
)
    requires
        !cfg.ieee80211ac || !caps.has_vht,
    ensures
        mode_lines(cfg, caps, level).len() <= 3,
        forall|i: int|
            0 <= i < mode_lines(cfg, caps, level).len() ==> #[trigger] mode_lines(
                cfg,
                caps,
                level,
            )[i] != "ieee80211ac=1"@,
{
    reveal_strlit("ieee80211ac=1");
    reveal_strlit("ieee80211n=1");
    reveal_strlit("wmm_enabled=1");
    reveal_strlit("ht_capab=");
    let lines = mode_lines(cfg, caps, level);
    assert("ieee80211ac=1"@[9] == 'a');
    assert("ieee80211n=1"@[9] == 'n');
    assert("wmm_enabled=1"@[0] == 'w');
    assert forall|i: int| 0 <= i < lines.len() implies #[trigger] lines[i] != "ieee80211ac=1"@ by {
        if i == 2 {
            assert(lines[i][0] == "ht_capab="@[0]);
        }
    }
}

// ---------------------------------------------------------------------------
// Operations
// ---------------------------------------------------------------------------

/// Adds a line.
fn push_line(lines: &mut Vec<String>, line: &str)
    ensures
        texts(final(lines)@) == texts(old(lines)@).push(line@),
{
    broadcast use lemma_texts_push;

    lines.push(line.to_owned());
}

/// Adds a line that gives `key` the value `value`.
fn push_setting(lines: &mut Vec<String>, key: &str, value: &str)
    ensures
        texts(final(lines)@) == texts(old(lines)@).push(key@ + value@),
{
    broadcast use lemma_texts_push;

    lines.push(key.to_owned().concat(value));
}

/// Adds the lines that are in every configuration file.
fn push_base(lines: &mut Vec<String>, cfg: &Config)
    ensures
        texts(final(lines)@) == texts(old(lines)@) + base_lines(cfg@),
{
    push_setting(lines, "interface=", cfg.interface.as_str());
    push_setting(lines, "ssid=", cfg.ssid.as_str());
    push_setting(lines, "channel=", decimal_text(cfg.channel as u32).as_str());
    push_setting(lines, "hw_mode=", cfg.hw_mode.as_str());
    push_setting(lines, "country_code=", cfg.country_code.as_str());
    let hidden: u32 = if cfg.hidden {
        1
    } else {
        0
    };
    push_setting(lines, "ignore_broadcast_ssid=", decimal_text(hidden).as_str());
    push_line(lines, "driver=nl80211");
    push_line(lines, "logger_syslog=-1");
    push_line(lines, "logger_syslog_level=3");
    push_line(lines, "logger_stdout=-1");
    push_line(lines, "logger_stdout_level=0");
    assert(texts(lines@) =~= texts(old(lines)@) + base_lines(cfg@));
}

/// Adds the lines that switch 802.11n on.
fn push_ht(lines: &mut Vec<String>, flags: &str)
    ensures
        texts(final(lines)@) == texts(old(lines)@) + ht_lines(flags@),
{
    push_line(lines, "ieee80211n=1");
    push_line(lines, "wmm_enabled=1");
    push_setting(lines, "ht_capab=", flags);
    assert(texts(lines@) =~= texts(old(lines)@) + ht_lines(flags@));
}

/// Adds the lines on 802.11ac with all that the radio can do.
fn push_full_vht(lines: &mut Vec<String>, cfg: &Config, caps: &PhyCaps)
    ensures
        texts(final(lines)@) == texts(old(lines)@) + full_vht_lines(cfg@, *caps),
{
    push_line(lines, "ieee80211ac=1");
    let flags: String = caps.vht_capab_string();
    if !flags.as_str().is_empty() {
        push_setting(lines, "vht_capab=", flags.as_str());
    }
    push_setting(
        lines,
        "vht_oper_chwidth=",
        decimal_text(caps.vht_oper_chwidth() as u32).as_str(),
    );
    push_setting(
        lines,
        "vht_oper_centr_freq_seg0_idx=",
        decimal_text(vht_center_freq_idx(cfg.channel, caps.max_vht_width) as u32).as_str(),
    );
    assert(texts(lines@) =~= texts(old(lines)@) + full_vht_lines(cfg@, *caps));
}

/// Adds the lines on 802.11ac with what every radio can do.
fn push_minimal_vht(lines: &mut Vec<String>, cfg: &Config)
    ensures
        texts(final(lines)@) == texts(old(lines)@) + minimal_vht_lines(cfg@),
{
    push_line(lines, "ieee80211ac=1");
    push_line(lines, "vht_capab=[SHORT-GI-80]");
    push_line(lines, "vht_oper_chwidth=1");
    push_setting(
        lines,
        "vht_oper_centr_freq_seg0_idx=",
        decimal_text(vht_center_freq_idx(cfg.channel, VhtWidth::W80) as u32).as_str(),
    );
    assert(texts(lines@) =~= texts(old(lines)@) + minimal_vht_lines(cfg@));
}

/// Adds the lines on 802.11n and 802.11ac for a level of capabilities.
fn push_mode(lines: &mut Vec<String>, cfg: &Config, caps: &PhyCaps, level: &str)
    ensures
        texts(final(lines)@) == texts(old(lines)@) + mode_lines(cfg@, *caps, level@),
{
    let ht: bool = cfg.ieee80211n || cfg.ieee80211ac;
    let vht: bool = cfg.ieee80211ac && caps.has_vht;
    if str_eq(level, "full") {
        if ht {
            push_ht(lines, caps.ht_capab_string(cfg.channel).as_str());
        }
        if vht {
            push_full_vht(lines, cfg, caps);
        }
    } else if str_eq(level, "vht-minimal") {
        if ht {
            push_ht(
                lines,
                ht_40mhz_flags(cfg.channel).to_owned().concat(
                    "[SHORT-GI-20][SHORT-GI-40]",
                ).as_str(),
            );
        }
        if vht {
            push_minimal_vht(lines, cfg);
        }
    } else if str_eq(level, "ht-only") {
        push_ht(lines, ht_40mhz_flags(cfg.channel).to_owned().concat("[SHORT-GI-20]").as_str());
    } else {
        push_line(lines, "ieee80211n=1");
        push_line(lines, "wmm_enabled=1");
    }
    assert(texts(lines@) =~= texts(old(lines)@) + mode_lines(cfg@, *caps, level@));
}

/// Adds the lines on who may join.
fn push_auth(lines: &mut Vec<String>, cfg: &Config)
    ensures
        texts(final(lines)@) == texts(old(lines)@) + auth_lines(cfg@),
{
    match &cfg.passphrase {
        Some(pw) => {
            push_line(lines, "auth_algs=1");
            push_line(lines, "wpa=2");
            push_line(lines, "wpa_key_mgmt=WPA-PSK");
            push_line(lines, "rsn_pairwise=CCMP");
            push_setting(lines, "wpa_passphrase=", pw.as_str());
        },
        None => {
            push_line(lines, "auth_algs=1");
        },
    }
    assert(texts(lines@) =~= texts(old(lines)@) + auth_lines(cfg@));
}

/// The configuration file for a level of capabilities.
pub fn generate(cfg: &Config, caps: &PhyCaps, level: &str) -> (res: String)
    ensures
        res@ == unlines(conf_lines(cfg@, *caps, level@)),
{
    let mut lines: Vec<String> = Vec::new();
    assert(texts(lines@) =~= Seq::empty());
    push_base(&mut lines, cfg);
    push_mode(&mut lines, cfg, caps, level);
    push_auth(&mut lines, cfg);
    assert(texts(lines@) =~= conf_lines(cfg@, *caps, level@));
    join_lines(&lines)
}

/// The next attempt to start `hostapd`, after it exited at once at `failed`
/// levels: the level after those, and the configuration file for it. There is
/// none when all levels failed. Without detected capabilities, none are
/// assumed.
pub fn next_launch(cfg: &Config, caps: Option<PhyCaps>, failed: usize) -> (res: Option<Launch>)
    ensures
        res is Some == (failed < levels().len()),
        res matches Some(l) ==> {
            &&& l.level@ == levels()[failed as int]
            &&& l.conf@ == unlines(
                conf_lines(
                    cfg@,
                    match caps {
                        Some(c) => c,
                        None => no_caps(),
                    },
                    levels()[failed as int],
                ),
            )
        },
{
    let caps: PhyCaps = match caps {
        Some(c) => c,
        None => PhyCaps::default(),
    };
    let level: &'static str = match failed {
        0 => "full",
        1 => "vht-minimal",
        2 => "ht-only",
        3 => "bare",
        _ => {
            return None;
        },
    };
    let conf: String = generate(cfg, &caps, level);
    Some(Launch { level, conf })
}

/// What follows an attempt to start `hostapd` that was made after it exited at
/// `failed` levels.
pub fn after_launch(failed: usize, outcome: LaunchOutcome) -> (res: LaunchStep)
    requires
        failed < levels().len(),
    ensures
        res == step_after(failed as nat, outcome),
{
    match outcome {
        LaunchOutcome::Alive => LaunchStep::Running,
        LaunchOutcome::NotStarted => LaunchStep::Abort,
        LaunchOutcome::Exited => if failed < 3 {
            LaunchStep::Try(failed + 1)
        } else {
            LaunchStep::AllFailed
        },
    }
}

impl LaunchError {
    /// What the fault is reported as.
    pub fn message(&self) -> (res: String)
        ensures
            res@ == launch_fault_text(self@),
    {
        match self {
            LaunchError::Write(level) => "writing hostapd.conf (level=".to_owned().concat(
                level.as_str(),
            ).concat(")"),
            LaunchError::Spawn => "spawning hostapd".to_owned(),
            LaunchError::AllLevels => "hostapd failed at all capability levels".to_owned(),
        }
    }
}

/// Whether a level leaves out capabilities of the radio.
pub fn is_reduced(level: &str) -> (res: bool)
    ensures
        res == (level@ != levels()[0]),
{
    !str_eq(level, "full")
}

/// How loud a line is reported that is `lower` in lower case.
pub fn classify_lower(lower: &str) -> (res: Severity)
    ensures
        res == severity_of(lower@),
{
    if contains(lower, "error") || contains(lower, "failed") || contains(lower, "could not")
        || contains(lower, "unable") {
        Severity::Warn
    } else if contains(lower, "warning") || contains(lower, "beacon") {
        Severity::Warn
    } else if contains(lower, "enabled") || contains(lower, "connected") || contains(
        lower,
        "disconnected",
    ) || contains(lower, "authenticated") || contains(lower, "associated") || contains(
        lower,
        "handshake",
    ) {
        Severity::Info
    } else {
        Severity::Debug
    }
}

/// How loud a line of `hostapd` is reported, whatever its case.
pub fn classify_hostapd_line(line: &str) -> (res: Severity)
    ensures
        res == severity_of(lowercase(line@)),
        is_ascii_chars(line@) ==> res == severity_of(line@.map_values(|c: char| ascii_lower(c))),
{
    let lower: String = to_lowercase(line);
    classify_lower(lower.as_str())
}

/// What becomes of the output of `hostapd` at a line, which is missing where
/// reading failed: it is read up to the first line that is blank, or until
/// reading is told to stop.
pub fn log_step(stop: bool, line: Option<&str>) -> (res: LogStep)
    ensures
        match line {
            Some(l) if !stop && trimmed(l@).len() > 0 => res == LogStep::Report(
                severity_of(lowercase(l@)),
            ),
            _ => res == LogStep::End,
        },
        line matches Some(l) ==> !stop && trimmed(l@).len() > 0 && is_ascii_chars(l@) ==> res
            == LogStep::Report(severity_of(l@.map_values(|c: char| ascii_lower(c)))),
{
    if stop {
        return LogStep::End;
    }
    match line {
        Some(l) => if trim(l).as_str().is_empty() {
            LogStep::End
        } else {
            LogStep::Report(classify_hostapd_line(l))
        },
        None => LogStep::End,
    }
}

/// How long `hostapd` has to live to count as running, in nanoseconds.
pub const SETTLE_NANOS: u128 = 2_000_000_000;

/// What to make of a process at the time `now` that is to live up to the time
/// `deadline`, and of which `poll` was heard. Past the deadline it does not
/// matter what was heard.
pub fn wait_or_alive(now: u128, deadline: u128, poll: Poll) -> (res: Liveness)
    ensures
        res == if now >= deadline {
            Liveness::Alive
        } else {
            match poll {
                Poll::Exited => Liveness::Exited,
                Poll::Failed => Liveness::Unknown,
                Poll::Running => Liveness::Pause(100),
            }
        },
{
    if now >= deadline {
        Liveness::Alive
    } else {
        match poll {
            Poll::Exited => Liveness::Exited,
            Poll::Failed => Liveness::Unknown,
            Poll::Running => Liveness::Pause(100),
        }
    }
}

} // verus!
