//! The settings of a hotspot: their defaults, what is refused, and where the
//! configuration file is found.
use vstd::prelude::*;
use vstd::string::*;

use crate::text::{
    has_prefix, joined, law_lines_undo_unlines, law_occurrence, law_prefix, law_split_undoes_join,
    lines, lines_of, occurs_in, split, split_on, starts_with, str_eq, texts, unlines,
};

verus! {

broadcast use vstd::string::group_string_axioms;

/// The private network that the hotspot uses by default.
#[derive(Debug, Clone, Copy, PartialEq, Eq, Structural)]
pub enum NetworkClass {
    A,
    B,
    C,
}

#[derive(Debug, Clone, Copy, PartialEq, Eq, Structural)]
pub enum HwMode {
    B,
    G,
    A,
}

#[derive(Debug, Clone)]
pub struct DhcpRange {
    pub start: String,
    pub end: String,
    pub netmask: String,
}

#[derive(Debug, Clone)]
pub struct Config {
    pub interface: String,
    pub ssid: String,
    pub passphrase: Option<String>,
    pub channel: u8,
    pub hw_mode: HwMode,
    pub network_class: NetworkClass,
    pub gateway: Option<String>,
    pub dhcp_range: Option<DhcpRange>,
    pub dhcp_lease: String,
    pub upstream: Option<String>,
    pub hidden: bool,
    pub ieee80211n: bool,
    pub ieee80211ac: bool,
    pub country_code: String,
}

/// Why settings are refused.
#[derive(Debug, Clone)]
pub enum ConfigError {
    /// The name of the network is empty or too long.
    SsidLength,
    /// The passphrase is too short or too long.
    PassphraseLength,
    /// No interface is named.
    InterfaceMissing,
    /// A radio mode that does not exist, in lower case.
    UnknownHwMode(String),
    /// A network class that does not exist, in lower case.
    UnknownNetworkClass(String),
    /// The interface of this name is not a wireless one.
    NotWireless(String),
}

// ---------------------------------------------------------------------------
// Model
// ---------------------------------------------------------------------------

#[verifier::ext_equal]
pub struct DhcpRangeView {
    pub start: Seq<char>,
    pub end: Seq<char>,
    pub netmask: Seq<char>,
}

#[verifier::ext_equal]
pub struct ConfigView {
    pub interface: Seq<char>,
    pub ssid: Seq<char>,
    pub passphrase: Option<Seq<char>>,
    pub channel: u8,
    pub hw_mode: HwMode,
    pub network_class: NetworkClass,
    pub gateway: Option<Seq<char>>,
    pub dhcp_range: Option<DhcpRangeView>,
    pub dhcp_lease: Seq<char>,
    pub upstream: Option<Seq<char>>,
    pub hidden: bool,
    pub ieee80211n: bool,
    pub ieee80211ac: bool,
    pub country_code: Seq<char>,
}

#[verifier::ext_equal]
pub enum ConfigErrorView {
    SsidLength,
    PassphraseLength,
    InterfaceMissing,
    UnknownHwMode(Seq<char>),
    UnknownNetworkClass(Seq<char>),
    NotWireless(Seq<char>),
}

/// The text of a string that may be missing.
pub open spec fn opt_text(s: Option<String>) -> Option<Seq<char>> {
    match s {
        Some(s) => Some(s@),
        None => None,
    }
}

impl View for DhcpRange {
    type V = DhcpRangeView;

    open spec fn view(&self) -> DhcpRangeView {
        DhcpRangeView { start: self.start@, end: self.end@, netmask: self.netmask@ }
    }
}

impl View for Config {
    type V = ConfigView;

    open spec fn view(&self) -> ConfigView {
        ConfigView {
            interface: self.interface@,
            ssid: self.ssid@,
            passphrase: opt_text(self.passphrase),
            channel: self.channel,
            hw_mode: self.hw_mode,
            network_class: self.network_class,
            gateway: opt_text(self.gateway),
            dhcp_range: match self.dhcp_range {
                Some(r) => Some(r@),
                None => None,
            },
            dhcp_lease: self.dhcp_lease@,
            upstream: opt_text(self.upstream),
            hidden: self.hidden,
            ieee80211n: self.ieee80211n,
            ieee80211ac: self.ieee80211ac,
            country_code: self.country_code@,
        }
    }
}

impl View for ConfigError {
    type V = ConfigErrorView;

    open spec fn view(&self) -> ConfigErrorView {
        match self {
            ConfigError::SsidLength => ConfigErrorView::SsidLength,
            ConfigError::PassphraseLength => ConfigErrorView::PassphraseLength,
            ConfigError::InterfaceMissing => ConfigErrorView::InterfaceMissing,
            ConfigError::UnknownHwMode(s) => ConfigErrorView::UnknownHwMode(s@),
            ConfigError::UnknownNetworkClass(s) => ConfigErrorView::UnknownNetworkClass(s@),
            ConfigError::NotWireless(s) => ConfigErrorView::NotWireless(s@),
        }
    }
}

/// The settings, or the fault, that a result holds.
pub open spec fn outcome(r: Result<Config, ConfigError>) -> Result<ConfigView, ConfigErrorView> {
    match r {
        Ok(c) => Ok(c@),
        Err(e) => Err(e@),
    }
}

/// The gateway that a network class stands for.
pub open spec fn class_gateway(class: NetworkClass) -> Seq<char> {
    match class {
        NetworkClass::A => "10.0.0.1"@,
        NetworkClass::B => "172.16.0.1"@,
        NetworkClass::C => "192.168.100.1"@,
    }
}

/// The addresses that are given out in a network class.
pub open spec fn class_range(class: NetworkClass) -> DhcpRangeView {
    match class {
        NetworkClass::A => DhcpRangeView {
            start: "10.0.0.10"@,
            end: "10.0.0.250"@,
            netmask: "255.0.0.0"@,
        },
        NetworkClass::B => DhcpRangeView {
            start: "172.16.0.10"@,
            end: "172.16.0.250"@,
            netmask: "255.240.0.0"@,
        },
        NetworkClass::C => DhcpRangeView {
            start: "192.168.100.10"@,
            end: "192.168.100.250"@,
            netmask: "255.255.255.0"@,
        },
    }
}

/// The network address of a network class.
pub open spec fn class_network(class: NetworkClass) -> Seq<char> {
    match class {
        NetworkClass::A => "10.0.0.0"@,
        NetworkClass::B => "172.16.0.0"@,
        NetworkClass::C => "192.168.100.0"@,
    }
}

/// The settings when nothing is configured.
pub open spec fn default_config() -> ConfigView {
    ConfigView {
        interface: Seq::empty(),
        ssid: Seq::empty(),
        passphrase: None,
        channel: 6,
        hw_mode: HwMode::G,
        network_class: NetworkClass::C,
        gateway: None,
        dhcp_range: None,
        dhcp_lease: "12h"@,
        upstream: None,
        hidden: false,
        ieee80211n: true,
        ieee80211ac: false,
        country_code: "CH"@,
    }
}

impl ConfigView {
    /// The gateway: the one that is set, else that of the network class.
    pub open spec fn gateway_text(self) -> Seq<char> {
        match self.gateway {
            Some(g) => g,
            None => class_gateway(self.network_class),
        }
    }

    /// The addresses that are given out: those that are set, else those of the
    /// network class.
    pub open spec fn range(self) -> DhcpRangeView {
        match self.dhcp_range {
            Some(r) => r,
            None => class_range(self.network_class),
        }
    }

    /// What is wrong with the name of the network or the passphrase: the name
    /// has 1 to 32 characters, the passphrase, if there is one, 8 to 63.
    pub open spec fn fault(self) -> Option<ConfigErrorView> {
        if !(1 <= self.ssid.len() <= 32) {
            Some(ConfigErrorView::SsidLength)
        } else if self.passphrase is Some && !(8 <= self.passphrase->0.len() <= 63) {
            Some(ConfigErrorView::PassphraseLength)
        } else {
            None
        }
    }
}

/// The letter of a radio mode.
pub open spec fn mode_letter(mode: HwMode) -> Seq<char> {
    match mode {
        HwMode::B => "b"@,
        HwMode::G => "g"@,
        HwMode::A => "a"@,
    }
}

/// The radio mode that a letter in lower case stands for.
pub open spec fn mode_of(lower: Seq<char>) -> Option<HwMode> {
    if lower == "b"@ {
        Some(HwMode::B)
    } else if lower == "g"@ {
        Some(HwMode::G)
    } else if lower == "a"@ {
        Some(HwMode::A)
    } else {
        None
    }
}

/// The letter of a network class.
pub open spec fn class_letter(class: NetworkClass) -> Seq<char> {
    match class {
        NetworkClass::A => "a"@,
        NetworkClass::B => "b"@,
        NetworkClass::C => "c"@,
    }
}

/// The network class that a letter in lower case stands for.
pub open spec fn class_of(lower: Seq<char>) -> Option<NetworkClass> {
    if lower == "a"@ {
        Some(NetworkClass::A)
    } else if lower == "b"@ {
        Some(NetworkClass::B)
    } else if lower == "c"@ {
        Some(NetworkClass::C)
    } else {
        None
    }
}

/// What a fault is reported as.
pub open spec fn fault_text(fault: ConfigErrorView) -> Seq<char> {
    match fault {
        ConfigErrorView::SsidLength => "ssid must be 1–32 characters"@,
        ConfigErrorView::PassphraseLength =>
            "passphrase must be 8–63 characters (WPA2 PSK requirement)"@,
        ConfigErrorView::InterfaceMissing =>
            "interface is required — set it in config.toml or pass --interface"@,
        ConfigErrorView::UnknownHwMode(s) => "unknown hw_mode '"@ + s + "', expected b/g/a"@,
        ConfigErrorView::UnknownNetworkClass(s) => "unknown network_class '"@ + s
            + "', expected a/b/c"@,
        ConfigErrorView::NotWireless(s) => "'"@ + s
            + "' is not a wireless interface — list interfaces with: iw dev"@,
    }
}

/// The first of `lines` that starts with `prefix`.
pub open spec fn first_with_prefix(lines: Seq<Seq<char>>, prefix: Seq<char>) -> Option<Seq<char>>
    decreases lines.len(),
{
    if lines.len() == 0 {
        None
    } else if has_prefix(lines[0], prefix) {
        Some(lines[0])
    } else {
        first_with_prefix(lines.drop_first(), prefix)
    }
}

/// The home directory that the user database `passwd` gives for `username`:
/// the sixth field of the first line that is about that user.
pub open spec fn home_of(passwd: Seq<char>, username: Seq<char>) -> Option<Seq<char>> {
    match first_with_prefix(lines_of(passwd), username + ":"@) {
        Some(line) => {
            let fields = split_on(line, ':');
            if fields.len() > 5 {
                Some(fields[5])
            } else {
                None
            }
        },
        None => None,
    }
}

/// The path `relative` below the directory `base`.
pub open spec fn below(base: Seq<char>, relative: Seq<char>) -> Seq<char> {
    if base.len() == 0 || base.last() == '/' {
        base + relative
    } else {
        base + "/"@ + relative
    }
}

/// Where the configuration is to be found.
#[derive(Debug, Clone, Copy, PartialEq, Eq, Structural)]
pub enum ConfigSource {
    /// In the home directory of the user who called `sudo`.
    SudoUser,
    /// In the configuration directory of the current user.
    Xdg,
    /// Nowhere.
    Nothing,
}

// ---------------------------------------------------------------------------
// Laws
// ---------------------------------------------------------------------------

/// The letter of a radio mode stands for that mode.
pub proof fn law_mode_letter_reads_back(mode: HwMode)
    ensures
        mode_of(mode_letter(mode)) == Some(mode),
{
    reveal_strlit("a");
    reveal_strlit("b");
    reveal_strlit("g");
    assert("a"@[0] == 'a');
    assert("b"@[0] == 'b');
    assert("g"@[0] == 'g');
}

/// The letter of a network class stands for that class.
pub proof fn law_class_letter_reads_back(class: NetworkClass)
    ensures
        class_of(class_letter(class)) == Some(class),
{
    reveal_strlit("a");
    reveal_strlit("b");
    reveal_strlit("c");
    assert("a"@[0] == 'a');
    assert("b"@[0] == 'b');
    assert("c"@[0] == 'c');
}

/// Only the letters of the radio modes stand for one, and only those of the
/// network classes for one.
pub proof fn law_only_letters_are_read(s: Seq<char>)
    ensures
        mode_of(s) matches Some(mode) ==> s == mode_letter(mode),
        class_of(s) matches Some(class) ==> s == class_letter(class),
{
}

/// Settings pass exactly if the name has 1 to 32 characters and the passphrase,
/// if there is one, 8 to 63; what is wrong with the name is told first.
pub proof fn law_limits_of_the_settings(cfg: ConfigView)
    ensures
        ({
            let name_fits = 1 <= cfg.ssid.len() && cfg.ssid.len() <= 32;
            let pass_fits = cfg.passphrase matches Some(pw) ==> 8 <= pw.len() && pw.len() <= 63;
            &&& cfg.fault() is None == (name_fits && pass_fits)
            &&& !name_fits ==> cfg.fault() == Some(ConfigErrorView::SsidLength)
            &&& name_fits && !pass_fits ==> cfg.fault() == Some(ConfigErrorView::PassphraseLength)
        }),
{
}

/// A gateway and addresses that are set are the ones that count, whatever the
/// network class; otherwise the class alone decides.
pub proof fn law_class_fills_in(a: ConfigView, b: ConfigView)
    ensures
        a.gateway matches Some(g) ==> a.gateway_text() == g,
        a.dhcp_range matches Some(r) ==> a.range() == r,
        a.gateway is None ==> a.gateway_text() == class_gateway(a.network_class),
        a.dhcp_range is None ==> a.range() == class_range(a.network_class),
        a.gateway is None && b.gateway is None && a.network_class == b.network_class
            ==> a.gateway_text() == b.gateway_text(),
{
}

/// A path below a directory is the directory, one separator unless the
/// directory ends in one or is empty, and the rest.
pub proof fn law_path_below(base: Seq<char>, relative: Seq<char>)
    ensures
        ({
            let path = below(base, relative);
            let separated = base.len() > 0 && base.last() != '/';
            let n = base.len() + (if separated {
                1int
            } else {
                0
            });
            &&& path.len() == n + relative.len()
            &&& path.take(base.len() as int) == base
            &&& separated ==> path[base.len() as int] == '/'
            &&& path.skip(n) == relative
        }),
{
    reveal_strlit("/");
    let path = below(base, relative);
    assert(path.take(base.len() as int) =~= base);
    if base.len() > 0 && base.last() != '/' {
        assert(path.skip((base.len() + 1) as int) =~= relative);
    } else {
        assert(path.skip(base.len() as int) =~= relative);
    }
}

/// Joined texts start with the first one and the separator.
proof fn lemma_joined_start(parts: Seq<Seq<char>>, sep: Seq<char>)
    requires
        parts.len() >= 2,
    ensures
        has_prefix(joined(parts, sep), parts[0] + sep),
    decreases parts.len(),
{
    let start = parts[0] + sep;
    let init = parts.drop_last();
    let all = joined(parts, sep);
    if parts.len() == 2 {
        assert(joined(init, sep) == init[0]);
        law_prefix(all, start, parts[1]);
        assert(all =~= start + parts[1]);
    } else {
        lemma_joined_start(init, sep);
        let head = joined(init, sep);
        law_prefix(head, start, Seq::empty());
        let rest = head.skip(start.len() as int) + sep + parts.last();
        law_prefix(all, start, rest);
        assert(all =~= start + rest);
    }
}

/// The first line with a prefix is behind those without.
proof fn lemma_first_with_prefix(
    before: Seq<Seq<char>>,
    line: Seq<char>,
    after: Seq<Seq<char>>,
    prefix: Seq<char>,
)
    requires
        forall|i: int| 0 <= i < before.len() ==> !has_prefix(#[trigger] before[i], prefix),
        has_prefix(line, prefix),
    ensures
        first_with_prefix(before + seq![line] + after, prefix) == Some(line),
    decreases before.len(),
{
    let all = before + seq![line] + after;
    if before.len() > 0 {
        let rest = before.drop_first();
        assert(all[0] == before[0]);
        assert forall|i: int| 0 <= i < rest.len() implies !has_prefix(
            #[trigger] rest[i],
            prefix,
        ) by {
            assert(rest[i] == before[i + 1]);
        }
        lemma_first_with_prefix(rest, line, after, prefix);
        assert(all.drop_first() =~= rest + seq![line] + after);
    } else {
        assert(all[0] == line);
    }
}

/// The home directory of a user is the sixth field of the line that starts with
/// their name and a colon, the first such line; a user without such a line, or
/// with one of fewer fields, has none.
pub proof fn law_home_is_the_sixth_field(
    before: Seq<Seq<char>>,
    fields: Seq<Seq<char>>,
    after: Seq<Seq<char>>,
)
    requires
        fields.len() >= 2,
        forall|i: int| 0 <= i < fields.len() ==> !(#[trigger] fields[i]).contains(':'),
        ({
            let lines = before + seq![joined(fields, seq![':'])] + after;
            &&& forall|i: int| 0 <= i < lines.len() ==> !(#[trigger] lines[i]).contains('\n')
            &&& forall|i: int|
                0 <= i < lines.len() && (#[trigger] lines[i]).len() > 0 ==> lines[i].last() != '\r'
        }),
        forall|i: int|
            0 <= i < before.len() ==> !has_prefix(#[trigger] before[i], fields[0] + seq![':']),
    ensures
        home_of(unlines(before + seq![joined(fields, seq![':'])] + after), fields[0])
            == if fields.len() > 5 {
            Some(fields[5])
        } else {
            None
        },
{
    reveal_strlit(":");
    assert(":"@ =~= seq![':']);
    let line = joined(fields, seq![':']);
    let lines = before + seq![line] + after;
    law_lines_undo_unlines(lines);
    lemma_joined_start(fields, seq![':']);
    lemma_first_with_prefix(before, line, after, fields[0] + seq![':']);
    law_split_undoes_join(fields, ':');
}

/// A user of whom there is no line has no home directory.
pub proof fn law_unknown_user_has_no_home(lines: Seq<Seq<char>>, username: Seq<char>)
    requires
        forall|i: int|
            0 <= i < lines.len() ==> !has_prefix(#[trigger] lines[i], username + ":"@),
    ensures
        first_with_prefix(lines, username + ":"@) is None,
    decreases lines.len(),
{
    if lines.len() > 0 {
        let rest = lines.drop_first();
        assert forall|i: int| 0 <= i < rest.len() implies !has_prefix(
            #[trigger] rest[i],
            username + ":"@,
        ) by {
            assert(rest[i] == lines[i + 1]);
        }
        law_unknown_user_has_no_home(rest, username);
    }
}

/// A fault that is about a text names it.
pub proof fn law_faults_name_what_is_wrong(s: Seq<char>)
    ensures
        occurs_in(fault_text(ConfigErrorView::UnknownHwMode(s)), s),
        occurs_in(fault_text(ConfigErrorView::UnknownNetworkClass(s)), s),
        occurs_in(fault_text(ConfigErrorView::NotWireless(s)), s),
{
    law_occurrence(s, s, "unknown hw_mode '"@, "', expected b/g/a"@);
    law_occurrence(s, s, "unknown network_class '"@, "', expected a/b/c"@);
    law_occurrence(s, s, "'"@, "' is not a wireless interface — list interfaces with: iw dev"@);
}

// ---------------------------------------------------------------------------
// Operations
// ---------------------------------------------------------------------------

impl Default for NetworkClass {
    fn default() -> (res: Self)
        ensures
            res == NetworkClass::C,
    {
        NetworkClass::C
    }
}

impl Default for HwMode {
    fn default() -> (res: Self)
        ensures
            res == HwMode::G,
    {
        HwMode::G
    }
}

impl NetworkClass {
    /// The gateway, the addresses to give out and the network address.
    pub fn defaults(&self) -> (res: (&'static str, DhcpRange, &'static str))
        ensures
            res.0@ == class_gateway(*self),
            res.1@ == class_range(*self),
            res.2@ == class_network(*self),
    {
        match self {
            NetworkClass::A => (
                "10.0.0.1",
                DhcpRange {
                    start: "10.0.0.10".to_owned(),
                    end: "10.0.0.250".to_owned(),
                    netmask: "255.0.0.0".to_owned(),
                },
                "10.0.0.0",
            ),
            NetworkClass::B => (
                "172.16.0.1",
                DhcpRange {
                    start: "172.16.0.10".to_owned(),
                    end: "172.16.0.250".to_owned(),
                    netmask: "255.240.0.0".to_owned(),
                },
                "172.16.0.0",
            ),
            NetworkClass::C => (
                "192.168.100.1",
                DhcpRange {
                    start: "192.168.100.10".to_owned(),
                    end: "192.168.100.250".to_owned(),
                    netmask: "255.255.255.0".to_owned(),
                },
                "192.168.100.0",
            ),
        }
    }

    /// The letter of the class.
    pub fn letter(&self) -> (res: &'static str)
        ensures
            res@ == class_letter(*self),
    {
        match self {
            NetworkClass::A => "a",
            NetworkClass::B => "b",
            NetworkClass::C => "c",
        }
    }

    /// The class that a letter in lower case stands for.
    pub fn from_lower(lower: &str) -> (res: Result<Self, ConfigError>)
        ensures
            match class_of(lower@) {
                Some(c) => res == Ok::<NetworkClass, ConfigError>(c),
                None => res matches Err(e) && e@ == ConfigErrorView::UnknownNetworkClass(lower@),
            },
    {
        if str_eq(lower, "a") {
            Ok(NetworkClass::A)
        } else if str_eq(lower, "b") {
            Ok(NetworkClass::B)
        } else if str_eq(lower, "c") {
            Ok(NetworkClass::C)
        } else {
            Err(ConfigError::UnknownNetworkClass(lower.to_owned()))
        }
    }
}

impl HwMode {
    /// The letter of the mode.
    pub fn as_str(&self) -> (res: &'static str)
        ensures
            res@ == mode_letter(*self),
    {
        match self {
            HwMode::B => "b",
            HwMode::G => "g",
            HwMode::A => "a",
        }
    }

    /// The mode that a letter in lower case stands for.
    pub fn from_lower(lower: &str) -> (res: Result<Self, ConfigError>)
        ensures
            match mode_of(lower@) {
                Some(m) => res == Ok::<HwMode, ConfigError>(m),
                None => res matches Err(e) && e@ == ConfigErrorView::UnknownHwMode(lower@),
            },
    {
        if str_eq(lower, "b") {
            Ok(HwMode::B)
        } else if str_eq(lower, "g") {
            Ok(HwMode::G)
        } else if str_eq(lower, "a") {
            Ok(HwMode::A)
        } else {
            Err(ConfigError::UnknownHwMode(lower.to_owned()))
        }
    }
}

impl DhcpRange {
    /// A copy.
    fn copy(&self) -> (res: Self)
        ensures
            res@ == self@,
    {
        DhcpRange {
            start: self.start.clone(),
            end: self.end.clone(),
            netmask: self.netmask.clone(),
        }
    }
}

impl Default for Config {
    fn default() -> (res: Self)
        ensures
            res@ == default_config(),
    {
        Config {
            interface: String::new(),
            ssid: String::new(),
            passphrase: None,
            channel: 6,
            hw_mode: HwMode::default(),
            network_class: NetworkClass::default(),
            gateway: None,
            dhcp_range: None,
            dhcp_lease: "12h".to_owned(),
            upstream: None,
            hidden: false,
            ieee80211n: true,
            ieee80211ac: false,
            country_code: "CH".to_owned(),
        }
    }
}

impl Config {
    /// The gateway: the one that is set, else that of the network class.
    pub fn resolved_gateway(&self) -> (res: String)
        ensures
            res@ == self@.gateway_text(),
    {
        match &self.gateway {
            Some(g) => g.clone(),
            None => self.network_class.defaults().0.to_owned(),
        }
    }

    /// The addresses that are given out: those that are set, else those of the
    /// network class.
    pub fn resolved_dhcp_range(&self) -> (res: DhcpRange)
        ensures
            res@ == self@.range(),
    {
        match &self.dhcp_range {
            Some(r) => r.copy(),
            None => self.network_class.defaults().1,
        }
    }

    /// Refuses a name of the network or a passphrase of the wrong length.
    pub fn validate(&self) -> (res: Result<(), ConfigError>)
        ensures
            match self@.fault() {
                Some(fault) => res matches Err(e) && e@ == fault,
                None => res is Ok,
            },
    {
        let n: usize = self.ssid.as_str().unicode_len();
        if n == 0 || n > 32 {
            return Err(ConfigError::SsidLength);
        }
        if let Some(pw) = &self.passphrase {
            let m: usize = pw.as_str().unicode_len();
            if m < 8 || m > 63 {
                return Err(ConfigError::PassphraseLength);
            }
        }
        Ok(())
    }

    /// Where the configuration is read from: the file of the user who called
    /// `sudo` if there is one, else the file of the current user if there is
    /// one.
    pub fn load_source(sudo_file_exists: bool, xdg_file_exists: bool) -> (res: ConfigSource)
        ensures
            res == if sudo_file_exists {
                ConfigSource::SudoUser
            } else if xdg_file_exists {
                ConfigSource::Xdg
            } else {
                ConfigSource::Nothing
            },
    {
        if sudo_file_exists {
            ConfigSource::SudoUser
        } else if xdg_file_exists {
            ConfigSource::Xdg
        } else {
            ConfigSource::Nothing
        }
    }
}

impl ConfigError {
    /// What the fault is reported as.
    pub fn message(&self) -> (res: String)
        ensures
            res@ == fault_text(self@),
    {
        match self {
            ConfigError::SsidLength => "ssid must be 1–32 characters".to_owned(),
            ConfigError::PassphraseLength =>
                "passphrase must be 8–63 characters (WPA2 PSK requirement)".to_owned(),
            ConfigError::InterfaceMissing =>
                "interface is required — set it in config.toml or pass --interface".to_owned(),
            ConfigError::UnknownHwMode(s) => "unknown hw_mode '".to_owned().concat(
                s.as_str(),
            ).concat("', expected b/g/a"),
            ConfigError::UnknownNetworkClass(s) => "unknown network_class '".to_owned().concat(
                s.as_str(),
            ).concat("', expected a/b/c"),
            ConfigError::NotWireless(s) => "'".to_owned().concat(s.as_str()).concat(
                "' is not a wireless interface — list interfaces with: iw dev",
            ),
        }
    }
}

/// The path `relative` below the directory `base`.
pub fn path_below(base: &str, relative: &str) -> (res: String)
    ensures
        res@ == below(base@, relative@),
{
    let n: usize = base.unicode_len();
    if n == 0 || base.get_char(n - 1) == '/' {
        base.to_owned().concat(relative)
    } else {
        base.to_owned().concat("/").concat(relative)
    }
}

/// The configuration file of the user `username`, as far as the user database
/// `passwd` knows their home directory.
pub fn sudo_user_config_path(passwd: &str, username: &str) -> (res: Option<String>)
    ensures
        match home_of(passwd@, username@) {
            Some(home) => res matches Some(path) && path@ == below(
                home,
                ".config/heisspunk/config.toml"@,
            ),
            None => res is None,
        },
{
    let prefix: String = username.to_owned().concat(":");
    let all: Vec<String> = lines(passwd);
    let n: usize = all.len();
    let mut i: usize = 0;
    let ghost rows = lines_of(passwd@);
    assert(rows.skip(0) =~= rows);
    while i < n
        invariant
            i <= n,
            n == all@.len(),
            rows == texts(all@),
            rows == lines_of(passwd@),
            prefix@ == username@ + ":"@,
            first_with_prefix(rows, prefix@) == first_with_prefix(rows.skip(i as int), prefix@),
        decreases n - i,
    {
        let line: &str = all[i].as_str();
        assert(rows.skip(i as int)[0] == line@);
        if starts_with(line, prefix.as_str()) {
            let fields: Vec<String> = split(line, ':');
            assert(first_with_prefix(rows, prefix@) == Some(line@));
            if fields.len() <= 5 {
                return None;
            }
            assert(texts(fields@)[5] == fields@[5]@);
            return Some(path_below(fields[5].as_str(), ".config/heisspunk/config.toml"));
        }
        assert(rows.skip(i as int).drop_first() =~= rows.skip(i + 1));
        i = i + 1;
    }
    None
}

} // verus!
