//! Settings from the command line, and how they go together with those of the
//! configuration file.
use vstd::prelude::*;
use vstd::string::*;
use vstd::utf8::*;

use crate::config::{
    class_of, default_config, mode_of, opt_text, outcome, Config, ConfigError, ConfigErrorView,
    ConfigView, HwMode, NetworkClass,
};
use crate::text::{lemma_split_last, lemma_split_single, split_on};
use crate::unicode::{ascii_lower, lowercase, to_lowercase};

verus! {

broadcast use vstd::string::group_string_axioms;

/// What the command line says about the hotspot.
#[derive(Debug, Clone)]
pub struct StartArgs {
    pub interface: Option<String>,
    pub ssid: Option<String>,
    pub passphrase: Option<String>,
    pub channel: Option<u8>,
    pub hw_mode: Option<String>,
    pub network_class: Option<String>,
    pub upstream: Option<String>,
    pub country_code: Option<String>,
    pub hidden: bool,
    pub ieee80211ac: bool,
}

#[verifier::ext_equal]
pub struct StartArgsView {
    pub interface: Option<Seq<char>>,
    pub ssid: Option<Seq<char>>,
    pub passphrase: Option<Seq<char>>,
    pub channel: Option<u8>,
    pub hw_mode: Option<Seq<char>>,
    pub network_class: Option<Seq<char>>,
    pub upstream: Option<Seq<char>>,
    pub country_code: Option<Seq<char>>,
    pub hidden: bool,
    pub ieee80211ac: bool,
}

impl View for StartArgs {
    type V = StartArgsView;

    open spec fn view(&self) -> StartArgsView {
        StartArgsView {
            interface: opt_text(self.interface),
            ssid: opt_text(self.ssid),
            passphrase: opt_text(self.passphrase),
            channel: self.channel,
            hw_mode: opt_text(self.hw_mode),
            network_class: opt_text(self.network_class),
            upstream: opt_text(self.upstream),
            country_code: opt_text(self.country_code),
            hidden: self.hidden,
            ieee80211ac: self.ieee80211ac,
        }
    }
}

// ---------------------------------------------------------------------------
// Model
// ---------------------------------------------------------------------------

/// `flag` if it is given, else `setting`.
pub open spec fn prefer<T>(flag: Option<T>, setting: T) -> T {
    match flag {
        Some(v) => v,
        None => setting,
    }
}

/// `flag` if it is given, else `setting`, which may be missing too.
pub open spec fn prefer_given<T>(flag: Option<T>, setting: Option<T>) -> Option<T> {
    if flag is Some {
        flag
    } else {
        setting
    }
}

/// The lower case of a text that may be missing.
pub open spec fn opt_lowercase(s: Option<Seq<char>>) -> Option<Seq<char>> {
    match s {
        Some(s) => Some(lowercase(s)),
        None => None,
    }
}

/// The settings `cfg`, overridden by the flags `args`, of which the radio mode
/// is `mode` and the network class is `class` in lower case. A mode that does
/// not exist is refused first, then a class.
pub open spec fn merged(
    cfg: ConfigView,
    args: StartArgsView,
    mode: Option<Seq<char>>,
    class: Option<Seq<char>>,
) -> Result<ConfigView, ConfigErrorView> {
    if mode is Some && mode_of(mode->0) is None {
        Err(ConfigErrorView::UnknownHwMode(mode->0))
    } else if class is Some && class_of(class->0) is None {
        Err(ConfigErrorView::UnknownNetworkClass(class->0))
    } else {
        Ok(
            ConfigView {
                interface: prefer(args.interface, cfg.interface),
                ssid: prefer(args.ssid, cfg.ssid),
                passphrase: prefer_given(args.passphrase, cfg.passphrase),
                channel: prefer(args.channel, cfg.channel),
                hw_mode: match mode {
                    Some(m) => mode_of(m)->0,
                    None => cfg.hw_mode,
                },
                network_class: match class {
                    Some(c) => class_of(c)->0,
                    None => cfg.network_class,
                },
                upstream: prefer_given(args.upstream, cfg.upstream),
                hidden: args.hidden || cfg.hidden,
                ieee80211ac: args.ieee80211ac || cfg.ieee80211ac,
                country_code: prefer(args.country_code, cfg.country_code),
                ..cfg
            },
        )
    }
}

/// The settings `cfg`, unless something is wrong with them.
pub open spec fn checked(cfg: ConfigView) -> Result<ConfigView, ConfigErrorView> {
    if cfg.fault() is Some {
        Err(cfg.fault()->0)
    } else if cfg.interface.len() == 0 {
        Err(ConfigErrorView::InterfaceMissing)
    } else {
        Ok(cfg)
    }
}

/// The settings that the hotspot runs with: those of the file `loaded`, or the
/// defaults, overridden by the flags, unless something is wrong with them.
pub open spec fn resolved(
    loaded: Option<ConfigView>,
    args: StartArgsView,
    mode: Option<Seq<char>>,
    class: Option<Seq<char>>,
) -> Result<ConfigView, ConfigErrorView> {
    match merged(prefer(loaded, default_config()), args, mode, class) {
        Ok(cfg) => checked(cfg),
        Err(fault) => Err(fault),
    }
}

/// The settings of a file that may be missing.
pub open spec fn opt_config(cfg: Option<Config>) -> Option<ConfigView> {
    match cfg {
        Some(c) => Some(c@),
        None => None,
    }
}

/// The file that a wireless interface has.
pub open spec fn phy_link(iface: Seq<char>) -> Seq<char> {
    "/sys/class/net/"@ + iface + "/phy80211"@
}

/// The directory that a wireless interface has with an older driver.
pub open spec fn wireless_dir(iface: Seq<char>) -> Seq<char> {
    "/sys/class/net/"@ + iface + "/wireless"@
}

// ---------------------------------------------------------------------------
// Laws
// ---------------------------------------------------------------------------

/// A flag that is given takes precedence over the configuration file.
pub proof fn law_flags_take_precedence(
    cfg: ConfigView,
    args: StartArgsView,
    mode: Option<Seq<char>>,
    class: Option<Seq<char>>,
)
    requires
        merged(cfg, args, mode, class) is Ok,
    ensures
        ({
            let res = merged(cfg, args, mode, class)->Ok_0;
            &&& args.interface matches Some(v) ==> res.interface == v
            &&& args.ssid matches Some(v) ==> res.ssid == v
            &&& args.passphrase is Some ==> res.passphrase == args.passphrase
            &&& args.channel matches Some(v) ==> res.channel == v
            &&& args.upstream is Some ==> res.upstream == args.upstream
            &&& args.country_code matches Some(v) ==> res.country_code == v
            &&& args.hidden ==> res.hidden
            &&& args.ieee80211ac ==> res.ieee80211ac
            &&& mode matches Some(m) ==> mode_of(m) == Some(res.hw_mode)
            &&& class matches Some(c) ==> class_of(c) == Some(res.network_class)
        }),
{
}

/// The settings without flags for them are those of the configuration file;
/// there are no flags for the gateway, the addresses to give out, the time of
/// a lease and 802.11n.
pub proof fn law_other_settings_stay(
    cfg: ConfigView,
    args: StartArgsView,
    mode: Option<Seq<char>>,
    class: Option<Seq<char>>,
)
    requires
        merged(cfg, args, mode, class) is Ok,
    ensures
        ({
            let res = merged(cfg, args, mode, class)->Ok_0;
            &&& res.gateway == cfg.gateway
            &&& res.dhcp_range == cfg.dhcp_range
            &&& res.dhcp_lease == cfg.dhcp_lease
            &&& res.ieee80211n == cfg.ieee80211n
            &&& args.interface is None ==> res.interface == cfg.interface
            &&& args.ssid is None ==> res.ssid == cfg.ssid
            &&& args.passphrase is None ==> res.passphrase == cfg.passphrase
            &&& args.channel is None ==> res.channel == cfg.channel
            &&& args.upstream is None ==> res.upstream == cfg.upstream
            &&& args.country_code is None ==> res.country_code == cfg.country_code
            &&& !args.hidden ==> res.hidden == cfg.hidden
            &&& !args.ieee80211ac ==> res.ieee80211ac == cfg.ieee80211ac
            &&& mode is None ==> res.hw_mode == cfg.hw_mode
            &&& class is None ==> res.network_class == cfg.network_class
        }),
{
}

/// Settings that pass are complete: an interface and a name of the network of
/// 1 to 32 characters, and a passphrase of 8 to 63 characters or none.
pub proof fn law_resolved_settings_are_complete(
    loaded: Option<ConfigView>,
    args: StartArgsView,
    mode: Option<Seq<char>>,
    class: Option<Seq<char>>,
)
    requires
        resolved(loaded, args, mode, class) is Ok,
    ensures
        ({
            let cfg = resolved(loaded, args, mode, class)->Ok_0;
            &&& cfg.interface.len() > 0
            &&& 1 <= cfg.ssid.len() <= 32
            &&& cfg.passphrase matches Some(pw) ==> 8 <= pw.len() <= 63
            &&& checked(cfg) == Ok::<ConfigView, ConfigErrorView>(cfg)
        }),
{
}

/// Flags are refused exactly if the radio mode or the network class that they
/// name does not exist: the mode first.
pub proof fn law_only_unknown_letters_are_refused(
    cfg: ConfigView,
    args: StartArgsView,
    mode: Option<Seq<char>>,
    class: Option<Seq<char>>,
)
    ensures
        ({
            let bad_mode = mode matches Some(m) && m != "b"@ && m != "g"@ && m != "a"@;
            let bad_class = class matches Some(c) && c != "a"@ && c != "b"@ && c != "c"@;
            let res = merged(cfg, args, mode, class);
            &&& res is Err == (bad_mode || bad_class)
            &&& bad_mode ==> res == Err::<ConfigView, ConfigErrorView>(
                ConfigErrorView::UnknownHwMode(mode->0),
            )
            &&& !bad_mode && bad_class ==> res == Err::<ConfigView, ConfigErrorView>(
                ConfigErrorView::UnknownNetworkClass(class->0),
            )
        }),
{
}

/// Settings are refused exactly if something is wrong with them, and else come
/// out as they went in. Without a configuration file the defaults take its
/// place.
pub proof fn law_settings_are_resolved(
    loaded: Option<ConfigView>,
    args: StartArgsView,
    mode: Option<Seq<char>>,
    class: Option<Seq<char>>,
)
    ensures
        ({
            let base = match loaded {
                Some(cfg) => cfg,
                None => default_config(),
            };
            let res = resolved(loaded, args, mode, class);
            match merged(base, args, mode, class) {
                Err(fault) => res == Err::<ConfigView, ConfigErrorView>(fault),
                Ok(cfg) => {
                    let name_fits = 1 <= cfg.ssid.len() && cfg.ssid.len() <= 32;
                    let pass_fits = cfg.passphrase matches Some(pw) ==> 8 <= pw.len() && pw.len()
                        <= 63;
                    let named = cfg.interface.len() > 0;
                    &&& res is Ok == (name_fits && pass_fits && named)
                    &&& res is Ok ==> res->Ok_0 == cfg
                    &&& !name_fits ==> res == Err::<ConfigView, ConfigErrorView>(
                        ConfigErrorView::SsidLength,
                    )
                    &&& name_fits && !pass_fits ==> res == Err::<ConfigView, ConfigErrorView>(
                        ConfigErrorView::PassphraseLength,
                    )
                    &&& name_fits && pass_fits && !named ==> res == Err::<
                        ConfigView,
                        ConfigErrorView,
                    >(ConfigErrorView::InterfaceMissing)
                },
            }
        }),
{
}

/// The files that mark a wireless interface stand in its directory below that
/// of all interfaces.
pub proof fn law_marks_of_a_wireless_interface(iface: Seq<char>)
    requires
        !iface.contains('/'),
    ensures
        split_on(phy_link(iface), '/') == seq![
            Seq::<char>::empty(),
            "sys"@,
            "class"@,
            "net"@,
            iface,
            "phy80211"@,
        ],
        split_on(wireless_dir(iface), '/') == seq![
            Seq::<char>::empty(),
            "sys"@,
            "class"@,
            "net"@,
            iface,
            "wireless"@,
        ],
{
    lemma_interface_file(iface, "phy80211"@, "/phy80211"@);
    lemma_interface_file(iface, "wireless"@, "/wireless"@);
}

proof fn lemma_interface_file(iface: Seq<char>, file: Seq<char>, tail: Seq<char>)
    requires
        !iface.contains('/'),
        (file == "phy80211"@ && tail == "/phy80211"@) || (file == "wireless"@ && tail
            == "/wireless"@),
    ensures
        split_on("/sys/class/net/"@ + iface + tail, '/') == seq![
            Seq::<char>::empty(),
            "sys"@,
            "class"@,
            "net"@,
            iface,
            file,
        ],
{
    reveal_strlit("/sys/class/net/");
    reveal_strlit("sys");
    reveal_strlit("class");
    reveal_strlit("net");
    reveal_strlit("phy80211");
    reveal_strlit("/phy80211");
    reveal_strlit("wireless");
    reveal_strlit("/wireless");
    let none = Seq::<char>::empty();
    assert(!file.contains('/'));
    assert(tail =~= seq!['/'] + file);
    assert(!"sys"@.contains('/') && !"class"@.contains('/') && !"net"@.contains('/'));
    let p0 = none;
    let p1 = p0.push('/') + "sys"@;
    let p2 = p1.push('/') + "class"@;
    let p3 = p2.push('/') + "net"@;
    let p4 = p3.push('/') + iface;
    let p5 = p4.push('/') + file;
    lemma_split_single(p0, '/');
    lemma_split_last(p0, "sys"@, '/');
    lemma_split_last(p1, "class"@, '/');
    lemma_split_last(p2, "net"@, '/');
    lemma_split_last(p3, iface, '/');
    lemma_split_last(p4, file, '/');
    assert(p3.push('/') =~= "/sys/class/net/"@);
    assert(p5 =~= "/sys/class/net/"@ + iface + tail);
}

// ---------------------------------------------------------------------------
// Operations
// ---------------------------------------------------------------------------

impl Default for StartArgs {
    fn default() -> (res: Self)
        ensures
            res@ == (StartArgsView {
                interface: None,
                ssid: None,
                passphrase: None,
                channel: None,
                hw_mode: None,
                network_class: None,
                upstream: None,
                country_code: None,
                hidden: false,
                ieee80211ac: false,
            }),
    {
        StartArgs {
            interface: None,
            ssid: None,
            passphrase: None,
            channel: None,
            hw_mode: None,
            network_class: None,
            upstream: None,
            country_code: None,
            hidden: false,
            ieee80211ac: false,
        }
    }
}

/// The settings `cfg`, overridden by the flags `args`, whose radio mode and
/// network class are given in lower case.
pub fn apply_args(
    cfg: Config,
    args: StartArgs,
    mode: Option<String>,
    class: Option<String>,
) -> (res: Result<Config, ConfigError>)
    ensures
        outcome(res) == merged(cfg@, args@, opt_text(mode), opt_text(class)),
{
    let hw_mode: HwMode = match &mode {
        Some(m) => match HwMode::from_lower(m.as_str()) {
            Ok(v) => v,
            Err(e) => {
                return Err(e);
            },
        },
        None => cfg.hw_mode,
    };
    let network_class: NetworkClass = match &class {
        Some(c) => match NetworkClass::from_lower(c.as_str()) {
            Ok(v) => v,
            Err(e) => {
                return Err(e);
            },
        },
        None => cfg.network_class,
    };
    Ok(
        Config {
            interface: match args.interface {
                Some(v) => v,
                None => cfg.interface,
            },
            ssid: match args.ssid {
                Some(v) => v,
                None => cfg.ssid,
            },
            passphrase: match args.passphrase {
                Some(v) => Some(v),
                None => cfg.passphrase,
            },
            channel: match args.channel {
                Some(v) => v,
                None => cfg.channel,
            },
            hw_mode,
            network_class,
            gateway: cfg.gateway,
            dhcp_range: cfg.dhcp_range,
            dhcp_lease: cfg.dhcp_lease,
            upstream: match args.upstream {
                Some(v) => Some(v),
                None => cfg.upstream,
            },
            hidden: args.hidden || cfg.hidden,
            ieee80211n: cfg.ieee80211n,
            ieee80211ac: args.ieee80211ac || cfg.ieee80211ac,
            country_code: match args.country_code {
                Some(v) => v,
                None => cfg.country_code,
            },
        },
    )
}

/// The lower case of a text that may be missing.
fn lower_case(s: &Option<String>) -> (res: Option<String>)
    ensures
        opt_text(res) == opt_lowercase(opt_text(*s)),
        *s matches Some(t) ==> is_ascii_chars(t@) ==> res->0@ == t@.map_values(
            |c: char| ascii_lower(c),
        ),
{
    match s {
        Some(t) => Some(to_lowercase(t.as_str())),
        None => None,
    }
}

/// A text that may be missing, its ASCII letters in lower case.
pub open spec fn ascii_lowered(s: Option<Seq<char>>) -> Option<Seq<char>> {
    match s {
        Some(s) => Some(s.map_values(|c: char| ascii_lower(c))),
        None => None,
    }
}

/// A text that may be missing and that is ASCII if it is there.
pub open spec fn opt_is_ascii(s: Option<Seq<char>>) -> bool {
    s matches Some(s) ==> is_ascii_chars(s)
}

/// The settings `cfg`, overridden by the flags `args`. The radio mode and the
/// network class are read without regard to case.
pub fn merge_args(cfg: Config, args: StartArgs) -> (res: Result<Config, ConfigError>)
    ensures
        outcome(res) == merged(
            cfg@,
            args@,
            opt_lowercase(args@.hw_mode),
            opt_lowercase(args@.network_class),
        ),
        opt_is_ascii(args@.hw_mode) && opt_is_ascii(args@.network_class) ==> outcome(res)
            == merged(
            cfg@,
            args@,
            ascii_lowered(args@.hw_mode),
            ascii_lowered(args@.network_class),
        ),
{
    let mode: Option<String> = lower_case(&args.hw_mode);
    let class: Option<String> = lower_case(&args.network_class);
    apply_args(cfg, args, mode, class)
}

/// The settings `cfg`, unless something is wrong with them.
pub fn check_config(cfg: Config) -> (res: Result<Config, ConfigError>)
    ensures
        outcome(res) == checked(cfg@),
{
    match cfg.validate() {
        Ok(()) => if cfg.interface.as_str().is_empty() {
            Err(ConfigError::InterfaceMissing)
        } else {
            Ok(cfg)
        },
        Err(e) => Err(e),
    }
}

/// The settings that the hotspot runs with: those of the file `loaded`, or the
/// defaults, overridden by the flags, unless something is wrong with them.
pub fn resolve_config(loaded: Option<Config>, args: StartArgs) -> (res: Result<Config, ConfigError>)
    ensures
        outcome(res) == resolved(
            opt_config(loaded),
            args@,
            opt_lowercase(args@.hw_mode),
            opt_lowercase(args@.network_class),
        ),
        opt_is_ascii(args@.hw_mode) && opt_is_ascii(args@.network_class) ==> outcome(res)
            == resolved(
            opt_config(loaded),
            args@,
            ascii_lowered(args@.hw_mode),
            ascii_lowered(args@.network_class),
        ),
{
    let base: Config = match loaded {
        Some(c) => c,
        None => Config::default(),
    };
    match merge_args(base, args) {
        Ok(cfg) => check_config(cfg),
        Err(e) => Err(e),
    }
}

/// The file that a wireless interface has.
pub fn phy_link_path(iface: &str) -> (res: String)
    ensures
        res@ == phy_link(iface@),
{
    "/sys/class/net/".to_owned().concat(iface).concat("/phy80211")
}

/// The directory that a wireless interface has with an older driver.
pub fn wireless_dir_path(iface: &str) -> (res: String)
    ensures
        res@ == wireless_dir(iface@),
{
    "/sys/class/net/".to_owned().concat(iface).concat("/wireless")
}

/// Refuses an interface that has neither what marks a wireless one.
pub fn check_wireless_interface(
    iface: &str,
    has_phy_link: bool,
    has_wireless_dir: bool,
) -> (res: Result<(), ConfigError>)
    ensures
        has_phy_link || has_wireless_dir ==> res is Ok,
        !has_phy_link && !has_wireless_dir ==> (res matches Err(e) && e@
            == ConfigErrorView::NotWireless(iface@)),
{
    if !has_phy_link && !has_wireless_dir {
        Err(ConfigError::NotWireless(iface.to_owned()))
    } else {
        Ok(())
    }
}

} // verus!
