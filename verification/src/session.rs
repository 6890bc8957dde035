//! One run of the hotspot: the time of a lease, the DHCP server that goes with
//! the settings, and the order in which things are started.
use vstd::prelude::*;
use vstd::string::*;

use crate::config::{Config, ConfigView, DhcpRange};
use crate::dhcp::{address_range, DhcpServer, ServerView};
use crate::net::{dotted_text, dotted_value, law_dotted_reads_back, Ipv4Addr};
use crate::number::{
    decimal, digit_value, law_decimal_reads_back, magnitude, parse_unsigned, unsigned_value,
    without_plus,
};
use crate::text::{chars_of, substring};

verus! {

broadcast use vstd::string::group_string_axioms;

/// Why the DHCP server cannot be started.
#[derive(Debug, Clone, Copy, PartialEq, Eq, Structural)]
pub enum SessionError {
    Gateway,
    RangeStart,
    RangeEnd,
    Netmask,
}

/// The addresses that the DHCP server is made from.
#[derive(Debug, Clone, Copy)]
pub struct DhcpSettings {
    pub gateway: Ipv4Addr,
    pub start: Ipv4Addr,
    pub end: Ipv4Addr,
    pub netmask: Ipv4Addr,
}

/// How far the start of the hotspot is: what is done next.
#[derive(Debug, Clone, Copy, PartialEq, Eq, Structural)]
pub enum Stage {
    /// Give the interface its address.
    Interface,
    /// Set address translation up.
    Nat,
    /// Start the DHCP server.
    Dhcp,
    /// Start the DNS forwarder.
    Dns,
    /// Start `hostapd`.
    Hostapd,
    /// Write down which process `hostapd` is.
    PidFile,
    /// Nothing: the hotspot is up.
    Up,
}

// ---------------------------------------------------------------------------
// Model
// ---------------------------------------------------------------------------

/// The number that `s` writes, or `otherwise`.
pub open spec fn number_or(s: Seq<char>, otherwise: nat) -> nat {
    match unsigned_value(s, 10, 0xffff_ffff) {
        Some(v) => v,
        None => otherwise,
    }
}

/// The seconds that the time of a lease stands for: a number of hours, minutes
/// or seconds by its last letter, of seconds without one. What is not a number
/// stands for 12 hours, 30 minutes or 43200 seconds.
pub open spec fn lease_seconds(s: Seq<char>) -> nat {
    if s.len() > 0 && s.last() == 'h' {
        number_or(s.drop_last(), 12) * 3600
    } else if s.len() > 0 && s.last() == 'm' {
        number_or(s.drop_last(), 30) * 60
    } else if s.len() > 0 && s.last() == 's' {
        number_or(s.drop_last(), 43200)
    } else {
        number_or(s, 43200)
    }
}

/// The first of the addresses in the settings that is none.
pub open spec fn address_fault(cfg: ConfigView) -> Option<SessionError> {
    if dotted_value(cfg.gateway_text()) is None {
        Some(SessionError::Gateway)
    } else if dotted_value(cfg.range().start) is None {
        Some(SessionError::RangeStart)
    } else if dotted_value(cfg.range().end) is None {
        Some(SessionError::RangeEnd)
    } else if dotted_value(cfg.range().netmask) is None {
        Some(SessionError::Netmask)
    } else {
        None
    }
}

/// The addresses that the DHCP server is made from.
pub open spec fn settings_of(cfg: ConfigView) -> DhcpSettings {
    DhcpSettings {
        gateway: dotted_value(cfg.gateway_text())->0,
        start: dotted_value(cfg.range().start)->0,
        end: dotted_value(cfg.range().end)->0,
        netmask: dotted_value(cfg.range().netmask)->0,
    }
}

/// The DHCP server that goes with the settings, without leases.
pub open spec fn server_of(cfg: ConfigView) -> ServerView {
    let s = settings_of(cfg);
    ServerView {
        gateway: s.gateway,
        subnet_mask: s.netmask,
        pool: address_range(s.start.bits() as u32, s.end.bits() as u32),
        lease_secs: lease_seconds(cfg.dhcp_lease) as u32,
        leases: Map::empty(),
    }
}

/// What follows a stage that succeeded.
pub open spec fn stage_after(stage: Stage, has_upstream: bool) -> Stage {
    match stage {
        Stage::Interface => if has_upstream {
            Stage::Nat
        } else {
            Stage::Dhcp
        },
        Stage::Nat => Stage::Dhcp,
        Stage::Dhcp => Stage::Dns,
        Stage::Dns => Stage::Hostapd,
        Stage::Hostapd => Stage::PidFile,
        Stage::PidFile => Stage::Up,
        Stage::Up => Stage::Up,
    }
}

/// The stages of a start, in order.
pub open spec fn stages(has_upstream: bool) -> Seq<Stage> {
    seq![Stage::Interface] + (if has_upstream {
        seq![Stage::Nat]
    } else {
        Seq::empty()
    }) + seq![Stage::Dhcp, Stage::Dns, Stage::Hostapd, Stage::PidFile, Stage::Up]
}

// ---------------------------------------------------------------------------
// Laws
// ---------------------------------------------------------------------------

/// A number stands for so many hours, minutes or seconds by the letter behind
/// it, and for seconds without one.
pub proof fn law_lease_suffixes(n: u32)
    ensures
        lease_seconds(decimal(n as nat).push('h')) == n * 3600,
        lease_seconds(decimal(n as nat).push('m')) == n * 60,
        lease_seconds(decimal(n as nat).push('s')) == n,
        lease_seconds(decimal(n as nat)) == n,
{
    let s = decimal(n as nat);
    law_decimal_reads_back(n as nat);
    assert(s.push('h').drop_last() =~= s);
    assert(s.push('m').drop_last() =~= s);
    assert(s.push('s').drop_last() =~= s);
    assert(digit_value(s[s.len() - 1], 10) is Some);
}

/// What is not a number stands for 12 hours, 30 minutes or 43200 seconds, by its
/// last letter.
pub proof fn law_lease_without_a_number(s: Seq<char>)
    requires
        magnitude(without_plus(s), 10) is None,
    ensures
        lease_seconds(s.push('h')) == 43200,
        lease_seconds(s.push('m')) == 1800,
        lease_seconds(s.push('s')) == 43200,
        s.len() == 0 || (s.last() != 'h' && s.last() != 'm' && s.last() != 's') ==> lease_seconds(s)
            == 43200,
{
    assert(s.push('h').drop_last() =~= s);
    assert(s.push('m').drop_last() =~= s);
    assert(s.push('s').drop_last() =~= s);
}

/// Settings with addresses, as they are written, make a server with them: it
/// gives out the addresses from the first to the last and no others, has no
/// leases, and lets a lease last as long as is set.
pub proof fn law_settings_make_the_server(
    cfg: ConfigView,
    gateway: Ipv4Addr,
    start: Ipv4Addr,
    end: Ipv4Addr,
    netmask: Ipv4Addr,
    ip: Ipv4Addr,
)
    requires
        cfg.gateway_text() == dotted_text(gateway),
        cfg.range().start == dotted_text(start),
        cfg.range().end == dotted_text(end),
        cfg.range().netmask == dotted_text(netmask),
        lease_seconds(cfg.dhcp_lease) <= 0xffff_ffff,
    ensures
        address_fault(cfg) is None,
        server_of(cfg).gateway == gateway,
        server_of(cfg).subnet_mask == netmask,
        server_of(cfg).lease_secs == lease_seconds(cfg.dhcp_lease),
        server_of(cfg).leases == Map::<u64, crate::dhcp::Lease>::empty(),
        server_of(cfg).pool.contains(ip.bits() as u32) == (start.bits() <= ip.bits()
            <= end.bits()),
{
    law_dotted_reads_back(gateway, Seq::empty());
    law_dotted_reads_back(start, Seq::empty());
    law_dotted_reads_back(end, Seq::empty());
    law_dotted_reads_back(netmask, Seq::empty());
    crate::dhcp::law_range_holds_what_lies_between(
        start.bits() as u32,
        end.bits() as u32,
        ip.bits() as u32,
        0,
        0,
    );
}

/// A text in the place of an address that is not written as one is told, the
/// gateway first, then the first address, the last one and the netmask.
pub proof fn law_faulty_address_is_told(cfg: ConfigView)
    ensures
        ({
            let fault = address_fault(cfg);
            let gateway = exists|x: Ipv4Addr| cfg.gateway_text() == #[trigger] dotted_text(x);
            let start = exists|x: Ipv4Addr| cfg.range().start == #[trigger] dotted_text(x);
            let end = exists|x: Ipv4Addr| cfg.range().end == #[trigger] dotted_text(x);
            let netmask = exists|x: Ipv4Addr| cfg.range().netmask == #[trigger] dotted_text(x);
            &&& !gateway ==> fault == Some(SessionError::Gateway)
            &&& gateway && !start ==> fault == Some(SessionError::RangeStart)
            &&& gateway && start && !end ==> fault == Some(SessionError::RangeEnd)
            &&& gateway && start && end && !netmask ==> fault == Some(SessionError::Netmask)
            &&& gateway && start && end && netmask ==> fault is None
        }),
{
    lemma_dotted_or_not(cfg.gateway_text());
    lemma_dotted_or_not(cfg.range().start);
    lemma_dotted_or_not(cfg.range().end);
    lemma_dotted_or_not(cfg.range().netmask);
}

proof fn lemma_dotted_or_not(s: Seq<char>)
    ensures
        dotted_value(s) is Some == exists|x: Ipv4Addr| s == #[trigger] dotted_text(x),
{
    if dotted_value(s) is Some {
        law_dotted_reads_back(dotted_value(s)->0, s);
    }
    if exists|x: Ipv4Addr| s == #[trigger] dotted_text(x) {
        let x = choose|x: Ipv4Addr| s == #[trigger] dotted_text(x);
        law_dotted_reads_back(x, s);
    }
}

/// A start of which every stage succeeds goes through all of them in order,
/// and sets address translation up exactly if there is an interface for it.
pub proof fn law_stages_in_order(has_upstream: bool, i: int)
    requires
        0 <= i < stages(has_upstream).len() - 1,
    ensures
        stages(has_upstream)[0] == Stage::Interface,
        stage_after(stages(has_upstream)[i], has_upstream) == stages(has_upstream)[i + 1],
        stages(has_upstream).last() == Stage::Up,
{
}

/// No stage is gone through twice, and each comes behind those that it needs:
/// the services behind the interface and the address translation, the DNS
/// forwarder behind the DHCP server, `hostapd` behind both, and what names it
/// last.
pub proof fn law_stages_stand_behind_what_they_need(has_upstream: bool, i: int, j: int)
    requires
        0 <= i < j < stages(has_upstream).len(),
    ensures
        ({
            let first = stages(has_upstream)[i];
            let later = stages(has_upstream)[j];
            &&& first != later
            &&& later != Stage::Interface
            &&& later == Stage::Nat ==> first == Stage::Interface
            &&& later == Stage::Dhcp ==> first == Stage::Interface || first == Stage::Nat
            &&& first == Stage::Dns ==> later != Stage::Dhcp
            &&& first == Stage::Hostapd ==> later == Stage::PidFile || later == Stage::Up
            &&& first == Stage::PidFile ==> later == Stage::Up
            &&& first != Stage::Up
        }),
        has_upstream == stages(has_upstream).contains(Stage::Nat),
        stages(has_upstream).contains(Stage::Dhcp),
        stages(has_upstream).contains(Stage::Dns),
        stages(has_upstream).contains(Stage::Hostapd),
        stages(has_upstream).contains(Stage::PidFile),
{
    let all = stages(has_upstream);
    let n = all.len() as int;
    assert(all[n - 5] == Stage::Dhcp);
    assert(all[n - 4] == Stage::Dns);
    assert(all[n - 3] == Stage::Hostapd);
    assert(all[n - 2] == Stage::PidFile);
    if has_upstream {
        assert(all[1] == Stage::Nat);
    }
}

// ---------------------------------------------------------------------------
// Operations
// ---------------------------------------------------------------------------

/// Reads a decimal number.
fn read_number(s: &str, otherwise: u32) -> (res: u32)
    ensures
        res == number_or(s@, otherwise as nat),
{
    match parse_unsigned(s, 10, 0xffff_ffff) {
        Some(v) => v,
        None => otherwise,
    }
}

/// `n` times `factor`, if that is a `u32`.
fn scaled(n: u32, factor: u32) -> (res: Option<u32>)
    ensures
        n * factor <= 0xffff_ffff ==> res == Some((n * factor) as u32),
        n * factor > 0xffff_ffff ==> res is None,
{
    assert(n * factor <= 0xffff_ffff * 0xffff_ffff) by (nonlinear_arith)
        requires
            n <= 0xffff_ffff,
            factor <= 0xffff_ffff,
    ;
    let v: u64 = (n as u64) * (factor as u64);
    if v <= 0xffff_ffff {
        Some(v as u32)
    } else {
        None
    }
}

/// The seconds that the time of a lease stands for, as far as they are a
/// `u32`.
pub fn checked_lease_secs(s: &str) -> (res: Option<u32>)
    ensures
        lease_seconds(s@) <= 0xffff_ffff ==> res == Some(lease_seconds(s@) as u32),
        lease_seconds(s@) > 0xffff_ffff ==> res is None,
{
    let x: Vec<char> = chars_of(s);
    let n: usize = x.len();
    if n == 0 {
        return Some(read_number(s, 43200));
    }
    let last: char = x[n - 1];
    let init: String = substring(s, 0, n - 1);
    assert(init@ =~= s@.drop_last());
    if last == 'h' {
        scaled(read_number(init.as_str(), 12), 3600)
    } else if last == 'm' {
        scaled(read_number(init.as_str(), 30), 60)
    } else if last == 's' {
        Some(read_number(init.as_str(), 43200))
    } else {
        Some(read_number(s, 43200))
    }
}

/// The seconds that the time of a lease stands for.
pub fn parse_lease_secs(s: &str) -> (res: u32)
    requires
        lease_seconds(s@) <= 0xffff_ffff,
    ensures
        res == lease_seconds(s@),
{
    match checked_lease_secs(s) {
        Some(v) => v,
        None => 0,
    }
}

impl SessionError {
    /// What the fault is reported as.
    pub fn message(&self) -> (res: &'static str)
        ensures
            res@ == match self {
                SessionError::Gateway => "parsing gateway"@,
                SessionError::RangeStart => "parsing DHCP range start"@,
                SessionError::RangeEnd => "parsing DHCP range end"@,
                SessionError::Netmask => "parsing subnet mask"@,
            },
    {
        match self {
            SessionError::Gateway => "parsing gateway",
            SessionError::RangeStart => "parsing DHCP range start",
            SessionError::RangeEnd => "parsing DHCP range end",
            SessionError::Netmask => "parsing subnet mask",
        }
    }
}

/// The addresses that the DHCP server is made from.
pub fn dhcp_settings(cfg: &Config) -> (res: Result<DhcpSettings, SessionError>)
    ensures
        match address_fault(cfg@) {
            Some(fault) => res == Err::<DhcpSettings, SessionError>(fault),
            None => res == Ok::<DhcpSettings, SessionError>(settings_of(cfg@)),
        },
{
    let text: String = cfg.resolved_gateway();
    let range: DhcpRange = cfg.resolved_dhcp_range();
    let gateway: Ipv4Addr = match Ipv4Addr::parse(text.as_str()) {
        Some(a) => a,
        None => {
            return Err(SessionError::Gateway);
        },
    };
    let start: Ipv4Addr = match Ipv4Addr::parse(range.start.as_str()) {
        Some(a) => a,
        None => {
            return Err(SessionError::RangeStart);
        },
    };
    let end: Ipv4Addr = match Ipv4Addr::parse(range.end.as_str()) {
        Some(a) => a,
        None => {
            return Err(SessionError::RangeEnd);
        },
    };
    let netmask: Ipv4Addr = match Ipv4Addr::parse(range.netmask.as_str()) {
        Some(a) => a,
        None => {
            return Err(SessionError::Netmask);
        },
    };
    Ok(DhcpSettings { gateway, start, end, netmask })
}

/// The DHCP server that goes with the settings.
pub fn dhcp_server(cfg: &Config) -> (res: Result<DhcpServer, SessionError>)
    requires
        address_fault(cfg@) is None ==> lease_seconds(cfg.dhcp_lease@) <= 0xffff_ffff,
    ensures
        match address_fault(cfg@) {
            Some(fault) => res matches Err(e) && e == fault,
            None => res matches Ok(server) && server@ == server_of(cfg@),
        },
{
    match dhcp_settings(cfg) {
        Ok(s) => Ok(
            DhcpServer::new(
                s.gateway,
                s.start,
                s.end,
                s.netmask,
                parse_lease_secs(cfg.dhcp_lease.as_str()),
            ),
        ),
        Err(e) => Err(e),
    }
}

/// What follows a stage: nothing, if it failed. That the DNS forwarder does
/// not start stops nothing.
pub fn next_stage(stage: Stage, success: bool, has_upstream: bool) -> (res: Option<Stage>)
    ensures
        res == if success || stage == Stage::Dns || stage == Stage::Up {
            Some(stage_after(stage, has_upstream))
        } else {
            None
        },
{
    match stage {
        Stage::Dns => Some(Stage::Hostapd),
        Stage::Up => Some(Stage::Up),
        _ => if !success {
            None
        } else {
            match stage {
                Stage::Interface => if has_upstream {
                    Some(Stage::Nat)
                } else {
                    Some(Stage::Dhcp)
                },
                Stage::Nat => Some(Stage::Dhcp),
                Stage::Dhcp => Some(Stage::Dns),
                Stage::Hostapd => Some(Stage::PidFile),
                _ => Some(Stage::Up),
            }
        },
    }
}

} // verus!
