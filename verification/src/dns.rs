//! The DNS forwarder: queries of the hotspot go to a public resolver.
use vstd::prelude::*;
use vstd::slice::*;

use crate::config::Config;
use crate::net::{dotted_value, Ipv4Addr, Received};

verus! {

pub const DNS_PORT: u16 = 53;

/// How long the resolver has to answer, in seconds.
pub const TIMEOUT_SECS: u64 = 3;

/// What a DNS forwarder is made from.
#[derive(Debug, Clone, Copy)]
pub struct DnsForwarder {
    pub listen: Ipv4Addr,
    pub port: u16,
}

/// What is to be done before waiting for the next query.
pub enum DnsAction {
    /// Ask `query` of the resolver at the address `to` and the port `to_port`,
    /// and hand the answer to the client.
    Forward { query: Vec<u8>, to: Ipv4Addr, to_port: u16 },
    /// Nothing.
    Wait,
    /// Report that receiving failed.
    Warn,
}

impl DnsForwarder {
    /// A forwarder that listens at the gateway.
    pub fn new(gateway: Ipv4Addr) -> (res: Self)
        ensures
            res.listen == gateway,
            res.port == DNS_PORT,
    {
        DnsForwarder { listen: gateway, port: DNS_PORT }
    }

    /// One turn of forwarding: a query goes as it is to the resolver 1.1.1.1.
    pub fn serve(&self, received: Received) -> (res: DnsAction)
        ensures
            match received {
                Received::Packet(q) => {
                    &&& res matches DnsAction::Forward { query, to, to_port }
                    &&& query@ == q@
                    &&& to.octets() == seq![1u8, 1, 1, 1]
                    &&& to_port == DNS_PORT
                },
                Received::TimedOut => res is Wait,
                Received::Failed => res is Warn,
            },
    {
        match received {
            Received::Packet(q) => DnsAction::Forward {
                query: slice_to_vec(q),
                to: Ipv4Addr::new(1, 1, 1, 1),
                to_port: DNS_PORT,
            },
            Received::TimedOut => DnsAction::Wait,
            Received::Failed => DnsAction::Warn,
        }
    }
}

/// The forwarder of a hotspot: there is none if its gateway is not an address.
pub fn dns_forwarder(cfg: &Config) -> (res: Option<DnsForwarder>)
    ensures
        match dotted_value(cfg@.gateway_text()) {
            Some(gateway) => res matches Some(f) && f.listen == gateway && f.port == DNS_PORT,
            None => res is None,
        },
{
    let gateway: String = cfg.resolved_gateway();
    match Ipv4Addr::parse(gateway.as_str()) {
        Some(a) => Some(DnsForwarder::new(a)),
        None => None,
    }
}

} // verus!
