//! The DHCP server: which address a client gets, and what it is answered.
use std::collections::{HashMap, HashSet};
use vstd::prelude::*;
use vstd::slice::*;

use crate::net::{
    address, law_address_of_bits, law_bits_order_addresses, Ipv4Addr, Received,
};
use crate::wire::{
    address_of, build_nak, build_reply, byte_values, check_packet, client_mac, is_client_message,
    lease_reply, message_options, message_type, nak_reply, parse_options, requested_address,
    transaction_id, type_of_options, DHCPACK, DHCPDISCOVER, DHCPNAK, DHCPOFFER, DHCPRELEASE,
    DHCPREQUEST,
};

verus! {

broadcast use vstd::std_specs::hash::group_hash_axioms;

pub const SERVER_PORT: u16 = 67;

pub const CLIENT_PORT: u16 = 68;

/// The latest time that the server can be given: a lease that starts then
/// ends at a time that is still a `u128`.
pub const LATEST: u128 = 0xffff_ffff_ffff_ffff_ffff_ffff;

/// An address that was given to a client, as a number, and the time in
/// nanoseconds up to which it was given.
#[derive(Debug, Clone, Copy)]
pub struct Lease {
    pub ip: u32,
    pub expires: u128,
}

/// What a DHCP server is made from and what it remembers.
pub struct ServerView {
    pub gateway: Ipv4Addr,
    pub subnet_mask: Ipv4Addr,
    /// The addresses that it gives out, in the order in which it looks at them.
    pub pool: Seq<u32>,
    pub lease_secs: u32,
    /// The leases, by hardware address.
    pub leases: Map<u64, Lease>,
}

pub struct DhcpServer {
    gateway: Ipv4Addr,
    subnet_mask: Ipv4Addr,
    pool: Vec<u32>,
    lease_secs: u32,
    leases: HashMap<u64, Lease>,
}

// ---------------------------------------------------------------------------
// Model
// ---------------------------------------------------------------------------

/// The number that a hardware address of six bytes is filed under.
pub open spec fn mac_number(mac: Seq<u8>) -> u64 {
    (mac[0] * 0x100_0000_0000 + mac[1] * 0x1_0000_0000 + mac[2] * 0x100_0000 + mac[3] * 0x1_0000
        + mac[4] * 0x100 + mac[5]) as u64
}

/// The numbers from `start` to `end`, both among them.
pub open spec fn address_range(start: u32, end: u32) -> Seq<u32> {
    if start <= end {
        Seq::new((end - start + 1) as nat, |i: int| (start + i) as u32)
    } else {
        Seq::empty()
    }
}

/// Some lease on `ip` has not expired at `now`.
pub open spec fn in_use(leases: Map<u64, Lease>, ip: u32, now: u128) -> bool {
    exists|m: u64| #[trigger]
        leases.contains_key(m) && leases[m].ip == ip && leases[m].expires > now
}

/// The first address of `pool` that is not in use.
pub open spec fn first_free(pool: Seq<u32>, leases: Map<u64, Lease>, now: u128) -> Option<u32>
    decreases pool.len(),
{
    if pool.len() == 0 {
        None
    } else if !in_use(leases, pool[0], now) {
        Some(pool[0])
    } else {
        first_free(pool.drop_first(), leases, now)
    }
}

impl ServerView {
    /// A lease on `ip` that starts at `now`.
    pub open spec fn lease_from(self, ip: u32, now: u128) -> Lease {
        Lease { ip, expires: (now + self.lease_secs * 1_000_000_000) as u128 }
    }

    /// The server after it gave `ip` to the client `mac` at `now`.
    pub open spec fn with_lease(self, mac: u64, ip: u32, now: u128) -> ServerView {
        ServerView { leases: self.leases.insert(mac, self.lease_from(ip, now)), ..self }
    }

    /// The address that is given to a client without a lease: the one that it
    /// asked for if that is in the pool and not in use, else the first that is
    /// not in use.
    pub open spec fn choice(self, wanted: Option<u32>, now: u128) -> Option<u32> {
        match wanted {
            Some(ip) if self.pool.contains(ip) && !in_use(self.leases, ip, now) => Some(ip),
            _ => first_free(self.pool, self.leases, now),
        }
    }

    /// The address that a client is given which asked for `wanted`, if for
    /// anything: the one of its lease, unless it asked for another; without a
    /// lease, a free one.
    pub open spec fn grant(self, mac: u64, wanted: Option<u32>, now: u128) -> Option<u32> {
        if self.leases.contains_key(mac) {
            let ip = self.leases[mac].ip;
            if wanted is Some && wanted->0 != ip {
                None
            } else {
                Some(ip)
            }
        } else {
            self.choice(wanted, now)
        }
    }

    /// The server after such a request: the lease, old or new, starts anew if
    /// an address was given.
    pub open spec fn granted(self, mac: u64, wanted: Option<u32>, now: u128) -> ServerView {
        match self.grant(mac, wanted, now) {
            Some(ip) => self.with_lease(mac, ip, now),
            None => self,
        }
    }

    /// The server after the client `mac` gave its lease back.
    pub open spec fn released(self, mac: u64) -> ServerView {
        ServerView { leases: self.leases.remove(mac), ..self }
    }

    /// The server after the message `pkt`.
    pub open spec fn after(self, pkt: Seq<u8>, now: u128) -> ServerView {
        let mac = mac_number(client_mac(pkt));
        if !is_client_message(pkt) {
            self
        } else if message_type(pkt) == Some(DHCPDISCOVER) {
            self.granted(mac, None, now)
        } else if message_type(pkt) == Some(DHCPREQUEST) {
            self.granted(mac, wanted_of(pkt), now)
        } else if message_type(pkt) == Some(DHCPRELEASE) {
            self.released(mac)
        } else {
            self
        }
    }

    /// The server after all of `msgs`, messages with the times at which they
    /// came.
    pub open spec fn after_all(self, msgs: Seq<(Seq<u8>, u128)>) -> ServerView
        decreases msgs.len(),
    {
        if msgs.len() == 0 {
            self
        } else {
            self.after_all(msgs.drop_last()).after(msgs.last().0, msgs.last().1)
        }
    }

    /// A reply that gives `ip` to the sender of `pkt`.
    pub open spec fn giving_reply(self, pkt: Seq<u8>, ip: u32, msg_type: u8) -> Seq<u8> {
        lease_reply(
            self.gateway,
            self.subnet_mask,
            self.lease_secs,
            transaction_id(pkt),
            client_mac(pkt),
            address(ip),
            msg_type,
        )
    }

    /// The answer to the message `pkt`: an offer, if there is an address; an
    /// acknowledgement or a refusal; nothing.
    pub open spec fn answer(self, pkt: Seq<u8>, now: u128) -> Option<Seq<u8>> {
        let mac = mac_number(client_mac(pkt));
        if !is_client_message(pkt) {
            None
        } else if message_type(pkt) == Some(DHCPDISCOVER) {
            match self.grant(mac, None, now) {
                Some(ip) => Some(self.giving_reply(pkt, ip, DHCPOFFER)),
                None => None,
            }
        } else if message_type(pkt) == Some(DHCPREQUEST) {
            match self.grant(mac, wanted_of(pkt), now) {
                Some(ip) => Some(self.giving_reply(pkt, ip, DHCPACK)),
                None => Some(nak_reply(self.gateway, transaction_id(pkt), client_mac(pkt))),
            }
        } else {
            None
        }
    }

    /// Every lease is on an address of the pool.
    pub open spec fn leases_in_pool(self) -> bool {
        forall|m: u64| #[trigger]
            self.leases.contains_key(m) ==> self.pool.contains(self.leases[m].ip)
    }

    /// No address is leased to two clients at `now`.
    pub open spec fn exclusive(self, now: u128) -> bool {
        forall|m: u64, n: u64| #[trigger]
            self.leases.contains_key(m) && #[trigger] self.leases.contains_key(n) && m != n
                && self.leases[m].expires > now && self.leases[n].expires > now
                ==> self.leases[m].ip != self.leases[n].ip
    }

    /// The message `pkt` renews a lease on an address that by now is leased to
    /// another client as well.
    pub open spec fn renews_overtaken(self, pkt: Seq<u8>, now: u128) -> bool {
        &&& self.overtaken(mac_number(client_mac(pkt)), now)
        &&& message_type(pkt) != Some(DHCPRELEASE)
        &&& self.after(pkt, now).leases != self.leases
    }

    /// The client `mac` holds a lease on an address that by now is leased to
    /// another client as well. It takes an expired lease to get there.
    pub open spec fn overtaken(self, mac: u64, now: u128) -> bool {
        self.leases.contains_key(mac) && exists|m: u64| #[trigger]
            self.leases.contains_key(m) && m != mac && self.leases[m].expires > now
                && self.leases[m].ip == self.leases[mac].ip
    }
}

/// The address that a client asks for, as a number.
pub open spec fn wanted_of(pkt: Seq<u8>) -> Option<u32> {
    match requested_address(pkt) {
        Some(a) => Some(a.bits() as u32),
        None => None,
    }
}

// ---------------------------------------------------------------------------
// Facts
// ---------------------------------------------------------------------------

proof fn lemma_first_free(pool: Seq<u32>, leases: Map<u64, Lease>, now: u128)
    ensures
        match first_free(pool, leases, now) {
            Some(ip) => pool.contains(ip) && !in_use(leases, ip, now),
            None => forall|ip: u32| pool.contains(ip) ==> in_use(leases, ip, now),
        },
    decreases pool.len(),
{
    if pool.len() > 0 {
        let rest = pool.drop_first();
        if !in_use(leases, pool[0], now) {
            assert(pool.contains(pool[0]));
        } else {
            lemma_first_free(rest, leases, now);
            match first_free(rest, leases, now) {
                Some(ip) => {
                    let i = choose|i: int| 0 <= i < rest.len() && rest[i] == ip;
                    assert(pool[i + 1] == ip);
                },
                None => {
                    assert forall|ip: u32| pool.contains(ip) implies in_use(leases, ip, now) by {
                        let i = choose|i: int| 0 <= i < pool.len() && pool[i] == ip;
                        if i > 0 {
                            assert(rest[i - 1] == ip);
                            assert(rest.contains(ip));
                        }
                    }
                },
            }
        }
    }
}

// ---------------------------------------------------------------------------
// Laws
// ---------------------------------------------------------------------------

/// Two clients share a lease only if they have the same hardware address.
pub proof fn law_mac_number_identifies(x: Seq<u8>, y: Seq<u8>)
    requires
        x.len() == 6,
        y.len() == 6,
        mac_number(x) == mac_number(y),
    ensures
        x == y,
{
    let x4: int = x[0] * 0x100_0000 + x[1] * 0x1_0000 + x[2] * 0x100 + x[3];
    let y4: int = y[0] * 0x100_0000 + y[1] * 0x1_0000 + y[2] * 0x100 + y[3];
    assert(x4 * 0x1_0000 + x[4] * 0x100 + x[5] == y4 * 0x1_0000 + y[4] * 0x100 + y[5]);
    assert(x4 == y4 && x[4] == y[4] && x[5] == y[5]);
    let x2: int = x[0] * 0x100 + x[1];
    let y2: int = y[0] * 0x100 + y[1];
    assert(x2 * 0x1_0000 + x[2] * 0x100 + x[3] == y2 * 0x1_0000 + y[2] * 0x100 + y[3]);
    assert(x2 == y2 && x[2] == y[2] && x[3] == y[3]);
    assert(x =~= y);
}

/// Giving an address leaves leases on addresses of the pool.
proof fn lemma_granted_in_pool(v: ServerView, mac: u64, wanted: Option<u32>, now: u128)
    requires
        v.leases_in_pool(),
    ensures
        v.granted(mac, wanted, now).leases_in_pool(),
{
    lemma_first_free(v.pool, v.leases, now);
    let w = v.granted(mac, wanted, now);
    assert forall|m: u64| #[trigger] w.leases.contains_key(m) implies w.pool.contains(
        w.leases[m].ip,
    ) by {
        if v.leases.contains_key(m) {
            assert(v.pool.contains(v.leases[m].ip));
        }
    }
}

/// An address is in use by the leases on it that have not expired, and by
/// nothing else.
pub proof fn law_leases_make_addresses_in_use(
    leases: Map<u64, Lease>,
    mac: u64,
    lease: Lease,
    ip: u32,
    now: u128,
)
    ensures
        in_use(leases.insert(mac, lease), ip, now) == ((lease.ip == ip && lease.expires > now)
            || in_use(leases.remove(mac), ip, now)),
        !in_use(Map::empty(), ip, now),
{
    let more = leases.insert(mac, lease);
    let less = leases.remove(mac);
    assert(more.contains_key(mac));
    if in_use(more, ip, now) {
        let m = choose|m: u64| #[trigger]
            more.contains_key(m) && more[m].ip == ip && more[m].expires > now;
        if m != mac {
            assert(less.contains_key(m));
        }
    }
    if in_use(less, ip, now) {
        let m = choose|m: u64| #[trigger]
            less.contains_key(m) && less[m].ip == ip && less[m].expires > now;
        assert(more.contains_key(m));
    }
}

/// An address that is newly given to a client is in the pool and in use by
/// nobody.
pub proof fn law_new_address_is_free(v: ServerView, mac: u64, wanted: Option<u32>, now: u128)
    requires
        !v.leases.contains_key(mac),
    ensures
        v.grant(mac, wanted, now) matches Some(ip) ==> v.pool.contains(ip) && !in_use(
            v.leases,
            ip,
            now,
        ),
{
    lemma_first_free(v.pool, v.leases, now);
}

/// A client without a lease goes without an address only if every address of
/// the pool is in use.
pub proof fn law_no_address_means_none_free(
    v: ServerView,
    mac: u64,
    wanted: Option<u32>,
    now: u128,
)
    requires
        !v.leases.contains_key(mac),
    ensures
        v.grant(mac, wanted, now) is None <==> (forall|ip: u32|
            v.pool.contains(ip) ==> in_use(v.leases, ip, now)),
{
    lemma_first_free(v.pool, v.leases, now);
    match wanted {
        Some(ip) => {
            if v.pool.contains(ip) && !in_use(v.leases, ip, now) {
                assert(v.grant(mac, wanted, now) == Some(ip));
            }
        },
        None => {},
    }
    if let Some(ip) = first_free(v.pool, v.leases, now) {
        assert(v.pool.contains(ip));
    }
}

/// A client keeps the address that it is given for as many seconds as the
/// server announces: up to then the address is in use, and no client without a
/// lease is given it. From then on this lease keeps nobody from it.
pub proof fn law_address_is_kept_for_the_lease_time(
    v: ServerView,
    mac: u64,
    wanted: Option<u32>,
    given_at: u128,
    seen_at: u128,
    other: u64,
    other_wanted: Option<u32>,
)
    requires
        given_at <= LATEST,
        given_at <= seen_at,
        v.grant(mac, wanted, given_at) is Some,
        !v.leases.contains_key(other),
        other != mac,
    ensures
        ({
            let ip = v.grant(mac, wanted, given_at)->0;
            let w = v.granted(mac, wanted, given_at);
            let kept = seen_at - given_at < v.lease_secs * 1_000_000_000;
            &&& w.leases.contains_key(mac)
            &&& w.leases[mac].ip == ip
            &&& kept ==> in_use(w.leases, ip, seen_at)
            &&& kept ==> w.grant(other, other_wanted, seen_at) != Some(ip)
            &&& !kept ==> in_use(w.leases, ip, seen_at) == in_use(
                v.leases.remove(mac),
                ip,
                seen_at,
            )
        }),
{
    let ip = v.grant(mac, wanted, given_at)->0;
    let w = v.granted(mac, wanted, given_at);
    assert(w.leases.contains_key(mac));
    assert(!w.leases.contains_key(other));
    let rest = v.leases.remove(mac);
    if seen_at - given_at < v.lease_secs * 1_000_000_000 {
        assert(w.leases[mac].expires > seen_at);
        law_new_address_is_free(w, other, other_wanted, seen_at);
    } else {
        assert(w.leases[mac].expires <= seen_at);
        if in_use(w.leases, ip, seen_at) {
            let m = choose|m: u64| #[trigger]
                w.leases.contains_key(m) && w.leases[m].ip == ip && w.leases[m].expires > seen_at;
            assert(rest.contains_key(m));
        }
        if in_use(rest, ip, seen_at) {
            let m = choose|m: u64| #[trigger]
                rest.contains_key(m) && rest[m].ip == ip && rest[m].expires > seen_at;
            assert(w.leases.contains_key(m));
        }
    }
}

/// What an offer or an acknowledgement promises is kept: the address that it
/// names belongs to the client that asked, in the same transaction, and for the
/// seconds that it announces the address is in use. The server is named as
/// router and name server.
pub proof fn law_reply_is_kept(v: ServerView, pkt: Seq<u8>, now: u128, seen_at: u128)
    requires
        is_client_message(pkt),
        now <= LATEST,
        now <= seen_at,
        v.answer(pkt, now) is Some,
        message_type(v.answer(pkt, now)->0) != Some(DHCPNAK),
    ensures
        ({
            let reply = v.answer(pkt, now)->0;
            let w = v.after(pkt, now);
            let mac = mac_number(pkt.subrange(28, 34));
            let ip = address_of(reply.subrange(16, 20));
            let named = message_options(reply);
            let secs = named[51];
            let announced = secs[0] * 0x100_0000 + secs[1] * 0x1_0000 + secs[2] * 0x100 + secs[3];
            &&& reply[0] == 2
            &&& reply.subrange(4, 8) == pkt.subrange(4, 8)
            &&& reply.subrange(28, 34) == pkt.subrange(28, 34)
            &&& named.contains_key(51) && secs.len() == 4
            &&& named.contains_key(58) && named[58] == secs
            &&& announced == v.lease_secs
            &&& w.leases.contains_key(mac)
            &&& w.leases[mac].ip == ip.bits()
            &&& seen_at - now < announced * 1_000_000_000 ==> in_use(
                w.leases,
                ip.bits() as u32,
                seen_at,
            )
            &&& named.contains_key(1) && named[1] == v.subnet_mask.octets()
            &&& named.contains_key(3) && named[3] == v.gateway.octets()
            &&& named.contains_key(6) && named[6] == v.gateway.octets()
            &&& named.contains_key(54) && named[54] == v.gateway.octets()
        }),
{
    let mac = mac_number(client_mac(pkt));
    let discover = message_type(pkt) == Some(DHCPDISCOVER);
    let wanted = if discover {
        None
    } else {
        wanted_of(pkt)
    };
    let given = v.grant(mac, wanted, now);
    crate::wire::law_nak_reply_reads_back(v.gateway, transaction_id(pkt), client_mac(pkt));
    assert(given is Some);
    let ip = given->0;
    let kind = if discover {
        DHCPOFFER
    } else {
        DHCPACK
    };
    assert(v.answer(pkt, now)->0 == v.giving_reply(pkt, ip, kind));
    crate::wire::law_lease_reply_reads_back(
        v.gateway,
        v.subnet_mask,
        v.lease_secs,
        transaction_id(pkt),
        client_mac(pkt),
        address(ip),
        kind,
    );
    crate::wire::law_seconds_read_back(v.lease_secs);
    law_bits_order_addresses(address(ip), address(ip), ip);
    let w = v.granted(mac, wanted, now);
    assert(v.after(pkt, now) == w);
    assert(w.leases.contains_key(mac));
    if seen_at - now < v.lease_secs * 1_000_000_000 {
        assert(w.leases[mac].expires > seen_at);
    }
}

/// A client that looks for an address is offered one if there is one for it,
/// and hears nothing else.
pub proof fn law_discover_is_answered(v: ServerView, pkt: Seq<u8>, now: u128)
    requires
        is_client_message(pkt),
        message_type(pkt) == Some(1u8),
    ensures
        ({
            let mac = mac_number(pkt.subrange(28, 34));
            let free = exists|ip: u32| v.pool.contains(ip) && !in_use(v.leases, ip, now);
            let answer = v.answer(pkt, now);
            &&& answer is Some == (v.leases.contains_key(mac) || free)
            &&& answer is Some ==> message_type(answer->0) == Some(2u8)
            &&& v.leases.contains_key(mac) ==> address_of(answer->0.subrange(16, 20)) == address(
                v.leases[mac].ip,
            )
            &&& answer is None ==> v.after(pkt, now) == v
        }),
{
    let mac = mac_number(client_mac(pkt));
    let given = v.grant(mac, None, now);
    if !v.leases.contains_key(mac) {
        law_no_address_means_none_free(v, mac, None, now);
    }
    if given is Some {
        crate::wire::law_lease_reply_reads_back(
            v.gateway,
            v.subnet_mask,
            v.lease_secs,
            transaction_id(pkt),
            client_mac(pkt),
            address(given->0),
            DHCPOFFER,
        );
    }
}

/// A request is granted to the holder of a lease if it names no address or the
/// one that is held, and to a client without a lease if any address is free:
/// the one that it names, if that is free. It is acknowledged with the address
/// and otherwise refused.
pub proof fn law_request_gets_what_it_asks_for(v: ServerView, pkt: Seq<u8>, now: u128)
    requires
        is_client_message(pkt),
        message_type(pkt) == Some(3u8),
    ensures
        ({
            let mac = mac_number(pkt.subrange(28, 34));
            let asked = requested_address(pkt);
            let reply = v.answer(pkt, now)->0;
            let granted = message_type(reply) == Some(5u8);
            let ip = address_of(reply.subrange(16, 20));
            let free = exists|x: u32| v.pool.contains(x) && !in_use(v.leases, x, now);
            &&& v.answer(pkt, now) is Some
            &&& granted || message_type(reply) == Some(6u8)
            &&& !granted ==> v.after(pkt, now) == v
            &&& v.leases.contains_key(mac) ==> granted == (asked is None || asked->0.bits()
                == v.leases[mac].ip)
            &&& v.leases.contains_key(mac) && granted ==> ip.bits() == v.leases[mac].ip
            &&& !v.leases.contains_key(mac) ==> granted == free
            &&& !v.leases.contains_key(mac) && asked is Some && v.pool.contains(
                asked->0.bits() as u32,
            ) && !in_use(v.leases, asked->0.bits() as u32, now) ==> granted && ip == asked->0
        }),
{
    let mac = mac_number(client_mac(pkt));
    let given = v.grant(mac, wanted_of(pkt), now);
    law_request_is_answered(v, pkt, now);
    if !v.leases.contains_key(mac) {
        law_no_address_means_none_free(v, mac, wanted_of(pkt), now);
    }
    if given is Some {
        let ip = given->0;
        law_bits_order_addresses(address(ip), address(ip), ip);
    }
    if requested_address(pkt) is Some {
        law_address_of_bits(requested_address(pkt)->0);
        law_bits_order_addresses(requested_address(pkt)->0, requested_address(pkt)->0, 0);
    }
}

/// Messages that ask for nothing are not answered, and change nothing but that
/// a release gives the lease of its sender back; nor do data that are no
/// message.
pub proof fn law_other_messages_are_not_answered(v: ServerView, pkt: Seq<u8>, now: u128)
    requires
        is_client_message(pkt) ==> message_type(pkt) != Some(1u8) && message_type(pkt) != Some(
            3u8,
        ),
    ensures
        v.answer(pkt, now) is None,
        !is_client_message(pkt) || message_type(pkt) != Some(7u8) ==> v.after(pkt, now) == v,
        is_client_message(pkt) && message_type(pkt) == Some(7u8) ==> v.after(pkt, now).leases
            == v.leases.remove(mac_number(pkt.subrange(28, 34))),
{
}

/// A client that holds a lease is given its address again, whether it asks for
/// that or for any; expired or not.
pub proof fn law_holder_keeps_its_address(v: ServerView, mac: u64, now: u128)
    requires
        v.leases.contains_key(mac),
    ensures
        v.grant(mac, None, now) == Some(v.leases[mac].ip),
        v.grant(mac, Some(v.leases[mac].ip), now) == Some(v.leases[mac].ip),
{
}

/// A client without a lease is given the address that it asks for, if that is
/// in the pool and in use by nobody.
pub proof fn law_free_address_is_given(v: ServerView, mac: u64, wanted: u32, now: u128)
    requires
        !v.leases.contains_key(mac),
        v.pool.contains(wanted),
        !in_use(v.leases, wanted, now),
    ensures
        v.grant(mac, Some(wanted), now) == Some(wanted),
{
}

/// The addresses from one to another are those and no others, each once, from
/// the lowest on.
pub proof fn law_range_holds_what_lies_between(start: u32, end: u32, ip: u32, i: int, j: int)
    ensures
        address_range(start, end).contains(ip) == (start <= ip <= end),
        0 <= i < j < address_range(start, end).len() ==> address_range(start, end)[i]
            < address_range(start, end)[j],
{
    let all = address_range(start, end);
    if start <= ip <= end {
        assert(all[ip - start] == ip);
    }
}

/// A client without a lease that asks for nothing, or for what it cannot have,
/// is given the lowest address that is free.
pub proof fn law_lowest_free_address_is_given(
    v: ServerView,
    start: u32,
    end: u32,
    mac: u64,
    wanted: Option<u32>,
    now: u128,
    lower: u32,
)
    requires
        v.pool == address_range(start, end),
        !v.leases.contains_key(mac),
        wanted matches Some(w) ==> !(start <= w <= end) || in_use(v.leases, w, now),
        v.grant(mac, wanted, now) is Some,
        start <= lower < v.grant(mac, wanted, now)->0,
    ensures
        in_use(v.leases, lower, now),
{
    let ip = v.grant(mac, wanted, now)->0;
    if wanted is Some {
        law_range_holds_what_lies_between(start, end, wanted->0, 0, 0);
    }
    law_new_address_is_free(v, mac, wanted, now);
    law_range_holds_what_lies_between(start, end, ip, 0, 0);
    law_range_holds_what_lies_between(start, end, lower, 0, 0);
    lemma_first_free_is_first(v.pool, v.leases, now, lower - start, ip - start);
}

/// What stands before the first free address is in use.
proof fn lemma_first_free_is_first(
    pool: Seq<u32>,
    leases: Map<u64, Lease>,
    now: u128,
    i: int,
    k: int,
)
    requires
        0 <= i < k < pool.len(),
        first_free(pool, leases, now) == Some(pool[k]),
        forall|a: int, b: int| 0 <= a < b < pool.len() ==> #[trigger] pool[a] != #[trigger] pool[b],
    ensures
        in_use(leases, pool[i], now),
    decreases pool.len(),
{
    assert(pool[0] != pool[k]);
    if i > 0 {
        let rest = pool.drop_first();
        assert forall|a: int, b: int| 0 <= a < b < rest.len() implies #[trigger] rest[a]
            != #[trigger] rest[b] by {
            assert(rest[a] == pool[a + 1] && rest[b] == pool[b + 1]);
        }
        assert(rest[k - 1] == pool[k]);
        assert(rest[i - 1] == pool[i]);
        lemma_first_free_is_first(rest, leases, now, i - 1, k - 1);
    }
}

/// A client that asks for the address that it was offered is given it, as long
/// as nothing else came from it in between.
pub proof fn law_offer_is_honoured(v: ServerView, mac: u64, offered_at: u128, asked_at: u128)
    requires
        v.grant(mac, None, offered_at) is Some,
    ensures
        ({
            let ip = v.grant(mac, None, offered_at)->0;
            let w = v.granted(mac, None, offered_at);
            &&& w.grant(mac, Some(ip), asked_at) == Some(ip)
            &&& w.grant(mac, None, asked_at) == Some(ip)
        }),
{
}

/// An offer stands whatever other clients send in between.
pub proof fn law_offer_outlives_other_clients(
    v: ServerView,
    mac: u64,
    offered_at: u128,
    pkt: Seq<u8>,
    heard_at: u128,
    asked_at: u128,
)
    requires
        v.grant(mac, None, offered_at) is Some,
        mac_number(client_mac(pkt)) != mac,
    ensures
        ({
            let ip = v.grant(mac, None, offered_at)->0;
            let w = v.granted(mac, None, offered_at).after(pkt, heard_at);
            w.grant(mac, Some(ip), asked_at) == Some(ip)
        }),
{
    law_other_leases_stay(v.granted(mac, None, offered_at), pkt, heard_at, mac);
}

/// A client that holds a lease and asks for another address is refused, and
/// nothing changes.
pub proof fn law_other_address_is_refused(v: ServerView, mac: u64, wanted: u32, now: u128)
    requires
        v.leases.contains_key(mac),
        v.leases[mac].ip != wanted,
    ensures
        v.grant(mac, Some(wanted), now) is None,
        v.granted(mac, Some(wanted), now) == v,
{
}

/// A request that is refused is answered with a refusal, and one that is not
/// with an acknowledgement: there is always an answer.
pub proof fn law_request_is_answered(v: ServerView, pkt: Seq<u8>, now: u128)
    requires
        is_client_message(pkt),
        message_type(pkt) == Some(DHCPREQUEST),
    ensures
        ({
            let given = v.grant(mac_number(client_mac(pkt)), wanted_of(pkt), now);
            let head = v.answer(pkt, now);
            &&& head is Some
            &&& given is None ==> v.after(pkt, now) == v && message_type(head->0) == Some(
                crate::wire::DHCPNAK,
            )
            &&& given is Some ==> message_type(head->0) == Some(DHCPACK) && address_of(
                head->0.subrange(16, 20),
            ) == address(given->0)
        }),
{
    let given = v.grant(mac_number(client_mac(pkt)), wanted_of(pkt), now);
    match given {
        None => {
            crate::wire::law_nak_reply_reads_back(v.gateway, transaction_id(pkt), client_mac(pkt));
        },
        Some(ip) => {
            crate::wire::law_lease_reply_reads_back(
                v.gateway,
                v.subnet_mask,
                v.lease_secs,
                transaction_id(pkt),
                client_mac(pkt),
                address(ip),
                DHCPACK,
            );
        },
    }
}

/// A message changes no lease but that of its sender.
pub proof fn law_other_leases_stay(v: ServerView, pkt: Seq<u8>, now: u128, other: u64)
    requires
        other != mac_number(client_mac(pkt)),
    ensures
        v.after(pkt, now).leases.contains_key(other) == v.leases.contains_key(other),
        v.leases.contains_key(other) ==> v.after(pkt, now).leases[other] == v.leases[other],
{
}

/// A message changes nothing but the leases.
pub proof fn law_settings_stay(v: ServerView, pkt: Seq<u8>, now: u128)
    ensures
        ({
            let w = v.after(pkt, now);
            &&& w.gateway == v.gateway
            &&& w.subnet_mask == v.subnet_mask
            &&& w.pool == v.pool
            &&& w.lease_secs == v.lease_secs
        }),
{
}

/// After a release the client has no lease, and there is no answer.
pub proof fn law_release_ends_lease(v: ServerView, pkt: Seq<u8>, now: u128)
    requires
        is_client_message(pkt),
        message_type(pkt) == Some(DHCPRELEASE),
    ensures
        !v.after(pkt, now).leases.contains_key(mac_number(client_mac(pkt))),
        v.answer(pkt, now) is None,
{
}

/// Leases stay on addresses of the pool, whatever message comes.
pub proof fn law_leases_stay_in_pool(v: ServerView, pkt: Seq<u8>, now: u128)
    requires
        v.leases_in_pool(),
    ensures
        v.after(pkt, now).leases_in_pool(),
{
    let mac = mac_number(client_mac(pkt));
    lemma_granted_in_pool(v, mac, None, now);
    lemma_granted_in_pool(v, mac, wanted_of(pkt), now);
}

/// Time alone leases no address to two clients.
pub proof fn law_exclusive_as_time_passes(v: ServerView, before: u128, now: u128)
    requires
        before <= now,
        v.exclusive(before),
    ensures
        v.exclusive(now),
{
}

/// No message leases an address to two clients at once, unless its sender
/// renews a lease that expired and whose address another client got since.
pub proof fn law_stays_exclusive(v: ServerView, pkt: Seq<u8>, now: u128)
    requires
        v.exclusive(now),
        !v.renews_overtaken(pkt, now),
    ensures
        v.after(pkt, now).exclusive(now),
{
    lemma_first_free(v.pool, v.leases, now);
    let w = v.after(pkt, now);
    let mac = mac_number(client_mac(pkt));
    assert forall|m: u64, n: u64| #[trigger]
        w.leases.contains_key(m) && #[trigger] w.leases.contains_key(n) && m != n
            && w.leases[m].expires > now && w.leases[n].expires
            > now implies w.leases[m].ip != w.leases[n].ip by {
        if m != mac {
            assert(v.leases.contains_key(m));
        }
        if n != mac {
            assert(v.leases.contains_key(n));
        }
    }
}

/// As long as a lease has not expired, its address is given to no other client
/// without a lease.
pub proof fn law_leased_address_is_kept(
    v: ServerView,
    mac: u64,
    other: u64,
    wanted: Option<u32>,
    now: u128,
)
    requires
        v.leases.contains_key(mac),
        v.leases[mac].expires > now,
        !v.leases.contains_key(other),
    ensures
        v.grant(other, wanted, now) != Some(v.leases[mac].ip),
{
    law_new_address_is_free(v, other, wanted, now);
}

/// Whatever messages came, leases are on addresses of the pool.
pub proof fn law_leases_always_in_pool(v: ServerView, msgs: Seq<(Seq<u8>, u128)>)
    requires
        v.leases_in_pool(),
    ensures
        v.after_all(msgs).leases_in_pool(),
        v.after_all(msgs).pool == v.pool,
    decreases msgs.len(),
{
    if msgs.len() > 0 {
        let init = msgs.drop_last();
        law_leases_always_in_pool(v, init);
        law_leases_stay_in_pool(v.after_all(init), msgs.last().0, msgs.last().1);
        law_settings_stay(v.after_all(init), msgs.last().0, msgs.last().1);
    }
}

/// Whatever messages came in the course of time, no address is leased to two
/// clients at once, unless one of them renewed a lease that expired and whose
/// address another client got since.
pub proof fn law_always_exclusive(v: ServerView, start: u128, msgs: Seq<(Seq<u8>, u128)>)
    requires
        v.exclusive(start),
        forall|i: int| 0 <= i < msgs.len() ==> start <= (#[trigger] msgs[i]).1,
        forall|i: int, j: int|
            0 <= i <= j < msgs.len() ==> (#[trigger] msgs[i]).1 <= (#[trigger] msgs[j]).1,
        forall|i: int|
            0 <= i < msgs.len() ==> !v.after_all(msgs.take(i)).renews_overtaken(
                (#[trigger] msgs[i]).0,
                msgs[i].1,
            ),
    ensures
        v.after_all(msgs).exclusive(
            if msgs.len() > 0 {
                msgs.last().1
            } else {
                start
            },
        ),
    decreases msgs.len(),
{
    if msgs.len() > 0 {
        let init = msgs.drop_last();
        let n = init.len() as int;
        assert forall|i: int| 0 <= i < init.len() implies !v.after_all(
            init.take(i),
        ).renews_overtaken((#[trigger] init[i]).0, init[i].1) by {
            assert(init[i] == msgs[i]);
            assert(init.take(i) =~= msgs.take(i));
        }
        law_always_exclusive(v, start, init);
        let w = v.after_all(init);
        let (pkt, now) = msgs[n];
        assert(msgs.take(n) =~= init);
        let before = if init.len() > 0 {
            init.last().1
        } else {
            start
        };
        if init.len() > 0 {
            assert(init.last() == msgs[n - 1]);
        }
        law_exclusive_as_time_passes(w, before, now);
        law_stays_exclusive(w, pkt, now);
    }
}

/// A client whose lease has not expired is never overtaken, so that its
/// renewals keep addresses apart.
pub proof fn law_active_lease_is_not_overtaken(v: ServerView, mac: u64, now: u128)
    requires
        v.exclusive(now),
        v.leases.contains_key(mac) ==> v.leases[mac].expires > now,
    ensures
        !v.overtaken(mac, now),
{
}

// ---------------------------------------------------------------------------
// Operations
// ---------------------------------------------------------------------------

/// The numbers from that of `start` to that of `end`.
pub fn ip_range(start: Ipv4Addr, end: Ipv4Addr) -> (res: Vec<u32>)
    ensures
        res@ == address_range(start.bits() as u32, end.bits() as u32),
{
    let s: u32 = start.to_bits();
    let e: u32 = end.to_bits();
    let mut res: Vec<u32> = Vec::new();
    let mut i: u64 = s as u64;
    while i <= e as u64
        invariant
            s <= i,
            s <= e ==> i <= e + 1,
            s > e ==> i == s,
            res@ == Seq::new((i - s) as nat, |k: int| (s + k) as u32),
        decreases e + 1 - i,
    {
        res.push(i as u32);
        i = i + 1;
        assert(res@ =~= Seq::new((i - s) as nat, |k: int| (s + k) as u32));
    }
    assert(res@ =~= address_range(s, e));
    res
}

/// The number that a hardware address is filed under.
pub fn mac_key(mac: &[u8; 6]) -> (res: u64)
    ensures
        res == mac_number(mac@),
{
    (mac[0] as u64) * 0x100_0000_0000 + (mac[1] as u64) * 0x1_0000_0000 + (mac[2] as u64)
        * 0x100_0000 + (mac[3] as u64) * 0x1_0000 + (mac[4] as u64) * 0x100 + (mac[5] as u64)
}

/// The addresses with a lease that has not expired at `now`.
fn used_addresses(leases: &HashMap<u64, Lease>, now: u128) -> (res: HashSet<u32>)
    ensures
        forall|ip: u32| res@.contains(ip) == in_use(leases@, ip, now),
{
    let mut used: HashSet<u32> = HashSet::new();
    let ghost all = vstd::std_specs::iter::IteratorSpec::remaining(&leases.values()).unref();
    for l in it: leases.values()
        invariant
            it.seq().unref() == all,
            forall|ip: u32|
                used@.contains(ip) == exists|k: int|
                    0 <= k < it.index() && (#[trigger] all[k]).ip == ip && all[k].expires > now,
    {
        let ghost before = used@;
        let ghost k0 = it.index();
        assert(all[k0] == *l);
        if l.expires > now {
            used.insert(l.ip);
        }
        assert forall|ip: u32|
            used@.contains(ip) == exists|k: int|
                0 <= k < k0 + 1 && (#[trigger] all[k]).ip == ip && all[k].expires > now by {
            if before.contains(ip) {
                let k = choose|k: int|
                    0 <= k < k0 && (#[trigger] all[k]).ip == ip && all[k].expires > now;
                assert(all[k].ip == ip);
            }
        }
    }
    assert forall|ip: u32| used@.contains(ip) == in_use(leases@, ip, now) by {
        if used@.contains(ip) {
            let k = choose|k: int|
                0 <= k < all.len() && (#[trigger] all[k]).ip == ip && all[k].expires > now;
            assert(all.to_set().contains(all[k]));
            assert(leases@.values().contains(all[k]));
            let m = choose|m: u64| leases@.contains_key(m) && leases@[m] == all[k];
            assert(leases@.contains_key(m));
        }
        if in_use(leases@, ip, now) {
            let m = choose|m: u64| #[trigger]
                leases@.contains_key(m) && leases@[m].ip == ip && leases@[m].expires > now;
            assert(leases@.values().contains(leases@[m]));
            assert(all.to_set().contains(leases@[m]));
            let k = choose|k: int| 0 <= k < all.len() && all[k] == leases@[m];
            assert(all[k].ip == ip);
        }
    }
    used
}

/// What is to be done before waiting for the next packet.
pub enum DhcpAction {
    /// Send `packet` to the address `to` at the port `to_port`.
    Send { packet: Vec<u8>, to: Ipv4Addr, to_port: u16 },
    /// Nothing.
    Wait,
    /// Report that receiving failed.
    Warn,
}

impl View for DhcpServer {
    type V = ServerView;

    closed spec fn view(&self) -> ServerView {
        ServerView {
            gateway: self.gateway,
            subnet_mask: self.subnet_mask,
            pool: self.pool@,
            lease_secs: self.lease_secs,
            leases: self.leases@,
        }
    }
}

impl DhcpServer {
    /// A server without leases that gives out the addresses from `pool_start`
    /// to `pool_end`.
    pub fn new(
        gateway: Ipv4Addr,
        pool_start: Ipv4Addr,
        pool_end: Ipv4Addr,
        subnet_mask: Ipv4Addr,
        lease_secs: u32,
    ) -> (res: Self)
        ensures
            res@ == (ServerView {
                gateway,
                subnet_mask,
                pool: address_range(pool_start.bits() as u32, pool_end.bits() as u32),
                lease_secs,
                leases: Map::empty(),
            }),
            res@.leases_in_pool(),
            forall|now: u128| res@.exclusive(now),
    {
        DhcpServer {
            gateway,
            subnet_mask,
            pool: ip_range(pool_start, pool_end),
            lease_secs,
            leases: HashMap::new(),
        }
    }

    /// The first address of the pool that is not in `used`.
    fn find_free(&self, used: &HashSet<u32>, Ghost(now): Ghost<u128>) -> (res: Option<u32>)
        requires
            forall|ip: u32| used@.contains(ip) == in_use(self@.leases, ip, now),
        ensures
            res == first_free(self@.pool, self@.leases, now),
    {
        let n: usize = self.pool.len();
        let mut i: usize = 0;
        assert(self.pool@.skip(0) =~= self.pool@);
        while i < n
            invariant
                i <= n,
                n == self.pool@.len(),
                forall|ip: u32| used@.contains(ip) == in_use(self@.leases, ip, now),
                first_free(self.pool@, self.leases@, now) == first_free(
                    self.pool@.skip(i as int),
                    self.leases@,
                    now,
                ),
            decreases n - i,
        {
            let ip: u32 = self.pool[i];
            assert(self.pool@.skip(i as int)[0] == ip);
            if !used.contains(&ip) {
                return Some(ip);
            }
            assert(self.pool@.skip(i as int).drop_first() =~= self.pool@.skip(i + 1));
            i = i + 1;
        }
        None
    }

    /// Whether `ip` is in the pool.
    fn in_pool(&self, ip: u32) -> (res: bool)
        ensures
            res == self@.pool.contains(ip),
    {
        let n: usize = self.pool.len();
        let mut i: usize = 0;
        while i < n
            invariant
                i <= n,
                n == self.pool@.len(),
                forall|k: int| 0 <= k < i ==> self.pool@[k] != ip,
            decreases n - i,
        {
            if self.pool[i] == ip {
                return true;
            }
            i = i + 1;
        }
        false
    }

    /// Gives `ip` to the client `mac` at `now`.
    fn set_lease(&mut self, mac: u64, ip: u32, now: u128)
        requires
            now <= LATEST,
        ensures
            final(self)@ == old(self)@.with_lease(mac, ip, now),
    {
        let expires: u128 = now + (self.lease_secs as u128) * 1_000_000_000;
        self.leases.insert(mac, Lease { ip, expires });
    }

    /// Answers the request of the client `mac` for the address `requested`, or
    /// for whatever address there is.
    pub fn validate_request(
        &mut self,
        mac: &[u8; 6],
        requested: Option<Ipv4Addr>,
        now: u128,
    ) -> (res: Option<Ipv4Addr>)
        requires
            now <= LATEST,
        ensures
            ({
                let wanted = match requested {
                    Some(a) => Some(a.bits() as u32),
                    None => None,
                };
                let given = old(self)@.grant(mac_number(mac@), wanted, now);
                &&& final(self)@ == old(self)@.granted(mac_number(mac@), wanted, now)
                &&& res is Some == given is Some
                &&& res matches Some(a) ==> a == address(given->0)
            }),
            old(self)@.leases_in_pool() ==> final(self)@.leases_in_pool(),
    {
        let key: u64 = mac_key(mac);
        let wanted: Option<u32> = match requested {
            Some(a) => Some(a.to_bits()),
            None => None,
        };
        proof {
            if old(self)@.leases_in_pool() {
                lemma_granted_in_pool(old(self)@, key, wanted, now);
            }
        }
        match self.grant(key, wanted, now) {
            Some(ip) => Some(Ipv4Addr::from_bits(ip)),
            None => None,
        }
    }

    /// Gives the client `mac` the address of its lease, or a free one.
    pub fn assign_or_get(&mut self, mac: &[u8; 6], now: u128) -> (res: Option<Ipv4Addr>)
        requires
            now <= LATEST,
        ensures
            ({
                let given = old(self)@.grant(mac_number(mac@), None, now);
                &&& final(self)@ == old(self)@.granted(mac_number(mac@), None, now)
                &&& res is Some == given is Some
                &&& res matches Some(a) ==> a == address(given->0)
            }),
            old(self)@.leases_in_pool() ==> final(self)@.leases_in_pool(),
    {
        self.validate_request(mac, None, now)
    }

    fn grant(&mut self, key: u64, wanted: Option<u32>, now: u128) -> (res: Option<u32>)
        requires
            now <= LATEST,
        ensures
            res == old(self)@.grant(key, wanted, now),
            final(self)@ == old(self)@.granted(key, wanted, now),
    {
        let held: Option<Lease> = match self.leases.get(&key) {
            Some(l) => Some(*l),
            None => None,
        };
        if let Some(l) = held {
            if let Some(w) = wanted {
                if w != l.ip {
                    return None;
                }
            }
            self.set_lease(key, l.ip, now);
            return Some(l.ip);
        }
        let used: HashSet<u32> = used_addresses(&self.leases, now);
        if let Some(w) = wanted {
            if self.in_pool(w) && !used.contains(&w) {
                self.set_lease(key, w, now);
                return Some(w);
            }
        }
        match self.find_free(&used, Ghost(now)) {
            Some(ip) => {
                self.set_lease(key, ip, now);
                Some(ip)
            },
            None => None,
        }
    }

    /// Takes in the message `pkt` at the time `now`, and gives the answer to
    /// it, if there is one.
    pub fn handle_packet(&mut self, pkt: &[u8], now: u128) -> (res: Option<Vec<u8>>)
        requires
            now <= LATEST,
        ensures
            final(self)@ == old(self)@.after(pkt@, now),
            old(self)@.leases_in_pool() ==> final(self)@.leases_in_pool(),
            res is Some == old(self)@.answer(pkt@, now) is Some,
            res matches Some(reply) ==> reply@ == old(self)@.answer(pkt@, now)->0,
    {
        proof {
            if old(self)@.leases_in_pool() {
                law_leases_stay_in_pool(old(self)@, pkt@, now);
            }
        }
        if check_packet(pkt).is_err() {
            return None;
        }
        let xid: [u8; 4] = [pkt[4], pkt[5], pkt[6], pkt[7]];
        let mac: [u8; 6] = [pkt[28], pkt[29], pkt[30], pkt[31], pkt[32], pkt[33]];
        let ciaddr: Ipv4Addr = Ipv4Addr::new(pkt[12], pkt[13], pkt[14], pkt[15]);
        assert(xid@ =~= transaction_id(pkt@));
        assert(mac@ =~= client_mac(pkt@));

        let options: HashMap<u8, Vec<u8>> = parse_options(slice_subrange(pkt, 240, pkt.len()));
        assert(pkt@.subrange(240, pkt@.len() as int) =~= pkt@.skip(240));
        let ghost named = message_options(pkt@);
        assert(byte_values(options@) == named);
        let msg_type: u8 = match type_of_options(&options) {
            Some(t) => t,
            None => {
                return None;
            },
        };

        if msg_type == DHCPDISCOVER {
            match self.assign_or_get(&mac, now) {
                Some(ip) => Some(
                    build_reply(
                        self.gateway,
                        self.subnet_mask,
                        self.lease_secs,
                        &xid,
                        &mac,
                        ip,
                        DHCPOFFER,
                    ),
                ),
                None => None,
            }
        } else if msg_type == DHCPREQUEST {
            let named_ip: Option<Ipv4Addr> = match options.get(&50) {
                Some(v) => {
                    assert(named.contains_key(50) && named[50] == v@);
                    if v.len() >= 4 {
                        Some(Ipv4Addr::new(v[0], v[1], v[2], v[3]))
                    } else {
                        None
                    }
                },
                None => {
                    assert(!named.contains_key(50));
                    None
                },
            };
            let requested: Option<Ipv4Addr> = match named_ip {
                Some(a) => Some(a),
                None => if ciaddr.is_unspecified() {
                    None
                } else {
                    Some(ciaddr)
                },
            };
            assert(requested == requested_address(pkt@));
            match self.validate_request(&mac, requested, now) {
                Some(ip) => Some(
                    build_reply(
                        self.gateway,
                        self.subnet_mask,
                        self.lease_secs,
                        &xid,
                        &mac,
                        ip,
                        DHCPACK,
                    ),
                ),
                None => Some(build_nak(self.gateway, &xid, &mac)),
            }
        } else if msg_type == DHCPRELEASE {
            let key: u64 = mac_key(&mac);
            self.leases.remove(&key);
            None
        } else {
            None
        }
    }

    /// One turn of serving: takes in what was received, and says what is to be
    /// done. Answers go to all hosts of the link.
    pub fn serve(&mut self, received: Received, now: u128) -> (res: DhcpAction)
        requires
            now <= LATEST,
        ensures
            match received {
                Received::Packet(pkt) => {
                    &&& final(self)@ == old(self)@.after(pkt@, now)
                    &&& match old(self)@.answer(pkt@, now) {
                        Some(reply) => {
                            &&& res matches DhcpAction::Send { packet, to, to_port }
                            &&& packet@ == reply
                            &&& to.octets() == seq![255u8, 255, 255, 255]
                            &&& to_port == CLIENT_PORT
                        },
                        None => res is Wait,
                    }
                },
                Received::TimedOut => final(self)@ == old(self)@ && res is Wait,
                Received::Failed => final(self)@ == old(self)@ && res is Warn,
            },
            old(self)@.leases_in_pool() ==> final(self)@.leases_in_pool(),
    {
        match received {
            Received::Packet(pkt) => match self.handle_packet(pkt, now) {
                Some(packet) => DhcpAction::Send {
                    packet,
                    to: Ipv4Addr::new(255, 255, 255, 255),
                    to_port: CLIENT_PORT,
                },
                None => DhcpAction::Wait,
            },
            Received::TimedOut => DhcpAction::Wait,
            Received::Failed => DhcpAction::Warn,
        }
    }
}

} // verus!
