//! The DHCP message format: fields of a request, the option list, and the
//! replies that the server sends.
use std::collections::HashMap;
use vstd::prelude::*;
use vstd::slice::*;

use crate::net::Ipv4Addr;
use crate::number::{
    all_digits, digit_char, digit_value, digits_value, hex_byte, magnitude, push_hex_byte,
};

verus! {

broadcast use {vstd::std_specs::hash::group_hash_axioms, vstd::string::group_string_axioms};

pub const DHCPDISCOVER: u8 = 1;

pub const DHCPOFFER: u8 = 2;

pub const DHCPREQUEST: u8 = 3;

pub const DHCPACK: u8 = 5;

pub const DHCPNAK: u8 = 6;

pub const DHCPRELEASE: u8 = 7;

/// Why a packet is not looked at.
#[derive(Debug, Clone, Copy, PartialEq, Eq, Structural)]
pub enum PacketFault {
    /// It is shorter than the fixed part of a message.
    TooShort,
    /// It was not sent by a client.
    NotFromClient,
    /// The cookie before the options is missing.
    NoCookie,
}

// ---------------------------------------------------------------------------
// Model of the option list
// ---------------------------------------------------------------------------

/// The options that `data` holds, in order: each is a code, a length and that
/// many bytes. The code 0 is padding of one byte and the code 255 ends the
/// list; so does an option that `data` is too short for.
pub open spec fn option_list(data: Seq<u8>) -> Seq<(u8, Seq<u8>)>
    decreases data.len(),
{
    if data.len() == 0 || data[0] == 255 {
        Seq::empty()
    } else if data[0] == 0 {
        option_list(data.skip(1))
    } else if data.len() < 2 || 2 + data[1] > data.len() {
        Seq::empty()
    } else {
        seq![(data[0], data.subrange(2, 2 + data[1]))] + option_list(data.skip(2 + data[1]))
    }
}

/// What each code stands for: where one occurs more than once, its last value.
pub open spec fn option_map(list: Seq<(u8, Seq<u8>)>) -> Map<u8, Seq<u8>>
    decreases list.len(),
{
    if list.len() == 0 {
        Map::empty()
    } else {
        option_map(list.drop_last()).insert(list.last().0, list.last().1)
    }
}

/// The contents of a map of byte strings.
pub open spec fn byte_values(m: Map<u8, Vec<u8>>) -> Map<u8, Seq<u8>> {
    m.map_values(|v: Vec<u8>| v@)
}

/// The bytes of one option.
pub open spec fn option_bytes(code: u8, value: Seq<u8>) -> Seq<u8> {
    seq![code, value.len() as u8] + value
}

/// The bytes of a list of options.
pub open spec fn options_bytes(list: Seq<(u8, Seq<u8>)>) -> Seq<u8>
    decreases list.len(),
{
    if list.len() == 0 {
        Seq::empty()
    } else {
        option_bytes(list[0].0, list[0].1) + options_bytes(list.drop_first())
    }
}

/// The options of `list` can be written: no code is padding or the end, and no
/// value is longer than its length byte can say.
pub open spec fn writable_options(list: Seq<(u8, Seq<u8>)>) -> bool {
    forall|i: int|
        0 <= i < list.len() ==> {
            &&& (#[trigger] list[i]).0 != 0
            &&& list[i].0 != 255
            &&& list[i].1.len() <= 255
        }
}

// ---------------------------------------------------------------------------
// Model of the messages
// ---------------------------------------------------------------------------

/// The four bytes that stand before the options.
pub open spec fn magic_cookie() -> Seq<u8> {
    seq![99, 130, 83, 99]
}

/// `pkt` is a request of a client that the server looks at: long enough, sent
/// by a client, with the cookie in its place.
pub open spec fn is_client_message(pkt: Seq<u8>) -> bool {
    &&& pkt.len() >= 240
    &&& pkt[0] == 1
    &&& pkt.subrange(236, 240) == magic_cookie()
}

/// Why the server does not look at `pkt`.
pub open spec fn packet_fault(pkt: Seq<u8>) -> Option<PacketFault> {
    if pkt.len() < 240 {
        Some(PacketFault::TooShort)
    } else if pkt[0] != 1 {
        Some(PacketFault::NotFromClient)
    } else if pkt.subrange(236, 240) != magic_cookie() {
        Some(PacketFault::NoCookie)
    } else {
        None
    }
}

/// The options of a message.
pub open spec fn message_options(pkt: Seq<u8>) -> Map<u8, Seq<u8>> {
    option_map(option_list(pkt.skip(240)))
}

/// The message type: the first byte of option 53.
pub open spec fn message_type(pkt: Seq<u8>) -> Option<u8> {
    let options = message_options(pkt);
    if options.contains_key(53) && options[53].len() > 0 {
        Some(options[53][0])
    } else {
        None
    }
}

/// The address that four bytes hold.
pub open spec fn address_of(bytes: Seq<u8>) -> Ipv4Addr {
    Ipv4Addr { a: bytes[0], b: bytes[1], c: bytes[2], d: bytes[3] }
}

/// The address that a client asks for: the first four bytes of option 50, or
/// else the address that the client says it has, unless that is 0.0.0.0.
pub open spec fn requested_address(pkt: Seq<u8>) -> Option<Ipv4Addr> {
    let options = message_options(pkt);
    let own = address_of(pkt.subrange(12, 16));
    if options.contains_key(50) && options[50].len() >= 4 {
        Some(address_of(options[50]))
    } else if own.bits() == 0 {
        None
    } else {
        Some(own)
    }
}

/// The transaction that a message belongs to.
pub open spec fn transaction_id(pkt: Seq<u8>) -> Seq<u8> {
    pkt.subrange(4, 8)
}

/// The hardware address of the client.
pub open spec fn client_mac(pkt: Seq<u8>) -> Seq<u8> {
    pkt.subrange(28, 34)
}

/// `n` bytes that are zero.
pub open spec fn zeros(n: nat) -> Seq<u8> {
    Seq::new(n, |i: int| 0u8)
}

/// `n` as four bytes, the most significant first.
pub open spec fn be_bytes(n: u32) -> Seq<u8> {
    seq![
        (n / 0x100_0000) as u8,
        (n / 0x1_0000 % 0x100) as u8,
        (n / 0x100 % 0x100) as u8,
        (n % 0x100) as u8,
    ]
}

/// The fixed part of a reply, up to and with the cookie.
pub open spec fn reply_head(
    gateway: Ipv4Addr,
    xid: Seq<u8>,
    mac: Seq<u8>,
    yiaddr: Ipv4Addr,
) -> Seq<u8> {
    seq![2u8, 1, 6, 0] + xid + zeros(8) + yiaddr.octets() + gateway.octets() + zeros(4) + mac
        + zeros(202) + magic_cookie()
}

/// The options of a reply that gives an address.
pub open spec fn lease_options(
    gateway: Ipv4Addr,
    subnet_mask: Ipv4Addr,
    lease_secs: u32,
    msg_type: u8,
) -> Seq<(u8, Seq<u8>)> {
    seq![
        (53u8, seq![msg_type]),
        (54u8, gateway.octets()),
        (51u8, be_bytes(lease_secs)),
        (58u8, be_bytes(lease_secs)),
        (1u8, subnet_mask.octets()),
        (3u8, gateway.octets()),
        (6u8, gateway.octets()),
    ]
}

/// The options of a reply that refuses a request.
pub open spec fn nak_options(gateway: Ipv4Addr) -> Seq<(u8, Seq<u8>)> {
    seq![(53u8, seq![DHCPNAK]), (54u8, gateway.octets())]
}

/// A reply that gives the address `yiaddr`.
pub open spec fn lease_reply(
    gateway: Ipv4Addr,
    subnet_mask: Ipv4Addr,
    lease_secs: u32,
    xid: Seq<u8>,
    mac: Seq<u8>,
    yiaddr: Ipv4Addr,
    msg_type: u8,
) -> Seq<u8> {
    reply_head(gateway, xid, mac, yiaddr) + options_bytes(
        lease_options(gateway, subnet_mask, lease_secs, msg_type),
    ) + seq![255u8]
}

/// A reply that refuses a request.
pub open spec fn nak_reply(gateway: Ipv4Addr, xid: Seq<u8>, mac: Seq<u8>) -> Seq<u8> {
    reply_head(gateway, xid, mac, Ipv4Addr { a: 0, b: 0, c: 0, d: 0 }) + options_bytes(
        nak_options(gateway),
    ) + seq![255u8]
}

/// A hardware address in print: six bytes in hexadecimal with colons between.
pub open spec fn mac_text(mac: Seq<u8>) -> Seq<char>
    decreases mac.len(),
{
    if mac.len() == 0 {
        Seq::empty()
    } else if mac.len() == 1 {
        hex_byte(mac[0])
    } else {
        mac_text(mac.drop_last()) + seq![':'] + hex_byte(mac.last())
    }
}

// ---------------------------------------------------------------------------
// Laws
// ---------------------------------------------------------------------------

/// What the option parser gives back of a list that was written: the list,
/// whatever stands behind the end mark.
pub proof fn law_options_read_back(list: Seq<(u8, Seq<u8>)>, rest: Seq<u8>)
    requires
        writable_options(list),
    ensures
        option_list(options_bytes(list) + seq![255u8] + rest) == list,
    decreases list.len(),
{
    let data = options_bytes(list) + seq![255u8] + rest;
    if list.len() == 0 {
        assert(data[0] == 255);
    } else {
        let (code, value) = list[0];
        let tail = list.drop_first();
        assert(list[0].1.len() <= 255);
        assert(writable_options(tail)) by {
            assert forall|i: int| 0 <= i < tail.len() implies {
                &&& (#[trigger] tail[i]).0 != 0
                &&& tail[i].0 != 255
                &&& tail[i].1.len() <= 255
            } by {
                assert(tail[i] == list[i + 1]);
            }
        }
        law_options_read_back(tail, rest);
        let n = value.len() as int;
        assert(data[0] == code);
        assert(data[1] == n as u8);
        assert(n as u8 == n);
        assert(data.subrange(2, 2 + n) =~= value);
        assert(data.skip(2 + n) =~= options_bytes(tail) + seq![255u8] + rest);
        assert(seq![(code, value)] + tail =~= list);
    }
}

/// Padding between options is skipped, and what follows the end mark, or an
/// option that the data is too short for, is not read.
pub proof fn law_padding_and_end(data: Seq<u8>, code: u8, length: u8)
    requires
        code != 0,
        code != 255,
    ensures
        option_list(seq![0u8] + data) == option_list(data),
        option_list(seq![255u8] + data) == Seq::<(u8, Seq<u8>)>::empty(),
        option_list(seq![code]) == Seq::<(u8, Seq<u8>)>::empty(),
        data.len() < length ==> option_list(seq![code, length] + data) == Seq::<
            (u8, Seq<u8>),
        >::empty(),
        option_list(Seq::empty()) == Seq::<(u8, Seq<u8>)>::empty(),
{
    assert((seq![0u8] + data).skip(1) =~= data);
}

/// An option stands for its code; where a code occurs more than once, the last
/// one counts, and the other codes are as they were.
pub proof fn law_last_option_counts(
    list: Seq<(u8, Seq<u8>)>,
    code: u8,
    value: Seq<u8>,
    other: u8,
)
    ensures
        ({
            let named = option_map(list.push((code, value)));
            &&& named.contains_key(code)
            &&& named[code] == value
            &&& other != code ==> named.contains_key(other) == option_map(list).contains_key(other)
            &&& other != code && option_map(list).contains_key(other) ==> named[other]
                == option_map(list)[other]
        }),
        option_map(Seq::empty()) == Map::<u8, Seq<u8>>::empty(),
{
    assert(list.push((code, value)).drop_last() =~= list);
}

/// Seconds are sent with the most significant byte first.
pub proof fn law_seconds_read_back(n: u32)
    ensures
        be_bytes(n).len() == 4,
        be_bytes(n)[0] * 0x100_0000 + be_bytes(n)[1] * 0x1_0000 + be_bytes(n)[2] * 0x100
            + be_bytes(n)[3] == n,
{
}

/// The fields of a message stand at their places: the operation first, the
/// transaction after four bytes, the address of the client after twelve, its
/// hardware address after 28, the cookie after 236 and the options after that.
/// A message of a client is looked at whatever the other bytes are, and says
/// what it was made from.
pub proof fn law_message_fields(
    head: Seq<u8>,
    xid: Seq<u8>,
    gap: Seq<u8>,
    ciaddr: Ipv4Addr,
    more: Seq<u8>,
    mac: Seq<u8>,
    names: Seq<u8>,
    list: Seq<(u8, Seq<u8>)>,
)
    requires
        head.len() == 4,
        xid.len() == 4,
        gap.len() == 4,
        more.len() == 12,
        mac.len() == 6,
        names.len() == 202,
        writable_options(list),
    ensures
        ({
            let pkt = head + xid + gap + ciaddr.octets() + more + mac + names + seq![
                99u8,
                130,
                83,
                99,
            ] + options_bytes(list) + seq![255u8];
            let named = option_map(list);
            &&& is_client_message(pkt) == (head[0] == 1)
            &&& transaction_id(pkt) == xid
            &&& client_mac(pkt) == mac
            &&& message_options(pkt) == named
            &&& message_type(pkt) == if named.contains_key(53) && named[53].len() > 0 {
                Some(named[53][0])
            } else {
                None
            }
            &&& requested_address(pkt) == if named.contains_key(50) && named[50].len() >= 4 {
                Some(
                    Ipv4Addr {
                        a: named[50][0],
                        b: named[50][1],
                        c: named[50][2],
                        d: named[50][3],
                    },
                )
            } else if ciaddr.octets() == seq![0u8, 0, 0, 0] {
                None
            } else {
                Some(ciaddr)
            }
        }),
{
    let cookie = seq![99u8, 130, 83, 99];
    let fixed = head + xid + gap + ciaddr.octets() + more + mac + names + cookie;
    let pkt = fixed + options_bytes(list) + seq![255u8];
    assert(pkt.subrange(4, 8) =~= xid);
    assert(pkt.subrange(28, 34) =~= mac);
    assert(pkt.subrange(236, 240) =~= cookie);
    assert(pkt[0] == head[0]);
    assert(pkt.skip(240) =~= options_bytes(list) + seq![255u8] + Seq::<u8>::empty());
    law_options_read_back(list, Seq::empty());
    let own = pkt.subrange(12, 16);
    assert(own =~= ciaddr.octets());
    assert(address_of(own) == ciaddr);
    let zero = seq![0u8, 0, 0, 0];
    assert(ciaddr.bits() == 0 <==> ciaddr.octets() =~= zero) by {
        if ciaddr.octets() == zero {
            assert(ciaddr.a == zero[0] && ciaddr.b == zero[1]);
            assert(ciaddr.c == zero[2] && ciaddr.d == zero[3]);
        }
    }
}

/// The message types that there are have different names, and others none.
pub proof fn law_message_names(s: u8, t: u8)
    ensures
        t == 0 || t > 8 ==> message_name(t) == "UNKNOWN"@,
        1 <= s <= 8 && 1 <= t <= 8 && message_name(s) == message_name(t) ==> s == t,
{
    reveal_strlit("DISCOVER");
    reveal_strlit("OFFER");
    reveal_strlit("REQUEST");
    reveal_strlit("DECLINE");
    reveal_strlit("ACK");
    reveal_strlit("NAK");
    reveal_strlit("RELEASE");
    reveal_strlit("INFORM");
    assert("DISCOVER"@.len() == 8 && "OFFER"@.len() == 5 && "INFORM"@.len() == 6);
    assert("REQUEST"@.len() == 7 && "DECLINE"@.len() == 7 && "RELEASE"@.len() == 7);
    assert("ACK"@.len() == 3 && "NAK"@.len() == 3);
    assert("ACK"@[0] == 'A' && "NAK"@[0] == 'N');
    assert("REQUEST"@[2] == 'Q' && "DECLINE"@[2] == 'C' && "RELEASE"@[2] == 'L');
}

/// Data that is too short, not from a client or without the cookie is not
/// looked at.
pub proof fn law_other_data_is_not_a_message(pkt: Seq<u8>)
    ensures
        pkt.len() < 240 ==> !is_client_message(pkt),
        pkt.len() >= 240 ==> is_client_message(pkt) == (pkt[0] == 1 && pkt[236] == 99 && pkt[237]
            == 130 && pkt[238] == 83 && pkt[239] == 99),
        packet_fault(pkt) is None == is_client_message(pkt),
{
    if pkt.len() >= 240 {
        let c = pkt.subrange(236, 240);
        if pkt[236] == 99 && pkt[237] == 130 && pkt[238] == 83 && pkt[239] == 99 {
            assert(c =~= magic_cookie());
        } else if c == magic_cookie() {
            assert(c[0] == 99 && c[1] == 130 && c[2] == 83 && c[3] == 99);
        }
    }
}

/// A hardware address in print is its six bytes, each as two hexadecimal
/// digits, with colons between.
pub proof fn law_mac_text_reads_back(mac: Seq<u8>, i: int)
    requires
        mac.len() == 6,
        0 <= i < 6,
    ensures
        mac_text(mac).len() == 17,
        magnitude(mac_text(mac).subrange(3 * i, 3 * i + 2), 16) == Some(mac[i] as nat),
        i < 5 ==> mac_text(mac)[3 * i + 2] == ':',
{
    lemma_mac_text_prefix(mac, 6);
    assert(mac.take(6) =~= mac);
    let s = mac_text(mac).subrange(3 * i, 3 * i + 2);
    assert(s =~= hex_byte(mac[i]));
    lemma_hex_byte_reads_back(mac[i]);
}

/// A byte in print is read back.
proof fn lemma_hex_byte_reads_back(b: u8)
    ensures
        magnitude(hex_byte(b), 16) == Some(b as nat),
{
    let s = hex_byte(b);
    let (hi, lo) = ((b / 16) as nat, (b % 16) as nat);
    assert(digit_value(digit_char(hi), 16) == Some(hi));
    assert(digit_value(digit_char(lo), 16) == Some(lo));
    assert(all_digits(s, 16)) by {
        assert forall|i: int| 0 <= i < s.len() implies digit_value(#[trigger] s[i], 16) is Some by {
            assert(i == 0 || i == 1);
        }
    }
    reveal_with_fuel(digits_value, 3);
    assert(s.drop_last().last() == s[0]);
    assert(digits_value(s, 16) == hi * 16 + lo);
}

/// Where the bytes stand in the print of the first `n` of them.
proof fn lemma_mac_text_prefix(mac: Seq<u8>, n: int)
    requires
        mac.len() == 6,
        1 <= n <= 6,
    ensures
        mac_text(mac.take(n)).len() == 3 * n - 1,
        forall|i: int|
            #![trigger hex_byte(mac[i])]
            0 <= i < n ==> {
                let text = mac_text(mac.take(n));
                &&& text[3 * i] == hex_byte(mac[i])[0]
                &&& text[3 * i + 1] == hex_byte(mac[i])[1]
                &&& i < n - 1 ==> text[3 * i + 2] == ':'
            },
    decreases n,
{
    let s = mac.take(n);
    if n > 1 {
        lemma_mac_text_prefix(mac, n - 1);
        assert(s.drop_last() =~= mac.take(n - 1));
        assert(s.last() == mac[n - 1]);
        let less = mac_text(mac.take(n - 1));
        let text = mac_text(s);
        assert(text =~= less + seq![':'] + hex_byte(mac[n - 1]));
        assert forall|i: int|
            #![trigger hex_byte(mac[i])]
            0 <= i < n implies {
            &&& text[3 * i] == hex_byte(mac[i])[0]
            &&& text[3 * i + 1] == hex_byte(mac[i])[1]
            &&& i < n - 1 ==> text[3 * i + 2] == ':'
        } by {
            let k = less.len() as int;
            assert(k == 3 * n - 4);
            assert(text[k] == ':');
            if i < n - 1 {
                assert(text[3 * i] == less[3 * i]);
                assert(text[3 * i + 1] == less[3 * i + 1]);
                if i < n - 2 {
                    assert(text[3 * i + 2] == less[3 * i + 2]);
                } else {
                    assert(3 * i + 2 == k);
                }
            } else {
                assert(3 * i == k + 1);
                assert(text[k + 1] == hex_byte(mac[i])[0]);
                assert(text[k + 2] == hex_byte(mac[i])[1]);
            }
        }
    }
}

/// A reply that gives an address is a message of 280 bytes that says what it
/// was made from: transaction, hardware address, offered address, message
/// type, server, lease time, netmask, router and name server.
pub proof fn law_lease_reply_reads_back(
    gateway: Ipv4Addr,
    subnet_mask: Ipv4Addr,
    lease_secs: u32,
    xid: Seq<u8>,
    mac: Seq<u8>,
    yiaddr: Ipv4Addr,
    msg_type: u8,
)
    requires
        xid.len() == 4,
        mac.len() == 6,
    ensures
        ({
            let pkt = lease_reply(gateway, subnet_mask, lease_secs, xid, mac, yiaddr, msg_type);
            let options = message_options(pkt);
            &&& pkt.len() == 280
            &&& pkt[0] == 2
            &&& pkt.subrange(236, 240) == magic_cookie()
            &&& transaction_id(pkt) == xid
            &&& client_mac(pkt) == mac
            &&& address_of(pkt.subrange(16, 20)) == yiaddr
            &&& address_of(pkt.subrange(20, 24)) == gateway
            &&& message_type(pkt) == Some(msg_type)
            &&& options == map![
                53u8 => seq![msg_type],
                54u8 => gateway.octets(),
                51u8 => be_bytes(lease_secs),
                58u8 => be_bytes(lease_secs),
                1u8 => subnet_mask.octets(),
                3u8 => gateway.octets(),
                6u8 => gateway.octets(),
            ]
        }),
{
    let head = reply_head(gateway, xid, mac, yiaddr);
    let list = lease_options(gateway, subnet_mask, lease_secs, msg_type);
    let pkt = lease_reply(gateway, subnet_mask, lease_secs, xid, mac, yiaddr, msg_type);
    assert(head.len() == 240);
    reveal_with_fuel(options_bytes, 8);
    assert(options_bytes(list).len() == 39);
    assert(pkt.skip(240) =~= options_bytes(list) + seq![255u8] + Seq::<u8>::empty());
    law_options_read_back(list, Seq::empty());
    assert(pkt.subrange(236, 240) =~= magic_cookie());
    assert(transaction_id(pkt) =~= xid);
    assert(client_mac(pkt) =~= mac);
    reveal_with_fuel(option_map, 8);
    assert(message_options(pkt) =~= map![
        53u8 => seq![msg_type],
        54u8 => gateway.octets(),
        51u8 => be_bytes(lease_secs),
        58u8 => be_bytes(lease_secs),
        1u8 => subnet_mask.octets(),
        3u8 => gateway.octets(),
        6u8 => gateway.octets(),
    ]);
}

/// A reply that refuses a request is a message of 250 bytes that names no
/// address, and says the transaction, the hardware address and the server.
pub proof fn law_nak_reply_reads_back(gateway: Ipv4Addr, xid: Seq<u8>, mac: Seq<u8>)
    requires
        xid.len() == 4,
        mac.len() == 6,
    ensures
        ({
            let pkt = nak_reply(gateway, xid, mac);
            &&& pkt.len() == 250
            &&& pkt[0] == 2
            &&& pkt.subrange(236, 240) == magic_cookie()
            &&& transaction_id(pkt) == xid
            &&& client_mac(pkt) == mac
            &&& address_of(pkt.subrange(16, 20)).bits() == 0
            &&& message_type(pkt) == Some(DHCPNAK)
            &&& message_options(pkt) == map![53u8 => seq![DHCPNAK], 54u8 => gateway.octets()]
        }),
{
    let list = nak_options(gateway);
    let pkt = nak_reply(gateway, xid, mac);
    reveal_with_fuel(options_bytes, 3);
    assert(options_bytes(list).len() == 9);
    assert(pkt.skip(240) =~= options_bytes(list) + seq![255u8] + Seq::<u8>::empty());
    law_options_read_back(list, Seq::empty());
    assert(pkt.subrange(236, 240) =~= magic_cookie());
    assert(transaction_id(pkt) =~= xid);
    assert(client_mac(pkt) =~= mac);
    reveal_with_fuel(option_map, 3);
    assert(message_options(pkt) =~= map![53u8 => seq![DHCPNAK], 54u8 => gateway.octets()]);
}

// ---------------------------------------------------------------------------
// Operations
// ---------------------------------------------------------------------------

/// Reads the options that `data` holds.
pub fn parse_options(data: &[u8]) -> (res: HashMap<u8, Vec<u8>>)
    ensures
        byte_values(res@) == option_map(option_list(data@)),
{
    let mut map: HashMap<u8, Vec<u8>> = HashMap::new();
    let n: usize = data.len();
    let mut i: usize = 0;
    let ghost mut done: Seq<(u8, Seq<u8>)> = Seq::empty();
    assert(data@.skip(0) =~= data@);
    assert(done + option_list(data@) =~= option_list(data@));
    assert(byte_values(map@) =~= option_map(done));
    while i < n
        invariant_except_break
            i <= n,
            n == data@.len(),
            option_list(data@) == done + option_list(data@.skip(i as int)),
            byte_values(map@) == option_map(done),
        ensures
            byte_values(map@) == option_map(option_list(data@)),
        decreases n - i,
    {
        let ghost rest = data@.skip(i as int);
        let code: u8 = data[i];
        assert(rest[0] == code);
        if code == 255 {
            assert(done + Seq::empty() =~= done);
            break;
        }
        if code == 0 {
            assert(rest.skip(1) =~= data@.skip(i + 1));
            i = i + 1;
            continue;
        }
        if n - i < 2 {
            assert(done + Seq::empty() =~= done);
            break;
        }
        let len: usize = data[i + 1] as usize;
        assert(rest[1] == len);
        if n - i - 2 < len {
            assert(done + Seq::empty() =~= done);
            break;
        }
        let value: Vec<u8> = slice_to_vec(slice_subrange(data, i + 2, i + 2 + len));
        let ghost item = (code, value@);
        assert(rest.subrange(2, 2 + len) =~= value@);
        assert(rest.skip(2 + len) =~= data@.skip(i + 2 + len));
        let ghost old_map = map@;
        map.insert(code, value);
        proof {
            let tail = option_list(data@.skip(i + 2 + len));
            assert(done + (seq![item] + tail) =~= done.push(item) + tail);
            assert(done.push(item).drop_last() =~= done);
            assert(byte_values(map@) =~= byte_values(old_map).insert(code, value@));
            done = done.push(item);
        }
        i = i + 2 + len;
        if i == n {
            assert(data@.skip(i as int) =~= Seq::empty());
            assert(done + Seq::empty() =~= done);
        }
    }
    map
}

/// Tells packets that the server looks at from others.
pub fn check_packet(pkt: &[u8]) -> (res: Result<(), PacketFault>)
    ensures
        res == match packet_fault(pkt@) {
            Some(fault) => Err::<(), PacketFault>(fault),
            None => Ok::<(), PacketFault>(()),
        },
        res is Ok == is_client_message(pkt@),
{
    if pkt.len() < 240 {
        return Err(PacketFault::TooShort);
    }
    if pkt[0] != 1 {
        return Err(PacketFault::NotFromClient);
    }
    let cookie_ok: bool = pkt[236] == 99 && pkt[237] == 130 && pkt[238] == 83 && pkt[239] == 99;
    proof {
        let c = pkt@.subrange(236, 240);
        if cookie_ok {
            assert(c =~= magic_cookie());
        } else if c == magic_cookie() {
            assert(c[0] == 99 && c[1] == 130 && c[2] == 83 && c[3] == 99);
        }
    }
    if cookie_ok {
        Ok(())
    } else {
        Err(PacketFault::NoCookie)
    }
}

/// The type of a message by its options.
pub fn type_of_options(options: &HashMap<u8, Vec<u8>>) -> (res: Option<u8>)
    ensures
        ({
            let named = byte_values(options@);
            res == if named.contains_key(53) && named[53].len() > 0 {
                Some(named[53][0])
            } else {
                None
            }
        }),
{
    let ghost named = byte_values(options@);
    match options.get(&53) {
        Some(v) => {
            assert(named.contains_key(53) && named[53] == v@);
            if v.len() == 0 {
                None
            } else {
                Some(v[0])
            }
        },
        None => {
            assert(!named.contains_key(53));
            None
        },
    }
}

/// The hardware address of the client and the type of a message.
pub fn message_summary(pkt: &[u8]) -> (res: Option<([u8; 6], u8)>)
    ensures
        res is Some == (pkt@.len() >= 240 && message_type(pkt@) is Some),
        res matches Some((mac, msg_type)) ==> mac@ == client_mac(pkt@) && Some(msg_type)
            == message_type(pkt@),
{
    if pkt.len() < 240 {
        return None;
    }
    let options: HashMap<u8, Vec<u8>> = parse_options(slice_subrange(pkt, 240, pkt.len()));
    assert(pkt@.subrange(240, pkt@.len() as int) =~= pkt@.skip(240));
    match type_of_options(&options) {
        Some(msg_type) => {
            let mac: [u8; 6] = [pkt[28], pkt[29], pkt[30], pkt[31], pkt[32], pkt[33]];
            assert(mac@ =~= client_mac(pkt@));
            Some((mac, msg_type))
        },
        None => None,
    }
}

/// Adds `data` to the end of `out`.
fn push_bytes(out: &mut Vec<u8>, data: &[u8])
    ensures
        final(out)@ == old(out)@ + data@,
{
    out.extend_from_slice(data);
    assert(out@ =~= old(out)@ + data@);
}

/// Adds an address to the end of `out`.
fn push_address(out: &mut Vec<u8>, addr: Ipv4Addr)
    ensures
        final(out)@ == old(out)@ + addr.octets(),
{
    out.push(addr.a);
    out.push(addr.b);
    out.push(addr.c);
    out.push(addr.d);
    assert(out@ =~= old(out)@ + addr.octets());
}

/// Adds `n` zero bytes to the end of `out`.
fn push_zeros(out: &mut Vec<u8>, n: usize)
    ensures
        final(out)@ == old(out)@ + zeros(n as nat),
{
    let mut i: usize = 0;
    assert(out@ =~= old(out)@ + zeros(0));
    while i < n
        invariant
            i <= n,
            out@ == old(out)@ + zeros(i as nat),
        decreases n - i,
    {
        out.push(0);
        i = i + 1;
        assert(out@ =~= old(out)@ + zeros(i as nat));
    }
}

/// Adds an option that holds an address to the end of `out`.
fn push_address_option(out: &mut Vec<u8>, code: u8, addr: Ipv4Addr)
    ensures
        final(out)@ == old(out)@ + option_bytes(code, addr.octets()),
{
    out.push(code);
    out.push(4);
    push_address(out, addr);
    assert(out@ =~= old(out)@ + option_bytes(code, addr.octets()));
}

/// Adds an option that holds a number of seconds to the end of `out`.
fn push_seconds_option(out: &mut Vec<u8>, code: u8, secs: u32)
    ensures
        final(out)@ == old(out)@ + option_bytes(code, be_bytes(secs)),
{
    out.push(code);
    out.push(4);
    out.push((secs / 0x100_0000) as u8);
    out.push((secs / 0x1_0000 % 0x100) as u8);
    out.push((secs / 0x100 % 0x100) as u8);
    out.push((secs % 0x100) as u8);
    assert(out@ =~= old(out)@ + option_bytes(code, be_bytes(secs)));
}

/// Adds the message type option to the end of `out`.
fn push_type_option(out: &mut Vec<u8>, msg_type: u8)
    ensures
        final(out)@ == old(out)@ + option_bytes(53, seq![msg_type]),
{
    out.push(53);
    out.push(1);
    out.push(msg_type);
    assert(out@ =~= old(out)@ + option_bytes(53, seq![msg_type]));
}

/// The fixed part of a reply.
pub fn base_reply(gateway: Ipv4Addr, xid: &[u8; 4], mac: &[u8; 6], yiaddr: Ipv4Addr) -> (res: Vec<
    u8,
>)
    ensures
        res@ == reply_head(gateway, xid@, mac@, yiaddr),
{
    let mut pkt: Vec<u8> = Vec::new();
    pkt.push(2);
    pkt.push(1);
    pkt.push(6);
    pkt.push(0);
    assert(pkt@ =~= seq![2u8, 1, 6, 0]);
    push_bytes(&mut pkt, xid);
    push_zeros(&mut pkt, 8);
    push_address(&mut pkt, yiaddr);
    push_address(&mut pkt, gateway);
    push_zeros(&mut pkt, 4);
    push_bytes(&mut pkt, mac);
    push_zeros(&mut pkt, 202);
    let ghost before = pkt@;
    pkt.push(99);
    pkt.push(130);
    pkt.push(83);
    pkt.push(99);
    assert(pkt@ =~= before + magic_cookie());
    pkt
}

/// A reply that gives the address `yiaddr`.
pub fn build_reply(
    gateway: Ipv4Addr,
    subnet_mask: Ipv4Addr,
    lease_secs: u32,
    xid: &[u8; 4],
    mac: &[u8; 6],
    yiaddr: Ipv4Addr,
    msg_type: u8,
) -> (res: Vec<u8>)
    ensures
        res@ == lease_reply(gateway, subnet_mask, lease_secs, xid@, mac@, yiaddr, msg_type),
{
    let mut pkt: Vec<u8> = base_reply(gateway, xid, mac, yiaddr);
    push_type_option(&mut pkt, msg_type);
    push_address_option(&mut pkt, 54, gateway);
    push_seconds_option(&mut pkt, 51, lease_secs);
    push_seconds_option(&mut pkt, 58, lease_secs);
    push_address_option(&mut pkt, 1, subnet_mask);
    push_address_option(&mut pkt, 3, gateway);
    push_address_option(&mut pkt, 6, gateway);
    pkt.push(255);
    proof {
        reveal_with_fuel(options_bytes, 8);
        assert(pkt@ =~= lease_reply(
            gateway,
            subnet_mask,
            lease_secs,
            xid@,
            mac@,
            yiaddr,
            msg_type,
        ));
    }
    pkt
}

/// A reply that refuses a request.
pub fn build_nak(gateway: Ipv4Addr, xid: &[u8; 4], mac: &[u8; 6]) -> (res: Vec<u8>)
    ensures
        res@ == nak_reply(gateway, xid@, mac@),
{
    let mut pkt: Vec<u8> = base_reply(gateway, xid, mac, Ipv4Addr { a: 0, b: 0, c: 0, d: 0 });
    push_type_option(&mut pkt, DHCPNAK);
    push_address_option(&mut pkt, 54, gateway);
    pkt.push(255);
    proof {
        reveal_with_fuel(options_bytes, 3);
        assert(pkt@ =~= nak_reply(gateway, xid@, mac@));
    }
    pkt
}

/// A hardware address in print.
pub fn fmt_mac(mac: &[u8; 6]) -> (res: String)
    ensures
        res@ == mac_text(mac@),
{
    let mut res: String = String::new();
    let mut i: usize = 0;
    assert(mac@.take(0).len() == 0);
    proof {
        reveal_strlit(":");
    }
    while i < 6
        invariant
            i <= 6,
            res@ == mac_text(mac@.take(i as int)),
            ":"@ == seq![':'],
        decreases 6 - i,
    {
        assert(mac@.take(i + 1).drop_last() =~= mac@.take(i as int));
        if i > 0 {
            res.append(":");
        } else {
            assert(res@ =~= Seq::empty());
        }
        push_hex_byte(&mut res, mac[i]);
        assert(mac@.take(i + 1).last() == mac@[i as int]);
        if i == 0 {
            assert(res@ =~= hex_byte(mac@.take(1)[0]));
        }
        i = i + 1;
    }
    assert(mac@.take(6) =~= mac@);
    res
}

/// The name of a message type.
pub open spec fn message_name(t: u8) -> Seq<char> {
    match t {
        1 => "DISCOVER"@,
        2 => "OFFER"@,
        3 => "REQUEST"@,
        4 => "DECLINE"@,
        5 => "ACK"@,
        6 => "NAK"@,
        7 => "RELEASE"@,
        8 => "INFORM"@,
        _ => "UNKNOWN"@,
    }
}

/// The name of a message type.
pub fn msg_type_name(t: u8) -> (res: &'static str)
    ensures
        res@ == message_name(t),
{
    match t {
        1 => "DISCOVER",
        2 => "OFFER",
        3 => "REQUEST",
        4 => "DECLINE",
        5 => "ACK",
        6 => "NAK",
        7 => "RELEASE",
        8 => "INFORM",
        _ => "UNKNOWN",
    }
}

} // verus!
