//! That the defaults of a network class go together.
use vstd::prelude::*;
use vstd::string::*;

use crate::config::{class_gateway, class_network, class_range, ConfigView, NetworkClass};
use crate::net::{dotted_value, octet_value, Ipv4Addr};
use crate::number::{all_digits, decimal, digit_value, digits_value};
use crate::process::{cidr_of, prefix_length, subnet_of};
use crate::session::{address_fault, server_of, settings_of};
use crate::text::{joined, law_split_undoes_join, split_on};

verus! {

broadcast use vstd::string::group_string_axioms;

/// The length of the network prefix of a network class.
pub open spec fn class_prefix(class: NetworkClass) -> nat {
    match class {
        NetworkClass::A => 8,
        NetworkClass::B => 12,
        NetworkClass::C => 24,
    }
}

/// How many addresses the network of a class has.
pub open spec fn class_size(class: NetworkClass) -> nat {
    match class {
        NetworkClass::A => 0x100_0000,
        NetworkClass::B => 0x10_0000,
        NetworkClass::C => 0x100,
    }
}

/// The address with these octets.
pub open spec fn quad(a: u8, b: u8, c: u8, d: u8) -> Ipv4Addr {
    Ipv4Addr { a, b, c, d }
}

/// The parts of the gateway of class A.
spec fn parts_a() -> Seq<Seq<char>> {
    seq![seq!['1', '0'], seq!['0'], seq!['0'], seq!['1']]
}

/// The parts of the gateway of class B.
spec fn parts_b() -> Seq<Seq<char>> {
    seq![seq!['1', '7', '2'], seq!['1', '6'], seq!['0'], seq!['1']]
}

/// The parts of the gateway of class C.
spec fn parts_c() -> Seq<Seq<char>> {
    seq![seq!['1', '9', '2'], seq!['1', '6', '8'], seq!['1', '0', '0'], seq!['1']]
}

proof fn lemma_octet1(a: char)
    requires
        '0' <= a <= '9',
    ensures
        octet_value(seq![a]) == Some((a as int - '0' as int) as nat),
{
    let s = seq![a];
    assert(s.drop_last() =~= Seq::empty());
    assert(digits_value(s.drop_last(), 10) == 0);
    assert(digit_value(a, 10) is Some);
    assert(all_digits(s, 10));
}

proof fn lemma_octet2(a: char, b: char)
    requires
        '1' <= a <= '9',
        '0' <= b <= '9',
    ensures
        octet_value(seq![a, b]) == Some(
            ((a as int - '0' as int) * 10 + (b as int - '0' as int)) as nat,
        ),
{
    let s = seq![a, b];
    lemma_octet1(a);
    assert(s.drop_last() =~= seq![a]);
    assert(digit_value(a, 10) is Some);
    assert(digit_value(b, 10) is Some);
    assert(all_digits(s, 10));
}

proof fn lemma_octet3(a: char, b: char, c: char)
    requires
        '1' <= a <= '9',
        '0' <= b <= '9',
        '0' <= c <= '9',
        (a as int - '0' as int) * 100 + (b as int - '0' as int) * 10 + (c as int - '0' as int)
            <= 255,
    ensures
        octet_value(seq![a, b, c]) == Some(
            ((a as int - '0' as int) * 100 + (b as int - '0' as int) * 10 + (c as int
                - '0' as int)) as nat,
        ),
{
    let s = seq![a, b, c];
    lemma_octet2(a, b);
    assert(s.drop_last() =~= seq![a, b]);
    assert(digit_value(a, 10) is Some);
    assert(digit_value(b, 10) is Some);
    assert(digit_value(c, 10) is Some);
    assert(all_digits(s, 10));
}

/// The address that four octets write.
proof fn lemma_dotted(s: Seq<char>, p: Seq<char>, q: Seq<char>, r: Seq<char>, t: Seq<char>)
    requires
        octet_value(p) is Some,
        octet_value(q) is Some,
        octet_value(r) is Some,
        octet_value(t) is Some,
        s =~= p + seq!['.'] + q + seq!['.'] + r + seq!['.'] + t,
    ensures
        split_on(s, '.') == seq![p, q, r, t],
        dotted_value(s) == Some(
            Ipv4Addr {
                a: octet_value(p)->0 as u8,
                b: octet_value(q)->0 as u8,
                c: octet_value(r)->0 as u8,
                d: octet_value(t)->0 as u8,
            },
        ),
{
    let parts = seq![p, q, r, t];
    assert forall|i: int| 0 <= i < parts.len() implies !(#[trigger] parts[i]).contains('.') by {
        let part = parts[i];
        assert(octet_value(part) is Some);
        assert forall|k: int| 0 <= k < part.len() implies part[k] != '.' by {
            assert(digit_value(part[k], 10) is Some);
        }
    }
    law_split_undoes_join(parts, '.');
    let dot = seq!['.'];
    let three = parts.drop_last();
    let two = three.drop_last();
    let one = two.drop_last();
    assert(joined(one, dot) == p);
    assert(joined(two, dot) =~= p + dot + q);
    assert(joined(three, dot) =~= p + dot + q + dot + r);
    assert(joined(parts, dot) =~= s);
}

#[verifier::rlimit(40)]
proof fn lemma_class_a_addresses()
    ensures
        dotted_value("10.0.0.1"@) == Some(quad(10, 0, 0, 1)),
        dotted_value("10.0.0.10"@) == Some(quad(10, 0, 0, 10)),
        dotted_value("10.0.0.250"@) == Some(quad(10, 0, 0, 250)),
        dotted_value("255.0.0.0"@) == Some(quad(255, 0, 0, 0)),
        dotted_value("10.0.0.0"@) == Some(quad(10, 0, 0, 0)),
        split_on("10.0.0.1"@, '.') == parts_a(),
{
    assert({
        &&& dotted_value("10.0.0.1"@) == Some(quad(10, 0, 0, 1))
        &&& split_on("10.0.0.1"@, '.') == parts_a()
    }) by {
        lemma_octet2('1', '0');
        lemma_octet1('0');
        lemma_octet1('1');
        reveal_strlit("10.0.0.1");
        lemma_dotted("10.0.0.1"@, seq!['1', '0'], seq!['0'], seq!['0'], seq!['1']);
    }
    assert(dotted_value("10.0.0.10"@) == Some(quad(10, 0, 0, 10))) by {
        lemma_octet2('1', '0');
        lemma_octet1('0');
        reveal_strlit("10.0.0.10");
        lemma_dotted("10.0.0.10"@, seq!['1', '0'], seq!['0'], seq!['0'], seq!['1', '0']);
    }
    assert(dotted_value("10.0.0.250"@) == Some(quad(10, 0, 0, 250))) by {
        lemma_octet2('1', '0');
        lemma_octet1('0');
        lemma_octet3('2', '5', '0');
        reveal_strlit("10.0.0.250");
        lemma_dotted("10.0.0.250"@, seq!['1', '0'], seq!['0'], seq!['0'], seq!['2', '5', '0']);
    }
    assert(dotted_value("255.0.0.0"@) == Some(quad(255, 0, 0, 0))) by {
        lemma_octet3('2', '5', '5');
        lemma_octet1('0');
        reveal_strlit("255.0.0.0");
        lemma_dotted("255.0.0.0"@, seq!['2', '5', '5'], seq!['0'], seq!['0'], seq!['0']);
    }
    assert(dotted_value("10.0.0.0"@) == Some(quad(10, 0, 0, 0))) by {
        lemma_octet2('1', '0');
        lemma_octet1('0');
        reveal_strlit("10.0.0.0");
        lemma_dotted("10.0.0.0"@, seq!['1', '0'], seq!['0'], seq!['0'], seq!['0']);
    }
}

#[verifier::rlimit(40)]
proof fn lemma_class_b_addresses()
    ensures
        dotted_value("172.16.0.1"@) == Some(quad(172, 16, 0, 1)),
        dotted_value("172.16.0.10"@) == Some(quad(172, 16, 0, 10)),
        dotted_value("172.16.0.250"@) == Some(quad(172, 16, 0, 250)),
        dotted_value("255.240.0.0"@) == Some(quad(255, 240, 0, 0)),
        dotted_value("172.16.0.0"@) == Some(quad(172, 16, 0, 0)),
        split_on("172.16.0.1"@, '.') == parts_b(),
{
    assert({
        &&& dotted_value("172.16.0.1"@) == Some(quad(172, 16, 0, 1))
        &&& split_on("172.16.0.1"@, '.') == parts_b()
    }) by {
        lemma_octet3('1', '7', '2');
        lemma_octet2('1', '6');
        lemma_octet1('0');
        lemma_octet1('1');
        reveal_strlit("172.16.0.1");
        lemma_dotted("172.16.0.1"@, seq!['1', '7', '2'], seq!['1', '6'], seq!['0'], seq!['1']);
    }
    assert(dotted_value("172.16.0.10"@) == Some(quad(172, 16, 0, 10))) by {
        lemma_octet3('1', '7', '2');
        lemma_octet2('1', '6');
        lemma_octet1('0');
        lemma_octet2('1', '0');
        reveal_strlit("172.16.0.10");
        lemma_dotted(
            "172.16.0.10"@,
            seq!['1', '7', '2'],
            seq!['1', '6'],
            seq!['0'],
            seq!['1', '0'],
        );
    }
    assert(dotted_value("172.16.0.250"@) == Some(quad(172, 16, 0, 250))) by {
        lemma_octet3('1', '7', '2');
        lemma_octet2('1', '6');
        lemma_octet1('0');
        lemma_octet3('2', '5', '0');
        reveal_strlit("172.16.0.250");
        lemma_dotted(
            "172.16.0.250"@,
            seq!['1', '7', '2'],
            seq!['1', '6'],
            seq!['0'],
            seq!['2', '5', '0'],
        );
    }
    assert(dotted_value("255.240.0.0"@) == Some(quad(255, 240, 0, 0))) by {
        lemma_octet3('2', '5', '5');
        lemma_octet3('2', '4', '0');
        lemma_octet1('0');
        reveal_strlit("255.240.0.0");
        lemma_dotted(
            "255.240.0.0"@,
            seq!['2', '5', '5'],
            seq!['2', '4', '0'],
            seq!['0'],
            seq!['0'],
        );
    }
    assert(dotted_value("172.16.0.0"@) == Some(quad(172, 16, 0, 0))) by {
        lemma_octet3('1', '7', '2');
        lemma_octet2('1', '6');
        lemma_octet1('0');
        reveal_strlit("172.16.0.0");
        lemma_dotted("172.16.0.0"@, seq!['1', '7', '2'], seq!['1', '6'], seq!['0'], seq!['0']);
    }
}

#[verifier::rlimit(40)]
proof fn lemma_class_c_addresses()
    ensures
        dotted_value("192.168.100.1"@) == Some(quad(192, 168, 100, 1)),
        dotted_value("192.168.100.10"@) == Some(quad(192, 168, 100, 10)),
        dotted_value("192.168.100.250"@) == Some(quad(192, 168, 100, 250)),
        dotted_value("255.255.255.0"@) == Some(quad(255, 255, 255, 0)),
        dotted_value("192.168.100.0"@) == Some(quad(192, 168, 100, 0)),
        split_on("192.168.100.1"@, '.') == parts_c(),
{
    assert({
        &&& dotted_value("192.168.100.1"@) == Some(quad(192, 168, 100, 1))
        &&& split_on("192.168.100.1"@, '.') == parts_c()
    }) by {
        lemma_octet3('1', '9', '2');
        lemma_octet3('1', '6', '8');
        lemma_octet3('1', '0', '0');
        lemma_octet1('1');
        reveal_strlit("192.168.100.1");
        lemma_dotted(
            "192.168.100.1"@,
            seq!['1', '9', '2'],
            seq!['1', '6', '8'],
            seq!['1', '0', '0'],
            seq!['1'],
        );
    }
    assert(dotted_value("192.168.100.10"@) == Some(quad(192, 168, 100, 10))) by {
        lemma_octet3('1', '9', '2');
        lemma_octet3('1', '6', '8');
        lemma_octet3('1', '0', '0');
        lemma_octet2('1', '0');
        reveal_strlit("192.168.100.10");
        lemma_dotted(
            "192.168.100.10"@,
            seq!['1', '9', '2'],
            seq!['1', '6', '8'],
            seq!['1', '0', '0'],
            seq!['1', '0'],
        );
    }
    assert(dotted_value("192.168.100.250"@) == Some(quad(192, 168, 100, 250))) by {
        lemma_octet3('1', '9', '2');
        lemma_octet3('1', '6', '8');
        lemma_octet3('1', '0', '0');
        lemma_octet3('2', '5', '0');
        reveal_strlit("192.168.100.250");
        lemma_dotted(
            "192.168.100.250"@,
            seq!['1', '9', '2'],
            seq!['1', '6', '8'],
            seq!['1', '0', '0'],
            seq!['2', '5', '0'],
        );
    }
    assert(dotted_value("255.255.255.0"@) == Some(quad(255, 255, 255, 0))) by {
        lemma_octet3('2', '5', '5');
        lemma_octet1('0');
        reveal_strlit("255.255.255.0");
        lemma_dotted(
            "255.255.255.0"@,
            seq!['2', '5', '5'],
            seq!['2', '5', '5'],
            seq!['2', '5', '5'],
            seq!['0'],
        );
    }
    assert(dotted_value("192.168.100.0"@) == Some(quad(192, 168, 100, 0))) by {
        lemma_octet3('1', '9', '2');
        lemma_octet3('1', '6', '8');
        lemma_octet3('1', '0', '0');
        lemma_octet1('0');
        reveal_strlit("192.168.100.0");
        lemma_dotted(
            "192.168.100.0"@,
            seq!['1', '9', '2'],
            seq!['1', '6', '8'],
            seq!['1', '0', '0'],
            seq!['0'],
        );
    }
}

/// The text of the network that address translation is set up for, by the
/// parts of the gateway.
proof fn lemma_subnet(gateway: Seq<char>, network: Seq<char>, p: Seq<Seq<char>>, prefix: nat)
    requires
        split_on(gateway, '.') == p,
        p.len() == 4,
        prefix_length(p[0]) == prefix,
        network =~= p[0] + seq!['.'] + p[1] + seq!['.'] + p[2] + seq!['.', '0'],
    ensures
        cidr_of(gateway) == Some(gateway + "/"@ + decimal(prefix)),
        subnet_of(gateway) == Some(network + "/"@ + decimal(prefix)),
{
    reveal_strlit(".");
    reveal_strlit("/");
    reveal_strlit(".0/");
    assert("."@ =~= seq!['.']);
    assert(".0/"@ =~= seq!['.', '0'] + "/"@);
    let head = p[0] + "."@ + p[1] + "."@ + p[2];
    assert(head + ".0/"@ =~= network + "/"@);
}

proof fn lemma_class_a_subnet()
    ensures
        cidr_of("10.0.0.1"@) == Some("10.0.0.1"@ + "/"@ + decimal(8)),
        subnet_of("10.0.0.1"@) == Some("10.0.0.0"@ + "/"@ + decimal(8)),
{
    lemma_class_a_addresses();
    reveal_strlit("10");
    reveal_strlit("10.0.0.0");
    assert("10"@ =~= seq!['1', '0']);
    lemma_subnet("10.0.0.1"@, "10.0.0.0"@, parts_a(), 8);
}

proof fn lemma_class_b_subnet()
    ensures
        cidr_of("172.16.0.1"@) == Some("172.16.0.1"@ + "/"@ + decimal(12)),
        subnet_of("172.16.0.1"@) == Some("172.16.0.0"@ + "/"@ + decimal(12)),
{
    lemma_class_b_addresses();
    reveal_strlit("10");
    reveal_strlit("172");
    reveal_strlit("172.16.0.0");
    assert("10"@.len() == 2);
    assert("172"@ =~= seq!['1', '7', '2']);
    lemma_subnet(
        "172.16.0.1"@,
        "172.16.0.0"@,
        parts_b(),
        12,
    );
}

proof fn lemma_class_c_subnet()
    ensures
        cidr_of("192.168.100.1"@) == Some("192.168.100.1"@ + "/"@ + decimal(24)),
        subnet_of("192.168.100.1"@) == Some("192.168.100.0"@ + "/"@ + decimal(24)),
{
    lemma_class_c_addresses();
    reveal_strlit("10");
    reveal_strlit("172");
    reveal_strlit("192.168.100.0");
    assert("10"@.len() == 2);
    assert("172"@[1] == '7');
    assert(seq!['1', '9', '2'][1] == '9');
    lemma_subnet(
        "192.168.100.1"@,
        "192.168.100.0"@,
        parts_c(),
        24,
    );
}

/// The network `network` of `size` addresses holds the gateway and, above it,
/// the given addresses, and `netmask` cuts it out.
pub open spec fn network_fits(
    network: Ipv4Addr,
    netmask: Ipv4Addr,
    size: nat,
    gateway: Ipv4Addr,
    start: Ipv4Addr,
    end: Ipv4Addr,
) -> bool {
    &&& network.bits() % size == 0
    &&& netmask.bits() == 0x1_0000_0000 - size
    &&& network.bits() < gateway.bits() < start.bits() <= end.bits() < network.bits() + size
}

proof fn lemma_class_size(class: NetworkClass)
    ensures
        class_size(class) == vstd::arithmetic::power2::pow2((32 - class_prefix(class)) as nat),
{
    vstd::arithmetic::power2::lemma2_to64();
}

proof fn lemma_class_a_fits()
    ensures
        network_fits(
            quad(10, 0, 0, 0),
            quad(255, 0, 0, 0),
            0x100_0000,
            quad(10, 0, 0, 1),
            quad(10, 0, 0, 10),
            quad(10, 0, 0, 250),
        ),
        quad(10, 0, 0, 250).bits() - quad(10, 0, 0, 10).bits() == 240,
{
}

proof fn lemma_class_b_fits()
    ensures
        network_fits(
            quad(172, 16, 0, 0),
            quad(255, 240, 0, 0),
            0x10_0000,
            quad(172, 16, 0, 1),
            quad(172, 16, 0, 10),
            quad(172, 16, 0, 250),
        ),
        quad(172, 16, 0, 250).bits() - quad(172, 16, 0, 10).bits() == 240,
{
}

proof fn lemma_class_c_fits()
    ensures
        network_fits(
            quad(192, 168, 100, 0),
            quad(255, 255, 255, 0),
            0x100,
            quad(192, 168, 100, 1),
            quad(192, 168, 100, 10),
            quad(192, 168, 100, 250),
        ),
        quad(192, 168, 100, 250).bits() - quad(192, 168, 100, 10).bits() == 240,
{
}

/// The defaults of a network class go together: all are addresses; the network
/// address is a multiple of the size of the network and the netmask cuts that
/// size out; gateway and given addresses lie inside, the gateway below all of
/// those, of which there are 241; and the network that address translation is
/// set up for is the one with this network address, the prefix saying its size.
pub proof fn law_class_defaults_go_together(class: NetworkClass)
    ensures
        dotted_value(class_gateway(class)) is Some,
        dotted_value(class_range(class).start) is Some,
        dotted_value(class_range(class).end) is Some,
        dotted_value(class_range(class).netmask) is Some,
        dotted_value(class_network(class)) is Some,
        network_fits(
            dotted_value(class_network(class))->0,
            dotted_value(class_range(class).netmask)->0,
            class_size(class),
            dotted_value(class_gateway(class))->0,
            dotted_value(class_range(class).start)->0,
            dotted_value(class_range(class).end)->0,
        ),
        dotted_value(class_range(class).end)->0.bits() - dotted_value(
            class_range(class).start,
        )->0.bits() == 240,
        class_size(class) == vstd::arithmetic::power2::pow2((32 - class_prefix(class)) as nat),
        cidr_of(class_gateway(class)) == Some(
            class_gateway(class) + "/"@ + decimal(class_prefix(class)),
        ),
        subnet_of(class_gateway(class)) == Some(
            class_network(class) + "/"@ + decimal(class_prefix(class)),
        ),
{
    lemma_class_size(class);
    match class {
        NetworkClass::A => {
            lemma_class_a_addresses();
            lemma_class_a_subnet();
            lemma_class_a_fits();
        },
        NetworkClass::B => {
            lemma_class_b_addresses();
            lemma_class_b_subnet();
            lemma_class_b_fits();
        },
        NetworkClass::C => {
            lemma_class_c_addresses();
            lemma_class_c_subnet();
            lemma_class_c_fits();
        },
    }
}

/// The networks of the classes are the private ones of 10/8, 172.16/12 and
/// 192.168/16. In each the gateway is the first address, and those from the
/// tenth to the 250th are given.
pub proof fn law_class_networks_are_private(class: NetworkClass)
    ensures
        ({
            let network = dotted_value(class_network(class))->0.bits();
            &&& class == NetworkClass::A ==> network / 0x100_0000 == 10
            &&& class == NetworkClass::B ==> network / 0x10_0000 == 172 * 16 + 1
            &&& class == NetworkClass::C ==> network / 0x1_0000 == 192 * 256 + 168
            &&& dotted_value(class_gateway(class))->0.bits() == network + 1
            &&& dotted_value(class_range(class).start)->0.bits() == network + 10
            &&& dotted_value(class_range(class).end)->0.bits() == network + 250
        }),
{
    match class {
        NetworkClass::A => {
            lemma_class_a_addresses();
            lemma_class_a_fits();
        },
        NetworkClass::B => {
            lemma_class_b_addresses();
            lemma_class_b_fits();
        },
        NetworkClass::C => {
            lemma_class_c_addresses();
            lemma_class_c_fits();
        },
    }
}

/// A hotspot that leaves gateway and addresses to its network class gets a
/// DHCP server, with 241 addresses of which the gateway is none.
pub proof fn law_default_addresses_make_a_server(cfg: ConfigView)
    requires
        cfg.gateway is None,
        cfg.dhcp_range is None,
    ensures
        address_fault(cfg) is None,
        server_of(cfg).pool.len() == 241,
        !server_of(cfg).pool.contains(settings_of(cfg).gateway.bits() as u32),
{
    law_class_defaults_go_together(cfg.network_class);
}

} // verus!
