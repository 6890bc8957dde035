//! IPv4 addresses, and what comes in at a socket.
use vstd::prelude::*;

use crate::number::{
    decimal, digit_value, digits_value, law_decimal_has_no_leading_zero, law_decimal_reads_back,
    magnitude, read_magnitude,
};
use crate::text::{
    chars_of, joined, law_join_undoes_split, law_split_undoes_join, split, split_on, texts,
};

verus! {

/// An IPv4 address, by its four octets.
#[derive(Debug, Clone, Copy, PartialEq, Eq, Structural)]
pub struct Ipv4Addr {
    pub a: u8,
    pub b: u8,
    pub c: u8,
    pub d: u8,
}

/// What came out of waiting for a packet.
pub enum Received<'a> {
    Packet(&'a [u8]),
    TimedOut,
    Failed,
}

/// The number that an octet of a dotted address writes: one to three decimal
/// digits, no leading zero, at most 255.
pub open spec fn octet_value(s: Seq<char>) -> Option<nat> {
    if s.len() <= 3 && (s.len() > 1 ==> s[0] != '0') {
        match magnitude(s, 10) {
            Some(v) => if v <= 255 {
                Some(v)
            } else {
                None
            },
            None => None,
        }
    } else {
        None
    }
}

/// The address that four octets with full stops between them write.
pub open spec fn dotted_value(s: Seq<char>) -> Option<Ipv4Addr> {
    let p = split_on(s, '.');
    if p.len() == 4 && octet_value(p[0]) is Some && octet_value(p[1]) is Some && octet_value(
        p[2],
    ) is Some && octet_value(p[3]) is Some {
        Some(
            Ipv4Addr {
                a: octet_value(p[0])->0 as u8,
                b: octet_value(p[1])->0 as u8,
                c: octet_value(p[2])->0 as u8,
                d: octet_value(p[3])->0 as u8,
            },
        )
    } else {
        None
    }
}

/// The address that is `bits` as a number.
pub open spec fn address(bits: u32) -> Ipv4Addr {
    Ipv4Addr {
        a: (bits / 0x100_0000) as u8,
        b: (bits / 0x1_0000 % 0x100) as u8,
        c: (bits / 0x100 % 0x100) as u8,
        d: (bits % 0x100) as u8,
    }
}

/// Reads one octet of a dotted address.
fn parse_octet(s: &str) -> (res: Option<u8>)
    ensures
        match octet_value(s@) {
            Some(v) => res == Some(v as u8),
            None => res is None,
        },
{
    let x: Vec<char> = chars_of(s);
    let n: usize = x.len();
    if n > 3 || (n > 1 && x[0] == '0') {
        return None;
    }
    assert(x@.skip(0) =~= x@);
    match read_magnitude(&x, 0, 10, 255) {
        Some(v) => Some(v as u8),
        None => None,
    }
}

impl Ipv4Addr {
    /// The four octets, in the order in which they are written and sent.
    pub open spec fn octets(self) -> Seq<u8> {
        seq![self.a, self.b, self.c, self.d]
    }

    /// The address as a number, the first octet the most significant.
    pub open spec fn bits(self) -> nat {
        (self.a * 0x100_0000 + self.b * 0x1_0000 + self.c * 0x100 + self.d) as nat
    }

    pub fn new(a: u8, b: u8, c: u8, d: u8) -> (res: Self)
        ensures
            res.octets() == seq![a, b, c, d],
    {
        Ipv4Addr { a, b, c, d }
    }

    /// The address as a number.
    pub fn to_bits(self) -> (res: u32)
        ensures
            res == self.bits(),
    {
        (self.a as u32) * 0x100_0000 + (self.b as u32) * 0x1_0000 + (self.c as u32) * 0x100 + (
        self.d as u32)
    }

    /// The address that is `bits` as a number.
    pub fn from_bits(bits: u32) -> (res: Self)
        ensures
            res == address(bits),
            res.bits() == bits,
    {
        Ipv4Addr {
            a: (bits / 0x100_0000) as u8,
            b: (bits / 0x1_0000 % 0x100) as u8,
            c: (bits / 0x100 % 0x100) as u8,
            d: (bits % 0x100) as u8,
        }
    }

    /// Whether this is the address 0.0.0.0.
    pub fn is_unspecified(self) -> (res: bool)
        ensures
            res == (self.bits() == 0),
    {
        self.a == 0 && self.b == 0 && self.c == 0 && self.d == 0
    }

    /// Reads a dotted address.
    pub fn parse(s: &str) -> (res: Option<Self>)
        ensures
            res == dotted_value(s@),
    {
        let p: Vec<String> = split(s, '.');
        assert forall|i: int| 0 <= i < p@.len() implies split_on(s@, '.')[i] == (
        #[trigger] p@[i])@ by {
            assert(texts(p@)[i] == p@[i]@);
        }
        if p.len() != 4 {
            return None;
        }
        match (
            parse_octet(p[0].as_str()),
            parse_octet(p[1].as_str()),
            parse_octet(p[2].as_str()),
            parse_octet(p[3].as_str()),
        ) {
            (Some(a), Some(b), Some(c), Some(d)) => Some(Ipv4Addr { a, b, c, d }),
            _ => None,
        }
    }
}

/// Every address is the one of its number.
pub proof fn law_address_of_bits(x: Ipv4Addr)
    ensures
        address(x.bits() as u32) == x,
{
    let (a, b, c, d) = (x.a as int, x.b as int, x.c as int, x.d as int);
    let n: int = a * 0x100_0000 + b * 0x1_0000 + c * 0x100 + d;
    assert(n / 0x100_0000 == a);
    assert(n / 0x1_0000 == a * 0x100 + b);
    assert(n / 0x100 == a * 0x1_0000 + b * 0x100 + c);
    assert((a * 0x100 + b) % 0x100 == b);
    assert((a * 0x1_0000 + b * 0x100 + c) % 0x100 == c);
    assert(n % 0x100 == d);
}

/// An address as it is written: its octets in base ten with full stops between.
pub open spec fn dotted_text(x: Ipv4Addr) -> Seq<char> {
    joined(
        seq![
            decimal(x.a as nat),
            decimal(x.b as nat),
            decimal(x.c as nat),
            decimal(x.d as nat),
        ],
        seq!['.'],
    )
}

/// An octet that is written is read back, and only what is written so is read.
proof fn lemma_octet_text(v: u8, s: Seq<char>)
    ensures
        octet_value(decimal(v as nat)) == Some(v as nat),
        octet_value(s) == Some(v as nat) ==> s == decimal(v as nat),
        !decimal(v as nat).contains('.'),
{
    let n = v as nat;
    let t = decimal(n);
    law_decimal_reads_back(n);
    law_decimal_has_no_leading_zero(n);
    reveal_with_fuel(decimal, 3);
    assert(t.len() <= 3);
    if t.contains('.') {
        let i = choose|i: int| 0 <= i < t.len() && t[i] == '.';
        assert(digit_value(t[i], 10) is Some);
    }
    if octet_value(s) == Some(n) {
        assert(digit_value(s[0], 10) is Some);
        reveal_with_fuel(digits_value, 4);
        if s.len() == 1 {
            assert(s =~= t);
        } else if s.len() == 2 {
            assert(digit_value(s[1], 10) is Some);
            assert(s.drop_last().last() == s[0]);
            assert(s =~= t);
        } else {
            assert(digit_value(s[1], 10) is Some);
            assert(digit_value(s[2], 10) is Some);
            assert(s.drop_last().last() == s[1]);
            assert(s.drop_last().drop_last().last() == s[0]);
            assert(s =~= t);
        }
    }
}

/// An address that is written is read back, and nothing is read but what an
/// address is written as.
pub proof fn law_dotted_reads_back(x: Ipv4Addr, s: Seq<char>)
    ensures
        dotted_value(dotted_text(x)) == Some(x),
        dotted_value(s) == Some(x) ==> s == dotted_text(x),
{
    let parts = seq![
        decimal(x.a as nat),
        decimal(x.b as nat),
        decimal(x.c as nat),
        decimal(x.d as nat),
    ];
    lemma_octet_text(x.a, Seq::empty());
    lemma_octet_text(x.b, Seq::empty());
    lemma_octet_text(x.c, Seq::empty());
    lemma_octet_text(x.d, Seq::empty());
    assert forall|i: int| 0 <= i < parts.len() implies !(#[trigger] parts[i]).contains('.') by {
        assert(i == 0 || i == 1 || i == 2 || i == 3);
    }
    law_split_undoes_join(parts, '.');
    if dotted_value(s) == Some(x) {
        let p = split_on(s, '.');
        lemma_octet_text(x.a, p[0]);
        lemma_octet_text(x.b, p[1]);
        lemma_octet_text(x.c, p[2]);
        lemma_octet_text(x.d, p[3]);
        assert(p =~= parts);
        law_join_undoes_split(s, '.');
    }
}

/// Addresses are ordered as their octets are, the first one first, and every
/// number up to the largest is that of one.
pub proof fn law_bits_order_addresses(x: Ipv4Addr, y: Ipv4Addr, bits: u32)
    ensures
        x.bits() < y.bits() <==> x.a < y.a || (x.a == y.a && (x.b < y.b || (x.b == y.b && (x.c
            < y.c || (x.c == y.c && x.d < y.d))))),
        x.bits() <= 0xffff_ffff,
        address(bits).bits() == bits,
{
}

/// An address is known by its number.
pub proof fn law_bits_identify_address(x: Ipv4Addr, y: Ipv4Addr)
    requires
        x.bits() == y.bits(),
    ensures
        x == y,
{
}

} // verus!
