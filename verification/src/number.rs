//! Numbers in text: reading them in a base, printing them in base ten, and
//! bytes as two hexadecimal digits.
use vstd::prelude::*;
use vstd::string::*;

use crate::text::chars_of;

verus! {

broadcast use vstd::string::group_string_axioms;

// ---------------------------------------------------------------------------
// Model
// ---------------------------------------------------------------------------

/// What `c` stands for as a digit in base `radix`, at most 36: letters of
/// either case follow the decimal digits.
pub open spec fn digit_value(c: char, radix: nat) -> Option<nat> {
    let v: int = if '0' <= c <= '9' {
        c as int - '0' as int
    } else if 'a' <= c <= 'z' {
        c as int - 'a' as int + 10
    } else if 'A' <= c <= 'Z' {
        c as int - 'A' as int + 10
    } else {
        radix as int
    };
    if v < radix {
        Some(v as nat)
    } else {
        None
    }
}

/// Every character of `s` is a digit in base `radix`.
pub open spec fn all_digits(s: Seq<char>, radix: nat) -> bool {
    forall|i: int| 0 <= i < s.len() ==> digit_value(#[trigger] s[i], radix) is Some
}

/// The number that the digits `s` write in base `radix`.
pub open spec fn digits_value(s: Seq<char>, radix: nat) -> nat
    decreases s.len(),
{
    if s.len() == 0 {
        0
    } else {
        digits_value(s.drop_last(), radix) * radix + digit_value(s.last(), radix)->0
    }
}

/// The number that one or more digits in base `radix` write.
pub open spec fn magnitude(s: Seq<char>, radix: nat) -> Option<nat> {
    if s.len() > 0 && all_digits(s, radix) {
        Some(digits_value(s, radix))
    } else {
        None
    }
}

/// `s` without the plus sign that it may start with.
pub open spec fn without_plus(s: Seq<char>) -> Seq<char> {
    if s.len() > 0 && s[0] == '+' {
        s.skip(1)
    } else {
        s
    }
}

/// A number without a sign, or with a plus sign, that is at most `max`.
pub open spec fn unsigned_value(s: Seq<char>, radix: nat, max: nat) -> Option<nat> {
    match magnitude(without_plus(s), radix) {
        Some(v) => if v <= max {
            Some(v)
        } else {
            None
        },
        None => None,
    }
}

/// A decimal number with or without a sign that an `i32` can hold.
pub open spec fn i32_value(s: Seq<char>) -> Option<int> {
    if s.len() > 0 && s[0] == '-' {
        match magnitude(s.skip(1), 10) {
            Some(v) => if v <= 0x8000_0000 {
                Some(-(v as int))
            } else {
                None
            },
            None => None,
        }
    } else {
        match unsigned_value(s, 10, 0x7fff_ffff) {
            Some(v) => Some(v as int),
            None => None,
        }
    }
}

/// The digit `d` of a base up to 16, in lower case.
pub open spec fn digit_char(d: nat) -> char {
    if d < 10 {
        ('0' as u8 + d) as u8 as char
    } else {
        ('a' as u8 + d - 10) as u8 as char
    }
}

/// `n` in base ten, without leading zeros.
pub open spec fn decimal(n: nat) -> Seq<char>
    decreases n,
{
    if n < 10 {
        seq![digit_char(n)]
    } else {
        decimal(n / 10).push(digit_char(n % 10))
    }
}

/// `b` as two hexadecimal digits.
pub open spec fn hex_byte(b: u8) -> Seq<char> {
    seq![digit_char((b / 16) as nat), digit_char((b % 16) as nat)]
}

// ---------------------------------------------------------------------------
// Facts
// ---------------------------------------------------------------------------

proof fn lemma_value_grows(s: Seq<char>, radix: nat, i: int)
    requires
        radix >= 1,
        0 <= i <= s.len(),
    ensures
        digits_value(s.take(i), radix) <= digits_value(s, radix),
    decreases s.len(),
{
    if i == s.len() {
        assert(s.take(i) =~= s);
    } else {
        lemma_value_grows(s.drop_last(), radix, i);
        assert(s.drop_last().take(i) =~= s.take(i));
        let v = digits_value(s.drop_last(), radix);
        assert(v * radix >= v) by (nonlinear_arith)
            requires
                radix >= 1,
        ;
    }
}

/// A digit that was printed is read back.
proof fn lemma_digit_char(d: nat)
    requires
        d < 10,
    ensures
        digit_value(digit_char(d), 10) == Some(d),
        digit_char(d) != '+',
        digit_char(d) != '-',
{
}

/// Printing a number in base ten and reading it gives the number back.
pub proof fn law_decimal_reads_back(n: nat)
    ensures
        magnitude(decimal(n), 10) == Some(n),
        without_plus(decimal(n)) == decimal(n),
        decimal(n)[0] != '-',
    decreases n,
{
    let s = decimal(n);
    if n < 10 {
        lemma_digit_char(n);
        assert(s.drop_last() =~= Seq::empty());
        assert(digits_value(s.drop_last(), 10) == 0);
    } else {
        let init = decimal(n / 10);
        law_decimal_reads_back(n / 10);
        lemma_digit_char(n % 10);
        assert(s.drop_last() =~= init);
        assert(all_digits(s, 10)) by {
            assert forall|i: int| 0 <= i < s.len() implies digit_value(
                #[trigger] s[i],
                10,
            ) is Some by {
                if i < init.len() {
                    assert(s[i] == init[i]);
                }
            }
        }
        assert(s[0] == init[0]);
        assert(init[0] != '+') by {
            if init[0] == '+' {
                assert(init.skip(1).len() == init.len() - 1);
            }
        }
    }
}

/// A number that was printed is read back as a signed one, as far as an `i32`
/// can hold it.
pub proof fn law_decimal_reads_back_signed(n: nat)
    ensures
        i32_value(decimal(n)) == if n <= 0x7fff_ffff {
            Some(n as int)
        } else {
            None
        },
{
    law_decimal_reads_back(n);
}

/// `n` in base `radix`, up to 16, without leading zeros, the letters in upper
/// case where `upper`.
pub open spec fn numeral(n: nat, radix: nat, upper: bool) -> Seq<char>
    decreases n,
{
    let digit = if upper {
        upper_digit(n % radix)
    } else {
        digit_char(n % radix)
    };
    if radix < 2 || n < radix {
        seq![digit]
    } else {
        proof {
            assert(n / radix < n) by (nonlinear_arith)
                requires
                    radix >= 2,
                    n >= radix,
            ;
        }
        numeral(n / radix, radix, upper).push(digit)
    }
}

/// The digit `d` of a base up to 16, in upper case.
pub open spec fn upper_digit(d: nat) -> char {
    if d < 10 {
        ('0' as u8 + d) as u8 as char
    } else {
        ('A' as u8 + d - 10) as u8 as char
    }
}

/// A number in any base up to 16 is read back from its digits, whatever their
/// case.
pub proof fn law_numeral_reads_back(n: nat, radix: nat, upper: bool)
    requires
        2 <= radix <= 16,
    ensures
        magnitude(numeral(n, radix, upper), radix) == Some(n),
        unsigned_value(numeral(n, radix, upper), radix, n) == Some(n),
        n > 0 ==> unsigned_value(numeral(n, radix, upper), radix, (n - 1) as nat) is None,
        unsigned_value(seq!['+'] + numeral(n, radix, upper), radix, n) == Some(n),
    decreases n,
{
    let s = numeral(n, radix, upper);
    let d = n % radix;
    assert(0 <= d < radix) by (nonlinear_arith)
        requires
            radix >= 2,
            d == n % radix,
    ;
    let c = s.last();
    assert(digit_value(c, radix) == Some(d));
    if n < radix {
        assert(d == n) by (nonlinear_arith)
            requires
                n < radix,
                d == n % radix,
        ;
        assert(s.drop_last() =~= Seq::empty());
        assert(digits_value(s.drop_last(), radix) == 0);
        assert(0 * radix == 0) by (nonlinear_arith);
        assert(digits_value(s, radix) == n);
        assert(all_digits(s, radix));
    } else {
        let init = numeral(n / radix, radix, upper);
        assert(n / radix < n && n == (n / radix) * radix + d) by (nonlinear_arith)
            requires
                radix >= 2,
                n >= radix,
                d == n % radix,
        ;
        law_numeral_reads_back(n / radix, radix, upper);
        assert(s.drop_last() =~= init);
        assert(all_digits(s, radix)) by {
            assert forall|i: int| 0 <= i < s.len() implies digit_value(
                #[trigger] s[i],
                radix,
            ) is Some by {
                if i < init.len() {
                    assert(s[i] == init[i]);
                }
            }
        }
    }
    assert(digit_value(s[0], radix) is Some);
    assert(without_plus(s) == s);
    let signed = seq!['+'] + s;
    assert(signed.skip(1) =~= s);
}

/// Leading zeros do not count.
pub proof fn law_leading_zero(s: Seq<char>, radix: nat)
    requires
        s.len() > 0,
        all_digits(s, radix),
        2 <= radix <= 16,
    ensures
        magnitude(seq!['0'] + s, radix) == magnitude(s, radix),
    decreases s.len(),
{
    let t = seq!['0'] + s;
    assert(all_digits(t, radix)) by {
        assert forall|i: int| 0 <= i < t.len() implies digit_value(
            #[trigger] t[i],
            radix,
        ) is Some by {
            if i > 0 {
                assert(t[i] == s[i - 1]);
            }
        }
    }
    let less = s.drop_last();
    assert(t.drop_last() =~= seq!['0'] + less);
    assert(t.last() == s.last());
    if less.len() == 0 {
        let zero = seq!['0'] + less;
        assert(zero =~= seq!['0']);
        assert(zero.drop_last() =~= Seq::empty());
        assert(digits_value(zero.drop_last(), radix) == 0);
        assert(0 * radix == 0) by (nonlinear_arith);
        assert(digits_value(zero, radix) == 0);
        assert(less =~= Seq::empty());
    } else {
        assert(all_digits(less, radix)) by {
            assert forall|i: int| 0 <= i < less.len() implies digit_value(
                #[trigger] less[i],
                radix,
            ) is Some by {
                assert(less[i] == s[i]);
            }
        }
        law_leading_zero(less, radix);
    }
}

/// Only digits are read: a text with anything else in it is no number.
pub proof fn law_only_digits_are_read(s: Seq<char>, i: int)
    requires
        0 <= i < s.len(),
        !('0' <= s[i] <= '9'),
    ensures
        magnitude(s, 10) is None,
        !('a' <= s[i] <= 'f') && !('A' <= s[i] <= 'F') ==> magnitude(s, 16) is None,
        magnitude(Seq::empty(), 10) is None,
        magnitude(Seq::empty(), 16) is None,
{
    assert(digit_value(s[i], 10) is None);
    if !('a' <= s[i] <= 'f') && !('A' <= s[i] <= 'F') {
        assert(digit_value(s[i], 16) is None);
    }
}

/// A negative number is read back, as far as an `i32` can hold it.
pub proof fn law_negative_reads_back(n: nat)
    ensures
        i32_value(seq!['-'] + decimal(n)) == if n <= 0x8000_0000 {
            Some(-(n as int))
        } else {
            None
        },
        i32_value(seq!['+'] + decimal(n)) == if n <= 0x7fff_ffff {
            Some(n as int)
        } else {
            None
        },
{
    law_decimal_reads_back(n);
    assert((seq!['-'] + decimal(n)).skip(1) =~= decimal(n));
    assert((seq!['+'] + decimal(n)).skip(1) =~= decimal(n));
}

/// A number is printed without leading zeros.
pub proof fn law_decimal_has_no_leading_zero(n: nat)
    ensures
        decimal(n).len() > 0,
        n > 0 ==> decimal(n)[0] != '0',
        n == 0 ==> decimal(n) == seq!['0'],
    decreases n,
{
    if n >= 10 {
        law_decimal_has_no_leading_zero(n / 10);
        assert(decimal(n)[0] == decimal(n / 10)[0]);
    }
}

// ---------------------------------------------------------------------------
// Operations
// ---------------------------------------------------------------------------

/// What `c` stands for as a digit in base `radix`.
fn read_digit(c: char, radix: u32) -> (res: Option<u32>)
    requires
        2 <= radix <= 36,
    ensures
        res is Some == digit_value(c, radix as nat) is Some,
        res matches Some(v) ==> v == digit_value(c, radix as nat)->0 && v < radix,
{
    let v: u32 = if '0' <= c && c <= '9' {
        c as u32 - '0' as u32
    } else if 'a' <= c && c <= 'z' {
        c as u32 - 'a' as u32 + 10
    } else if 'A' <= c && c <= 'Z' {
        c as u32 - 'A' as u32 + 10
    } else {
        radix
    };
    if v < radix {
        Some(v)
    } else {
        None
    }
}

/// Reads the digits of `s` from index `from` on as a number of at most `max`.
pub fn read_magnitude(s: &Vec<char>, from: usize, radix: u32, max: u32) -> (res: Option<u32>)
    requires
        2 <= radix <= 36,
        from <= s@.len(),
    ensures
        match magnitude(s@.skip(from as int), radix as nat) {
            Some(v) => if v <= max {
                res == Some(v as u32)
            } else {
                res is None
            },
            None => res is None,
        },
{
    let n: usize = s.len();
    let ghost body = s@.skip(from as int);
    if from == n {
        return None;
    }
    let mut acc: u64 = 0;
    let mut i: usize = from;
    assert(body.take(0) =~= Seq::empty());
    while i < n
        invariant
            from <= i <= n,
            n == s@.len(),
            body == s@.skip(from as int),
            2 <= radix <= 36,
            acc <= max,
            acc == digits_value(body.take(i - from), radix as nat),
            forall|j: int|
                0 <= j < i - from ==> digit_value(#[trigger] body[j], radix as nat) is Some,
        decreases n - i,
    {
        let ghost k = i - from;
        assert(body[k] == s@[i as int]);
        match read_digit(s[i], radix) {
            None => {
                return None;
            },
            Some(d) => {
                assert(body.take(k + 1).drop_last() =~= body.take(k));
                assert(acc * radix <= 0xffff_ffff * 36) by (nonlinear_arith)
                    requires
                        acc <= 0xffff_ffff,
                        radix <= 36,
                ;
                let next: u64 = acc * (radix as u64) + (d as u64);
                assert(next == digits_value(body.take(k + 1), radix as nat));
                if next > max as u64 {
                    proof {
                        lemma_value_grows(body, radix as nat, k + 1);
                    }
                    return None;
                }
                acc = next;
            },
        }
        i = i + 1;
    }
    assert(body.take(n - from) =~= body);
    Some(acc as u32)
}

/// Reads a number without a sign, or with a plus sign, in base `radix`, that
/// is at most `max`.
pub fn parse_unsigned(s: &str, radix: u32, max: u32) -> (res: Option<u32>)
    requires
        2 <= radix <= 36,
    ensures
        match unsigned_value(s@, radix as nat, max as nat) {
            Some(v) => res == Some(v as u32),
            None => res is None,
        },
{
    let x: Vec<char> = chars_of(s);
    let from: usize = if x.len() > 0 && x[0] == '+' {
        1
    } else {
        0
    };
    assert(x@.skip(0) =~= x@);
    read_magnitude(&x, from, radix, max)
}

/// Reads a decimal number with or without a sign.
pub fn parse_i32(s: &str) -> (res: Option<i32>)
    ensures
        match i32_value(s@) {
            Some(v) => res == Some(v as i32),
            None => res is None,
        },
{
    let x: Vec<char> = chars_of(s);
    if x.len() > 0 && x[0] == '-' {
        match read_magnitude(&x, 1, 10, 0x8000_0000) {
            Some(v) => Some((0 - v as i64) as i32),
            None => None,
        }
    } else {
        match parse_unsigned(s, 10, 0x7fff_ffff) {
            Some(v) => Some(v as i32),
            None => None,
        }
    }
}

/// The digit `d` as a text of one character.
fn digit_text(d: u8) -> (res: &'static str)
    requires
        d < 16,
    ensures
        res@ == seq![digit_char(d as nat)],
{
    proof {
        reveal_strlit("0");
        reveal_strlit("1");
        reveal_strlit("2");
        reveal_strlit("3");
        reveal_strlit("4");
        reveal_strlit("5");
        reveal_strlit("6");
        reveal_strlit("7");
        reveal_strlit("8");
        reveal_strlit("9");
        reveal_strlit("a");
        reveal_strlit("b");
        reveal_strlit("c");
        reveal_strlit("d");
        reveal_strlit("e");
        reveal_strlit("f");
    }
    match d {
        0 => "0",
        1 => "1",
        2 => "2",
        3 => "3",
        4 => "4",
        5 => "5",
        6 => "6",
        7 => "7",
        8 => "8",
        9 => "9",
        10 => "a",
        11 => "b",
        12 => "c",
        13 => "d",
        14 => "e",
        _ => "f",
    }
}

/// Adds `n` in base ten to the end of `out`.
pub fn push_decimal(out: &mut String, n: u32)
    ensures
        final(out)@ == old(out)@ + decimal(n as nat),
    decreases n,
{
    if n >= 10 {
        push_decimal(out, n / 10);
    }
    out.append(digit_text((n % 10) as u8));
    assert(out@ =~= old(out)@ + decimal(n as nat));
}

/// `n` in base ten.
pub fn decimal_text(n: u32) -> (res: String)
    ensures
        res@ == decimal(n as nat),
{
    let mut res: String = String::new();
    push_decimal(&mut res, n);
    assert(res@ =~= decimal(n as nat));
    res
}

/// Adds `b` as two hexadecimal digits to the end of `out`.
pub fn push_hex_byte(out: &mut String, b: u8)
    ensures
        final(out)@ == old(out)@ + hex_byte(b),
{
    out.append(digit_text(b / 16));
    out.append(digit_text(b % 16));
    assert(out@ =~= old(out)@ + hex_byte(b));
}

} // verus!
