use heisspunk::net::Ipv4Addr;
use heisspunk::number::{decimal_text, parse_i32, parse_unsigned, push_hex_byte};
use heisspunk::text::{
    contains, escape, is_space_char, join, join_lines, lines, split, starts_with, str_eq,
    strip_prefix, substring, trim, unescape, words,
};

const SAMPLES: [&str; 14] = [
    "",
    "a",
    "\n",
    "a\n",
    "a\r\nb",
    "a\r\nb\r",
    "\r\n\n",
    "a.b..c",
    ".",
    "  x y\t z  ",
    "\u{2003}é\u{85}ü\u{a0}",
    "default via 10.0.0.1 dev eth0 proto dhcp",
    "a\nb\nc\n\n",
    "\r",
];

#[test]
fn white_space_is_what_unicode_says() {
    for n in 0..=0x10_ffffu32 {
        if let Some(c) = char::from_u32(n) {
            assert_eq!(is_space_char(c), c.is_whitespace(), "{:x}", n);
        }
    }
}

#[test]
fn splitting_agrees_with_std() {
    for s in SAMPLES {
        for sep in ['.', '\n', ' '] {
            let want: Vec<&str> = s.split(sep).collect();
            assert_eq!(split(s, sep), want);
        }
    }
}

#[test]
fn lines_agree_with_std() {
    for s in SAMPLES {
        let want: Vec<&str> = s.lines().collect();
        assert_eq!(lines(s), want, "{:?}", s);
    }
}

#[test]
fn words_agree_with_std() {
    for s in SAMPLES {
        let want: Vec<&str> = s.split_whitespace().collect();
        assert_eq!(words(s), want, "{:?}", s);
    }
}

#[test]
fn trimming_agrees_with_std() {
    for s in SAMPLES {
        assert_eq!(trim(s), s.trim(), "{:?}", s);
    }
}

#[test]
fn searching_agrees_with_std() {
    for s in SAMPLES {
        for p in SAMPLES {
            assert_eq!(contains(s, p), s.contains(p));
            assert_eq!(starts_with(s, p), s.starts_with(p));
            assert_eq!(str_eq(s, p), s == p);
            assert_eq!(strip_prefix(s, p), s.strip_prefix(p).map(str::to_owned));
        }
    }
}

#[test]
fn substring_counts_characters() {
    assert_eq!(substring("aéb", 1, 3), "éb");
    assert_eq!(substring("aéb", 2, 2), "");
}

#[test]
fn join_undoes_split() {
    for s in SAMPLES {
        assert_eq!(join(&split(s, '.'), "."), s);
    }
}

#[test]
fn split_undoes_join() {
    let parts: Vec<String> = vec!["192".to_owned(), "".to_owned(), "é".to_owned()];
    assert_eq!(join(&parts, "."), "192..é");
    assert_eq!(split(&join(&parts, "."), '.'), parts);
}

#[test]
fn lines_undo_join_lines() {
    let all: Vec<String> = vec!["a=1".to_owned(), "".to_owned(), "b".to_owned()];
    assert_eq!(join_lines(&all), "a=1\n\nb\n");
    assert_eq!(lines(&join_lines(&all)), all);
    assert_eq!(join_lines(&Vec::new()), "");
}

#[test]
fn unescape_undoes_escape() {
    assert_eq!(escape("a\nb\\"), "a\\nb\\\\");
    for s in SAMPLES {
        assert!(!escape(s).contains('\n'));
        assert_eq!(unescape(&escape(s)).as_deref(), Some(s));
    }
    assert_eq!(unescape("\\"), None);
    assert_eq!(unescape("\\x"), None);
    assert_eq!(unescape("x\\n").as_deref(), Some("x\n"));
}

#[test]
fn numbers_agree_with_std() {
    let samples = [
        "", "+", "-", "0", "7", "+7", "-7", "007", "12", "4294967295", "4294967296", "65535",
        "65536", "ffff", "FFFF", "10000", "1g", "99999999999999999999", "+-1", "1 ", "é", "-0",
        "2147483647", "2147483648", "-2147483648", "-2147483649",
    ];
    for s in samples {
        assert_eq!(parse_unsigned(s, 10, u32::MAX), s.parse::<u32>().ok(), "{}", s);
        assert_eq!(parse_unsigned(s, 16, u32::MAX), u32::from_str_radix(s, 16).ok(), "{}", s);
        assert_eq!(
            parse_unsigned(s, 16, 0xffff),
            u16::from_str_radix(s, 16).ok().map(u32::from),
            "{}",
            s
        );
        assert_eq!(parse_i32(s), s.parse::<i32>().ok(), "{}", s);
    }
}

#[test]
fn decimal_reads_back() {
    for n in [0u32, 1, 9, 10, 99, 100, 43200, 2147483647, 2147483648, u32::MAX] {
        assert_eq!(decimal_text(n), n.to_string());
        assert_eq!(parse_unsigned(&decimal_text(n), 10, u32::MAX), Some(n));
        assert_eq!(parse_i32(&decimal_text(n)), i32::try_from(n).ok());
    }
}

#[test]
fn hexadecimal_bytes() {
    for b in 0..=255u8 {
        let mut s = String::from("x");
        push_hex_byte(&mut s, b);
        assert_eq!(s, format!("x{:02x}", b));
    }
}

#[test]
fn addresses_are_read() {
    assert_eq!(Ipv4Addr::parse("192.168.100.1"), Some(Ipv4Addr::new(192, 168, 100, 1)));
    assert_eq!(Ipv4Addr::parse("0.0.0.0"), Some(Ipv4Addr::new(0, 0, 0, 0)));
    assert_eq!(Ipv4Addr::parse("255.255.255.255"), Some(Ipv4Addr::new(255, 255, 255, 255)));
    for bad in [
        "", "1.2.3", "1.2.3.4.5", "256.1.1.1", "01.2.3.4", "1.2.3.+4", "1.2.3.", "a.b.c.d",
        " 1.2.3.4", "1.2.3.4 ", "1.2.3.0000", "1.2.3.00", "-1.2.3.4",
    ] {
        assert_eq!(Ipv4Addr::parse(bad), None, "{}", bad);
    }
}

#[test]
fn addresses_are_known_by_their_number() {
    let a = Ipv4Addr::new(10, 1, 2, 3);
    assert_eq!(a.to_bits(), 0x0a01_0203);
    assert_eq!(Ipv4Addr::from_bits(a.to_bits()), a);
    assert_eq!(Ipv4Addr::from_bits(0xffff_fffe), Ipv4Addr::new(255, 255, 255, 254));
    assert!(Ipv4Addr::new(0, 0, 0, 0).is_unspecified());
    assert!(!Ipv4Addr::new(0, 0, 0, 1).is_unspecified());
}
