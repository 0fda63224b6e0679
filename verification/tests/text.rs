//! Small operations on text and bytes.

use ech_tls_tunnel::text::{
    ascii_lowercase, decimal_string, has_token, parse_port, same_ignoring_case, trim, PortFault,
};
use ech_tls_tunnel::wire::{put_u16, u16_from};

#[test]
fn trim_is_that_of_the_language() {
    for s in ["", " ", "a", "  a b\t", "\u{a0}x\u{3000}", "\u{200b}x", "\x0b\x0c\u{85}y\u{2029}"] {
        assert_eq!(trim(s), s.trim(), "{s:?}");
    }
}

#[test]
fn white_space_is_that_of_the_language() {
    for c in '\0'..='\u{ffff}' {
        let s = format!("{c}");
        assert_eq!(trim(&s).is_empty(), c.is_whitespace(), "{c:?}");
    }
}

#[test]
fn lower_case_is_that_of_ascii() {
    for s in ["", "AbZ@[`{", "ÀÉ", "Chrome120"] {
        assert_eq!(ascii_lowercase(s), s.to_ascii_lowercase());
    }
    assert!(same_ignoring_case("WebSocket", "websocket"));
    assert!(!same_ignoring_case("À", "à"));
}

#[test]
fn tokens_are_found_between_commas() {
    for s in ["upgrade", "a,Upgrade ", ",,\tUPGRADE,", "upgrade,x", "upgradex", "x upgrade", ""] {
        let expected = s.split(',').any(|p| p.trim().eq_ignore_ascii_case("upgrade"));
        assert_eq!(has_token(s, "upgrade"), expected, "{s:?}");
    }
}

#[test]
fn ports_round_trip() {
    for p in [0u16, 1, 9, 10, 443, 65535] {
        assert_eq!(decimal_string(p as usize), p.to_string());
        assert_eq!(parse_port(&decimal_string(p as usize)), Ok(p));
    }
    let texts = [
        "", "+", "-", "-1", "65536", "1 ", "99999999999999999999", "٣", "+0", "0007", "++1",
        "65535x", "65536x", "x65536", "+99999", "6553x6", "70000 ", "1é", "0000065536",
    ];
    for s in texts {
        let message = |f: PortFault| f.message().to_string();
        let expected = s.parse::<u16>().map_err(|e| e.to_string());
        assert_eq!(parse_port(s).map_err(message), expected, "{s:?}");
    }
    assert_eq!(parse_port(""), Err(PortFault::Empty));
    assert_eq!(parse_port("65535x"), Err(PortFault::InvalidDigit));
    assert_eq!(parse_port("65536x"), Err(PortFault::TooLarge));
}

#[test]
fn numbers_are_big_endian() {
    let mut out = vec![9];
    put_u16(&mut out, 0x1234);
    assert_eq!(out, [9, 0x12, 0x34]);
    assert_eq!(u16_from(0x12, 0x34), 0x1234);
}
