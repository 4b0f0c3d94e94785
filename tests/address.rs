use imf::address::{
    parse_domain, parse_domain_literal, parse_local_part, parse_obsolete_domain,
    parse_obsolete_local_part, Address,
};
use imf::errors::{ErrorKind, Token};
use imf::Buffer;

#[test]
fn domain_literal_round_trip() {
    let mut out = Vec::new();
    let input = b"[192.168.0.1]";
    assert_eq!(parse_domain_literal(&Buffer::new(input), &mut out).unwrap(), input.len());
    assert_eq!(out, input.to_vec());
}

#[test]
fn domain_literal_folds_white_space() {
    let mut out = Vec::new();
    let input = b" [ 192.168.\r\n 0.1\t] ";
    assert_eq!(parse_domain_literal(&Buffer::new(input), &mut out).unwrap(), input.len());
    assert_eq!(out, b"[ 192.168. 0.1 ]".to_vec());
}

#[test]
fn domain_literal_unescapes_quoted_pairs() {
    let mut out = Vec::new();
    assert_eq!(parse_domain_literal(&Buffer::new(b"[a\\]b]"), &mut out).unwrap(), 6);
    assert_eq!(out, b"[a]b]".to_vec());
}

#[test]
fn domain_literal_errors() {
    let mut out = Vec::new();
    assert!(parse_domain_literal(&Buffer::new(b"[1.2.3.4"), &mut out).unwrap_err().is_eof());
    assert!(parse_domain_literal(&Buffer::new(b"[a\\"), &mut out).unwrap_err().is_eof());
    let e = parse_domain_literal(&Buffer::new(b"example"), &mut out).unwrap_err();
    assert_eq!(*e.kind(), ErrorKind::Token { token: Token::Domain, byte: b'e', position: 0 });
    let e = parse_domain_literal(&Buffer::new(b"[a[b]"), &mut out).unwrap_err();
    assert_eq!(*e.kind(), ErrorKind::Token { token: Token::Domain, byte: b'[', position: 2 });
    let e = parse_domain_literal(&Buffer::new(&[b'[', b'\\', 127, b']']), &mut out).unwrap_err();
    assert_eq!(*e.kind(), ErrorKind::Token { token: Token::Domain, byte: 127, position: 2 });
    assert!(out.is_empty());
}

#[test]
fn domain_prefers_dot_atom() {
    let mut out = Vec::new();
    assert_eq!(parse_domain(&Buffer::new(b"example.com>"), &mut out).unwrap(), 11);
    assert_eq!(out, b"example.com".to_vec());
    let mut out = Vec::new();
    assert_eq!(parse_domain(&Buffer::new(b"[10.0.0.1]"), &mut out).unwrap(), 10);
    assert_eq!(out, b"[10.0.0.1]".to_vec());
}

#[test]
fn obsolete_domain_allows_cfws_around_dots() {
    let mut out = Vec::new();
    let input = b"example (c). com";
    assert_eq!(parse_obsolete_domain(&Buffer::new(input), &mut out).unwrap(), input.len());
    assert_eq!(out, b"example.com".to_vec());
}

#[test]
fn obsolete_domain_leaves_dangling_dot() {
    let mut out = Vec::new();
    assert_eq!(parse_obsolete_domain(&Buffer::new(b"a.b.>"), &mut out).unwrap(), 3);
    assert_eq!(out, b"a.b".to_vec());
}

#[test]
fn local_part_falls_back_to_quoted_string() {
    let mut out = Vec::new();
    assert_eq!(parse_local_part(&Buffer::new(b"\"john smith\"@x"), &mut out).unwrap(), 12);
    assert_eq!(out, b"john smith".to_vec());
}

#[test]
fn strict_and_obsolete_local_part_agree_on_dot_atom() {
    let mut strict = Vec::new();
    let mut obsolete = Vec::new();
    let n = parse_local_part(&Buffer::new(b"foo.bar"), &mut strict).unwrap();
    let m = parse_obsolete_local_part(&Buffer::new(b"foo.bar"), &mut obsolete).unwrap();
    assert_eq!(n, 7);
    assert_eq!(m, 7);
    assert_eq!(strict, b"foo.bar".to_vec());
    assert_eq!(obsolete, strict);
}

#[test]
fn obsolete_local_part_mixes_words() {
    let mut out = Vec::new();
    let input = b"atom . \" string \" . atom";
    assert_eq!(parse_obsolete_local_part(&Buffer::new(input), &mut out).unwrap(), input.len());
    assert_eq!(out, b"atom. string .atom".to_vec());
}

#[test]
fn address_with_folded_domain_literal() {
    let input = b"foo.bar@[192.168.\r\n 0.1]";
    let (address, n) = Address::parse(&Buffer::new(input)).unwrap();
    assert_eq!(n, input.len());
    assert_eq!(address.local_part(), b"foo.bar");
    assert_eq!(address.domain(), b"[192.168. 0.1]");
}

#[test]
fn address_with_single_space_in_domain_literal() {
    let (address, n) = Address::parse(&Buffer::new(b"foo.bar@[192.168. 0.1]")).unwrap();
    assert_eq!(n, 22);
    assert_eq!(address.local_part(), b"foo.bar");
    assert_eq!(address.domain(), b"[192.168. 0.1]");
}

#[test]
fn address_with_quoted_local_part() {
    let input = b" (c) \"john q\"@ example.com ";
    let (address, n) = Address::parse(&Buffer::new(input)).unwrap();
    assert_eq!(n, input.len());
    assert_eq!(address.local_part(), b"john q");
    assert_eq!(address.domain(), b"example.com");
}

#[test]
fn address_with_empty_domain_fails_with_eof() {
    assert!(Address::parse(&Buffer::new(b"foo@")).unwrap_err().is_eof());
}

#[test]
fn address_with_bad_domain_fails_after_at() {
    let e = Address::parse(&Buffer::new(b"foo@>")).unwrap_err();
    assert_eq!(*e.kind(), ErrorKind::Token { token: Token::Domain, byte: b'>', position: 4 });
}

#[test]
fn address_without_at() {
    let e = Address::parse(&Buffer::new(b"foo bar")).unwrap_err();
    assert_eq!(*e.kind(), ErrorKind::Token { token: Token::Address, byte: b'b', position: 4 });
    assert!(Address::parse(&Buffer::new(b"foo")).unwrap_err().is_eof());
}
