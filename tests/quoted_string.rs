use imf::errors::{ErrorKind, Token};
use imf::quoted_string::{
    is_valid_qtext, parse_qcontent, parse_quoted_string, read_qcontent, read_quoted_pair,
    read_quoted_string,
};
use imf::Buffer;

#[test]
fn test_quoted_pair() {
    let input = &b"\\a"[..];
    let n = read_quoted_pair(&Buffer::new(input)).unwrap();
    assert_eq!((&input[n..], &input[..n]), (&b""[..], &b"\\a"[..]));
    let input = &b"\\\\"[..];
    let n = read_quoted_pair(&Buffer::new(input)).unwrap();
    assert_eq!((&input[n..], &input[..n]), (&b""[..], &b"\\\\"[..]));
}

fn assert_quoted_string(input: &[u8], exp_parsed: &[u8], exp_left: &[u8], exp_read: &[u8]) {
    let mut writer = Vec::new();
    let n = parse_quoted_string(&Buffer::new(input), &mut writer).unwrap();
    assert_eq!(&writer[..], exp_parsed);
    assert_eq!(&input[n..], exp_left);
    assert_eq!(&input[..n], exp_read);
}

#[test]
fn test_parse_quoted_string() {
    assert_quoted_string(
        b"\"simple string\"".as_ref(),
        b"simple string".as_ref(),
        b"".as_ref(),
        b"\"simple string\"".as_ref(),
    );

    assert_quoted_string(
        b" \t\r\n \r\n \"simple string\" (comment)\t ".as_ref(),
        b"simple string".as_ref(),
        b"".as_ref(),
        b" \t\r\n \r\n \"simple string\" (comment)\t ".as_ref(),
    );

    assert_quoted_string(
        b"\"\\\"simple\\\" string\"".as_ref(),
        b"\"simple\" string".as_ref(),
        b"".as_ref(),
        b"\"\\\"simple\\\" string\"".as_ref(),
    );

    assert_quoted_string(
        b"\"\\\"simple\\\"\r\n string\"".as_ref(),
        b"\"simple\" string".as_ref(),
        b"".as_ref(),
        b"\"\\\"simple\\\"\r\n string\"".as_ref(),
    );

    assert_quoted_string(
        b"\"simple\\\nstring\"".as_ref(),
        b"simple\nstring".as_ref(),
        b"".as_ref(),
        b"\"simple\\\nstring\"".as_ref(),
    );
}

#[test]
fn quoted_string_with_comments_around() {
    let mut out = Vec::new();
    let input = b" \t\r\n (comment)\"simple\r\n string\\\n\" (comment)\t ";
    assert_eq!(parse_quoted_string(&Buffer::new(input), &mut out).unwrap(), input.len());
    assert_eq!(out, b"simple string\n".to_vec());
}

#[test]
fn qcontent_removes_escapes_and_stops_at_space() {
    let mut out = Vec::new();
    let input = b"\\q\\u\\o\\t\\e\\d-pairs. Other content.";
    let n = parse_qcontent(&Buffer::new(input), &mut out).unwrap();
    assert_eq!(out, b"quoted-pairs.".to_vec());
    assert_eq!(&input[n..], b" Other content.");
    assert_eq!(read_qcontent(&Buffer::new(input)).unwrap(), n);
}

#[test]
fn quoted_pair_keeps_escaped_byte_and_drops_backslash() {
    for c in 0u8..=127 {
        let input = [b'\\', c];
        let mut out = Vec::new();
        assert_eq!(parse_qcontent(&Buffer::new(&input), &mut out).unwrap(), 2);
        assert_eq!(out, vec![c]);
    }
}

#[test]
fn quoted_pair_errors() {
    assert!(read_quoted_pair(&Buffer::new(b"")).unwrap_err().is_eof());
    assert!(read_quoted_pair(&Buffer::new(b"\\")).unwrap_err().is_eof());
    let e = read_quoted_pair(&Buffer::new(b"a\\")).unwrap_err();
    assert_eq!(*e.kind(), ErrorKind::Token { token: Token::QuotedPair, byte: b'a', position: 0 });
    let e = read_quoted_pair(&Buffer::new(&[b'\\', 200])).unwrap_err();
    assert_eq!(*e.kind(), ErrorKind::Token { token: Token::QuotedPair, byte: 200, position: 1 });
}

#[test]
fn qcontent_errors() {
    let mut out = b"kept".to_vec();
    assert!(parse_qcontent(&Buffer::new(b""), &mut out).unwrap_err().is_eof());
    assert!(parse_qcontent(&Buffer::new(b"ab\\"), &mut out).unwrap_err().is_eof());
    let e = parse_qcontent(&Buffer::new(b" a"), &mut out).unwrap_err();
    assert_eq!(*e.kind(), ErrorKind::Token { token: Token::QuotedText, byte: b' ', position: 0 });
    let e = parse_qcontent(&Buffer::new(&[b'a', b'\\', 128]), &mut out).unwrap_err();
    assert_eq!(*e.kind(), ErrorKind::Token { token: Token::QuotedString, byte: 128, position: 2 });
    assert_eq!(out, b"kept".to_vec());
}

#[test]
fn quoted_string_errors() {
    let e = read_quoted_string(&Buffer::new(b"abc")).unwrap_err();
    assert_eq!(*e.kind(), ErrorKind::Token { token: Token::QuotedString, byte: b'a', position: 0 });
    assert!(read_quoted_string(&Buffer::new(b"\"abc")).unwrap_err().is_eof());
    assert!(read_quoted_string(&Buffer::new(b"  ")).unwrap_err().is_eof());
    let e = read_quoted_string(&Buffer::new(b"\"ab\rc\"")).unwrap_err();
    assert_eq!(*e.kind(), ErrorKind::Token { token: Token::QuotedString, byte: b'\r', position: 3 });
    let mut out = Vec::new();
    assert!(parse_quoted_string(&Buffer::new(b"\"partial content"), &mut out).is_err());
    assert!(out.is_empty());
}

#[test]
fn empty_quoted_string() {
    let mut out = Vec::new();
    assert_eq!(parse_quoted_string(&Buffer::new(b"\"\" x"), &mut out).unwrap(), 3);
    assert!(out.is_empty());
}

#[test]
fn qtext_classification() {
    assert!(is_valid_qtext(b'a'));
    assert!(is_valid_qtext(1));
    assert!(is_valid_qtext(127));
    assert!(!is_valid_qtext(0));
    assert!(!is_valid_qtext(b' '));
    assert!(!is_valid_qtext(b'"'));
    assert!(!is_valid_qtext(b'\\'));
    assert!(!is_valid_qtext(128));
}
