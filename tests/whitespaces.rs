use imf::errors::{Error, ErrorKind, Token};
use imf::whitespaces::{
    replace_cfws, replace_fws, skip_cfws, skip_comment, skip_fws, unfold_cfws, unfold_fws,
};
use imf::Buffer;

type Skip = fn(&Buffer) -> Result<usize, Error>;

fn ok(f: Skip, input: &[u8], expected_len: usize) {
    assert_eq!(f(&Buffer::new(input)).unwrap(), expected_len);
}

fn eof(f: Skip, input: &[u8]) {
    assert!(f(&Buffer::new(input)).unwrap_err().is_eof());
}

fn tok(f: Skip, input: &[u8], expected_token: Token, expected_byte: u8, expected_position: usize) {
    let e = f(&Buffer::new(input)).unwrap_err();
    assert!(e.is_token());
    if let ErrorKind::Token { token, byte, position } = *e.kind() {
        assert_eq!(token, expected_token);
        assert_eq!(byte, expected_byte);
        assert_eq!(position, expected_position);
    }
}

#[test]
fn test_comment() {
    ok(skip_comment, b"()", 2);
    ok(skip_comment, b"(abc)", 5);
    ok(skip_comment, b"(a comment)abc", 11);
    ok(skip_comment, b"(a (nested (comment)))abc", 22);
    ok(skip_comment, b"(a (nested \\((comment)\\)\\)))abc", 28);
    // negative tests
    eof(skip_comment, b"(");
    eof(skip_comment, b"(comment\\)");
    eof(skip_comment, b"(comment()comment");
    tok(skip_comment, b"fail", Token::Comment, b'f', 0);
    tok(skip_comment, b"\\(", Token::Comment, b'\\', 0);
}

#[test]
fn test_folding_whitespace() {
    ok(skip_fws, b" ", 1);
    ok(skip_fws, b" \t", 2);
    ok(skip_fws, b" abc", 1);
    ok(skip_fws, b"\tabc", 1);
    ok(skip_fws, b"\t abc", 2);
    ok(skip_fws, b" \r\n abc", 4);
    ok(skip_fws, b" \r\n \r\n\tabc", 7);
    ok(skip_fws, b" \r\nabc", 1);
    ok(skip_fws, b" \r\n  \r\n \r\nabc", 8);
    ok(skip_fws, b"\r\n   abc", 5);
    ok(skip_fws, b"\r\n \t  abc", 6);
    tok(skip_fws, b"\r\nabc", Token::Fws, b'\r', 0);
    tok(skip_fws, b"\r abc", Token::Fws, b'\r', 0);
    tok(skip_fws, b"\n\r abc", Token::Fws, b'\n', 0);
}

#[test]
fn test_cfws() {
    ok(skip_cfws, b" ", 1);
    ok(skip_cfws, b" \t", 2);
    ok(skip_cfws, b" abc", 1);
    ok(skip_cfws, b"\tabc", 1);
    ok(skip_cfws, b"\t abc", 2);
    ok(skip_cfws, b" \r\n abc", 4);
    ok(skip_cfws, b" \r\n \r\n\tabc", 7);
    ok(skip_cfws, b" \r\nabc", 1);
    ok(skip_cfws, b" \r\n  \r\n \r\nabc", 8);
    ok(skip_cfws, b"\r\n   abc", 5);
    ok(skip_cfws, b"\r\n \t  abc", 6);
    tok(skip_cfws, b"\r\nabc", Token::Cfws, b'\r', 0);
    tok(skip_cfws, b"\r abc", Token::Cfws, b'\r', 0);
    tok(skip_cfws, b"\n\r abc", Token::Cfws, b'\n', 0);
    ok(skip_cfws, b"(a comment)abc", 11);
    ok(skip_cfws, b"(a (nested (comment)))abc", b"(a (nested (comment)))".len());
    ok(skip_cfws, b"(a (nested \\((comment)\\)\\)))abc", 28);
    ok(skip_cfws, b"  (a comment)  abc", 15);
    ok(skip_cfws, b"(a comment)  abc", 13);
    ok(skip_cfws, b"  (a comment)abc", 13);
    ok(skip_cfws, b"  (  a comment ( ) ()\r\n)  abc", 26);
    ok(skip_cfws, b"(a comment)  () ()abc", 18);
}

#[test]
fn nested_comment_spans_whole_input() {
    let input = b"(a (nested (comment)))";
    ok(skip_comment, input, input.len());
    ok(skip_cfws, input, input.len());
}

#[test]
fn unterminated_comment_is_eof() {
    eof(skip_comment, b"(unterminated");
}

#[test]
fn escaped_close_paren_does_not_end_comment() {
    eof(skip_comment, b"(a\\)b");
    ok(skip_comment, b"(a\\)b)", 6);
    ok(skip_comment, b"(a\\)b) rest", 6);
}

#[test]
fn empty_input_is_eof_everywhere() {
    eof(skip_fws, b"");
    eof(skip_comment, b"");
    eof(skip_cfws, b"");
}

#[test]
fn fws_reads_from_the_buffer_position() {
    let input = b"abc  def";
    assert_eq!(skip_fws(&Buffer::with_offset(input, 3)).unwrap(), 2);
    let e = skip_fws(&Buffer::with_offset(input, 5)).unwrap_err();
    assert_eq!(*e.kind(), ErrorKind::Token { token: Token::Fws, byte: b'd', position: 5 });
}

#[test]
fn unfold_fws_drops_line_breaks() {
    let mut out = Vec::new();
    assert_eq!(unfold_fws(&Buffer::new(b" \r\n  x"), &mut out).unwrap(), 5);
    assert_eq!(out, b"   ".to_vec());
}

#[test]
fn unfold_fws_failure_writes_nothing() {
    let mut out = b"kept".to_vec();
    assert!(unfold_fws(&Buffer::new(b"x"), &mut out).unwrap_err().is_token());
    assert_eq!(out, b"kept".to_vec());
}

#[test]
fn replace_fws_writes_one_space() {
    let mut out = Vec::new();
    assert_eq!(replace_fws(&Buffer::new(b"\t\r\n \tx"), &mut out).unwrap(), 5);
    assert_eq!(out, b" ".to_vec());
}

#[test]
fn replace_cfws_writes_one_space() {
    let mut out = Vec::new();
    assert_eq!(replace_cfws(&Buffer::new(b"  (a comment)\r\n (b)  x"), &mut out).unwrap(), 21);
    assert_eq!(out, b" ".to_vec());
}

#[test]
fn replace_cfws_again_on_its_output_gives_the_same_space() {
    let mut first = Vec::new();
    replace_cfws(&Buffer::new(b" (c) \r\n x"), &mut first).unwrap();
    assert_eq!(first, b" ".to_vec());
    let mut second = Vec::new();
    assert_eq!(replace_cfws(&Buffer::new(&first), &mut second).unwrap(), 1);
    assert_eq!(second, first);
}

#[test]
fn replace_cfws_without_cfws_fails_and_writes_nothing() {
    let mut out = Vec::new();
    let e = replace_cfws(&Buffer::new(b"x "), &mut out).unwrap_err();
    assert_eq!(*e.kind(), ErrorKind::Token { token: Token::Cfws, byte: b'x', position: 0 });
    assert!(out.is_empty());
}

#[test]
fn unfold_cfws_keeps_white_space_and_drops_comments() {
    let mut out = Vec::new();
    assert_eq!(unfold_cfws(&Buffer::new(b" (c)\r\n\t(d) x"), &mut out).unwrap(), 11);
    assert_eq!(out, b" \t ".to_vec());
}

#[test]
fn cfws_stops_before_unterminated_comment() {
    ok(skip_cfws, b" (open", 1);
    eof(skip_cfws, b"");
    tok(skip_cfws, b"(open", Token::Cfws, b'(', 0);
}
