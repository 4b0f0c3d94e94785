use imf::common::{
    is_obs_ctext, is_obs_no_ws_ctl, is_obs_qtext, is_special, is_vchar, lowercase, parse_phrase,
    parse_word, read_phrase, read_word,
};
use imf::errors::{ErrorKind, Token};
use imf::Buffer;

#[test]
fn lowercase_letters_only() {
    assert_eq!(lowercase(b'A'), b'a');
    assert_eq!(lowercase(b'Z'), b'z');
    assert_eq!(lowercase(b'a'), b'a');
    assert_eq!(lowercase(b'@'), b'@');
    assert_eq!(lowercase(b'['), b'[');
}

#[test]
fn control_characters() {
    for c in [1u8, 8, 11, 12, 14, 31, 127] {
        assert!(is_obs_no_ws_ctl(c));
        assert!(is_obs_ctext(c));
        assert!(is_obs_qtext(c));
    }
    for c in [0u8, 9, 10, 13, 32, 33, 126, 128] {
        assert!(!is_obs_no_ws_ctl(c));
    }
}

#[test]
fn specials_and_vchar() {
    for c in b"()<>[]:;@\\,.\"".iter() {
        assert!(is_special(*c));
    }
    assert!(!is_special(b'a'));
    assert!(is_vchar(b'!') && is_vchar(b'~'));
    assert!(!is_vchar(b' ') && !is_vchar(127));
}

#[test]
fn word_is_atom_first() {
    let mut out = Vec::new();
    assert_eq!(parse_word(&Buffer::new(b" john smith"), &mut out).unwrap(), 6);
    assert_eq!(out, b"john".to_vec());
}

#[test]
fn word_falls_back_to_quoted_string() {
    let mut out = Vec::new();
    let input = b" \"John \\\"Q\\\" Smith\" <";
    assert_eq!(parse_word(&Buffer::new(input), &mut out).unwrap(), input.len() - 1);
    assert_eq!(out, b"John \"Q\" Smith".to_vec());
    assert_eq!(read_word(&Buffer::new(input)).unwrap(), input.len() - 1);
}

#[test]
fn word_error_is_quoted_string_error_with_atom_cause() {
    let mut out = Vec::new();
    let e = parse_word(&Buffer::new(b"<x>"), &mut out).unwrap_err();
    assert_eq!(*e.kind(), ErrorKind::Token { token: Token::QuotedString, byte: b'<', position: 0 });
    let cause = e.cause().unwrap();
    assert_eq!(*cause.kind(), ErrorKind::Token { token: Token::Atext, byte: b'<', position: 0 });
    assert!(out.is_empty());
}

#[test]
fn phrase_joins_words_and_keeps_dots() {
    let mut out = Vec::new();
    let input = b"John Q. \"Public\" <john@example.com>";
    let n = parse_phrase(&Buffer::new(input), &mut out).unwrap();
    assert_eq!(&input[n..], b"<john@example.com>");
    assert_eq!(out, b"JohnQ.Public".to_vec());
    assert_eq!(read_phrase(&Buffer::new(input)).unwrap(), n);
}

#[test]
fn phrase_replaces_cfws_before_a_dot_by_one_space() {
    let mut out = Vec::new();
    let input = b"a. (c) .b";
    assert_eq!(parse_phrase(&Buffer::new(input), &mut out).unwrap(), input.len());
    assert_eq!(out, b"a. .b".to_vec());
}

#[test]
fn phrase_requires_a_word() {
    let mut out = b"kept".to_vec();
    assert!(parse_phrase(&Buffer::new(b".abc"), &mut out).unwrap_err().is_token());
    assert!(read_phrase(&Buffer::new(b"")).unwrap_err().is_eof());
    assert_eq!(out, b"kept".to_vec());
}
