use vstd::prelude::*;

use crate::ascii::{BACKSLASH, CR, DEL, DQUOTE, LF, NUL, SP};
use crate::buffer::Buffer;
use crate::errors::{consumed, ended, outcome, token_error, Error, ErrorKind, Token};
use crate::whitespaces::{cfws_end, cfws_scan, fws_end, fws_scan, is_wsp, wsp};

verus! {

/// `qtext = %d33 / %d35-91 / %d93-126 / obs-qtext`, where `obs-qtext = obs-NO-WS-CTL`: every
/// US-ASCII byte but NUL, white space, line breaks, `"` and `\`.
pub open spec fn qtext(c: u8) -> bool {
    c != NUL && c <= DEL && !wsp(c) && c != LF && c != CR && c != DQUOTE && c != BACKSLASH
}

/// A quoted pair at `p`: `"\" %d0-127`.
pub open spec fn quoted_pair_at(s: Seq<u8>, p: int) -> Result<int, ErrorKind> {
    if p >= s.len() {
        Err(ErrorKind::Eof)
    } else if s[p] != BACKSLASH {
        Err(token_error(Token::QuotedPair, s, p))
    } else if p + 1 >= s.len() {
        Err(ErrorKind::Eof)
    } else if s[p + 1] > DEL {
        Err(token_error(Token::QuotedPair, s, p + 1))
    } else {
        Ok(p + 2)
    }
}

/// Scans a run of `qcontent = qtext / quoted-pair` from `i` to its end. A backslash at the end
/// of the input, or before a byte above 127, is an error.
pub open spec fn qcontent_scan(s: Seq<u8>, i: int) -> Result<int, ErrorKind>
    decreases s.len() - i,
{
    if i < 0 || i >= s.len() {
        Ok(i)
    } else if qtext(s[i]) {
        qcontent_scan(s, i + 1)
    } else if s[i] == BACKSLASH {
        if i + 1 >= s.len() {
            Err(ErrorKind::Eof)
        } else if s[i + 1] > DEL {
            Err(token_error(Token::QuotedString, s, i + 1))
        } else {
            qcontent_scan(s, i + 2)
        }
    } else {
        Ok(i)
    }
}

/// The run of quoted content at `i` with the backslash of each quoted pair removed.
pub open spec fn unescaped(s: Seq<u8>, i: int) -> Seq<u8>
    decreases s.len() - i,
{
    if i < 0 || i >= s.len() {
        Seq::empty()
    } else if qtext(s[i]) {
        seq![s[i]] + unescaped(s, i + 1)
    } else if s[i] == BACKSLASH && i + 1 < s.len() && s[i + 1] <= DEL {
        seq![s[i + 1]] + unescaped(s, i + 2)
    } else {
        Seq::empty()
    }
}

/// A run of quoted content at `p`, of at least one `qcontent`.
pub open spec fn qcontent_at(s: Seq<u8>, p: int) -> Result<int, ErrorKind> {
    if p >= s.len() {
        Err(ErrorKind::Eof)
    } else if !qtext(s[p]) && s[p] != BACKSLASH {
        Err(token_error(Token::QuotedText, s, p))
    } else {
        qcontent_scan(s, p)
    }
}

/// Whether quoted content starts at `j`.
pub open spec fn qcontent_starts(s: Seq<u8>, j: int) -> bool {
    0 <= j < s.len() && (qtext(s[j]) || s[j] == BACKSLASH)
}

/// Scans `*([FWS] qcontent) [FWS]` from `i`, up to where the closing quote should stand.
pub open spec fn qstring_body(s: Seq<u8>, i: int) -> Result<int, ErrorKind>
    decreases s.len() - i,
{
    let j = fws_end(s, i);
    if qcontent_starts(s, j) {
        match qcontent_scan(s, j) {
            Ok(e) => if i < e <= s.len() {
                qstring_body(s, e)
            } else {
                Ok(e)
            },
            Err(k) => Err(k),
        }
    } else {
        Ok(j)
    }
}

/// The content of a quoted string from `i`: each FWS becomes one space, each quoted pair the
/// byte it escapes.
pub open spec fn qstring_body_out(s: Seq<u8>, i: int) -> Seq<u8>
    decreases s.len() - i,
{
    let j = fws_end(s, i);
    let space: Seq<u8> = if j > i { seq![SP] } else { Seq::empty() };
    if qcontent_starts(s, j) {
        match qcontent_scan(s, j) {
            Ok(e) => if i < e <= s.len() {
                space + unescaped(s, j) + qstring_body_out(s, e)
            } else {
                space + unescaped(s, j)
            },
            Err(_) => Seq::empty(),
        }
    } else {
        space
    }
}

/// `quoted-string = [CFWS] DQUOTE *([FWS] qcontent) [FWS] DQUOTE [CFWS]` at `p`.
pub open spec fn quoted_string_at(s: Seq<u8>, p: int) -> Result<int, ErrorKind> {
    let i = cfws_end(s, p);
    if i >= s.len() {
        Err(ErrorKind::Eof)
    } else if s[i] != DQUOTE {
        Err(token_error(Token::QuotedString, s, i))
    } else {
        match qstring_body(s, i + 1) {
            Err(k) => Err(k),
            Ok(j) => if j >= s.len() {
                Err(ErrorKind::Eof)
            } else if s[j] != DQUOTE {
                Err(token_error(Token::QuotedString, s, j))
            } else {
                Ok(cfws_end(s, j + 1))
            },
        }
    }
}

/// What a quoted string at `p` stands for: its content between the quotes.
pub open spec fn quoted_string_out(s: Seq<u8>, p: int) -> Seq<u8> {
    qstring_body_out(s, cfws_end(s, p) + 1)
}

/// Return `true` if the byte may stand unescaped in quoted content.
pub fn is_valid_qtext(c: u8) -> (r: bool)
    ensures
        r == qtext(c),
{
    // everything but NUL, `\`, `"` and any kind of white space
    c > NUL && c <= DEL && !is_wsp(c) && c != LF && c != CR && c != DQUOTE && c != BACKSLASH
}

/// Appends the unescaped run of quoted content that starts at `start` and returns its end.
fn qcontent_into(bytes: &[u8], start: usize, out: &mut Vec<u8>) -> (r: Result<usize, Error>)
    requires
        qcontent_starts(bytes@, start as int),
    ensures
        ended(r) == qcontent_scan(bytes@, start as int),
        r matches Ok(e) ==> start < e <= bytes@.len(),
        r is Ok ==> final(out)@ == old(out)@ + unescaped(bytes@, start as int),
{
    let len = bytes.len();
    let mut i = start;
    loop
        invariant
            len == bytes@.len(),
            qcontent_starts(bytes@, start as int),
            start <= i <= len,
            qcontent_scan(bytes@, i as int) == qcontent_scan(bytes@, start as int),
            out@ + unescaped(bytes@, i as int) == old(out)@ + unescaped(bytes@, start as int),
        decreases len - i,
    {
        if i >= len {
            assert(out@ =~= old(out)@ + unescaped(bytes@, start as int));
            return Ok(i);
        }
        let c = bytes[i];
        let ghost before = out@;
        if is_valid_qtext(c) {
            out.push(c);
            assert(out@ + unescaped(bytes@, i + 1) =~= before + unescaped(bytes@, i as int));
            i = i + 1;
        } else if c == BACKSLASH {
            if i + 1 >= len {
                return Err(Error::new(ErrorKind::Eof));
            }
            let d = bytes[i + 1];
            if d > DEL {
                return Err(Error::new(ErrorKind::Token { token: Token::QuotedString, byte: d, position: i + 1 }));
            }
            out.push(d);
            assert(out@ + unescaped(bytes@, i + 2) =~= before + unescaped(bytes@, i as int));
            i = i + 2;
        } else {
            assert(out@ =~= old(out)@ + unescaped(bytes@, start as int));
            return Ok(i);
        }
    }
}

/// Appends the content of the quoted string at `start` and returns its end.
pub(crate) fn quoted_string_into(bytes: &[u8], start: usize, out: &mut Vec<u8>) -> (r: Result<usize, Error>)
    requires
        start <= bytes@.len(),
    ensures
        ended(r) == quoted_string_at(bytes@, start as int),
        r matches Ok(e) ==> start < e <= bytes@.len(),
        r is Ok ==> final(out)@ == old(out)@ + quoted_string_out(bytes@, start as int),
{
    let len = bytes.len();
    let open = cfws_scan(bytes, start);
    if open >= len {
        return Err(Error::new(ErrorKind::Eof));
    }
    if bytes[open] != DQUOTE {
        return Err(Error::new(ErrorKind::Token { token: Token::QuotedString, byte: bytes[open], position: open }));
    }
    let mut i = open + 1;
    loop
        invariant
            len == bytes@.len(),
            start <= open < i <= len,
            open as int == cfws_end(bytes@, start as int),
            bytes@[open as int] == DQUOTE,
            qstring_body(bytes@, i as int) == qstring_body(bytes@, open + 1),
            out@ + qstring_body_out(bytes@, i as int) == old(out)@ + qstring_body_out(bytes@, open + 1),
        decreases len - i,
    {
        let ghost before = out@;
        let j = fws_scan(bytes, i);
        if j > i {
            out.push(SP);
        }
        if j < len && (is_valid_qtext(bytes[j]) || bytes[j] == BACKSLASH) {
            let ghost mid = out@;
            match qcontent_into(bytes, j, out) {
                Ok(e) => {
                    assert(out@ + qstring_body_out(bytes@, e as int) =~= before + qstring_body_out(bytes@, i as int)) by {
                        assert(out@ == mid + unescaped(bytes@, j as int));
                    }
                    i = e;
                },
                Err(err) => {
                    return Err(err);
                },
            }
        } else {
            // the quoted content ends here: the closing quote is due
            assert(out@ =~= old(out)@ + qstring_body_out(bytes@, open + 1));
            if j >= len {
                return Err(Error::new(ErrorKind::Eof));
            }
            if bytes[j] != DQUOTE {
                return Err(Error::new(ErrorKind::Token { token: Token::QuotedString, byte: bytes[j], position: j }));
            }
            return Ok(cfws_scan(bytes, j + 1));
        }
    }
}

/// A quoted pair stands for the byte it escapes: in quoted content, the backslash of the pair is
/// dropped, the escaped byte is kept as it is, and the content goes on right after the pair.
pub proof fn quoted_pair_unescapes(s: Seq<u8>, p: int)
    requires
        0 <= p,
        p + 1 < s.len(),
        s[p] == BACKSLASH,
        s[p + 1] <= DEL,
    ensures
        qcontent_at(s, p) == qcontent_scan(s, p + 2),
        unescaped(s, p) == seq![s[p + 1]] + unescaped(s, p + 2),
{
}

/// Reads a quoted pair, RFC5322 section 3.2.1:
///
/// ```text
/// quoted-pair = ("\" (VCHAR / WSP)) / obs-qp
/// obs-qp      = "\" (%d0 / obs-NO-WS-CTL / LF / CR)
/// ```
///
/// that is, a backslash followed by any byte from 0 to 127. Returns the number of bytes read.
pub fn read_quoted_pair(input: &Buffer) -> (r: Result<usize, Error>)
    ensures
        outcome(r) == consumed(quoted_pair_at(input.bytes(), input.pos()), input.pos()),
{
    let bytes = input.into_inner();
    let pos = input.position();
    if pos >= bytes.len() {
        return Err(Error::new(ErrorKind::Eof));
    }
    if bytes[pos] != BACKSLASH {
        return Err(Error::new(ErrorKind::Token { token: Token::QuotedPair, byte: bytes[pos], position: pos }));
    }
    if pos + 1 >= bytes.len() {
        return Err(Error::new(ErrorKind::Eof));
    }
    if bytes[pos + 1] > DEL {
        return Err(Error::new(ErrorKind::Token { token: Token::QuotedPair, byte: bytes[pos + 1], position: pos + 1 }));
    }
    Ok(2)
}

/// Reads quoted content, RFC5322 section 3.2.4, and appends it to `out` with the backslash of
/// each quoted pair removed:
///
/// ```text
/// qtext    = %d33 / %d35-91 / %d93-126 / obs-qtext
/// qcontent = qtext / quoted-pair
/// ```
///
/// Reads as many `qcontent` as follow each other, and at least one. Returns the number of bytes
/// read.
pub fn parse_qcontent(input: &Buffer, out: &mut Vec<u8>) -> (r: Result<usize, Error>)
    ensures
        outcome(r) == consumed(qcontent_at(input.bytes(), input.pos()), input.pos()),
        r is Ok ==> final(out)@ == old(out)@ + unescaped(input.bytes(), input.pos()),
        r is Err ==> final(out)@ == old(out)@,
{
    let bytes = input.into_inner();
    let pos = input.position();
    if pos >= bytes.len() {
        return Err(Error::new(ErrorKind::Eof));
    }
    if !is_valid_qtext(bytes[pos]) && bytes[pos] != BACKSLASH {
        return Err(Error::new(ErrorKind::Token { token: Token::QuotedText, byte: bytes[pos], position: pos }));
    }
    let mut staged: Vec<u8> = Vec::new();
    let e = qcontent_into(bytes, pos, &mut staged)?;
    out.append(&mut staged);
    Ok(e - pos)
}

/// Reads quoted content like [`parse_qcontent`], without writing it anywhere.
pub fn read_qcontent(input: &Buffer) -> (r: Result<usize, Error>)
    ensures
        outcome(r) == consumed(qcontent_at(input.bytes(), input.pos()), input.pos()),
{
    let mut scratch: Vec<u8> = Vec::new();
    parse_qcontent(input, &mut scratch)
}

/// Reads a quoted string, RFC5322 section 3.2.4, and appends its content to `out`:
///
/// ```text
/// quoted-string = [CFWS] DQUOTE *([FWS] qcontent) [FWS] DQUOTE [CFWS]
/// ```
///
/// The comments and white space around the quotes, and the quotes themselves, are not part of
/// the content. Inside the quotes each FWS is written as one space, and each quoted pair as the
/// byte it escapes. Returns the number of bytes read.
pub fn parse_quoted_string(input: &Buffer, out: &mut Vec<u8>) -> (r: Result<usize, Error>)
    ensures
        outcome(r) == consumed(quoted_string_at(input.bytes(), input.pos()), input.pos()),
        r is Ok ==> final(out)@ == old(out)@ + quoted_string_out(input.bytes(), input.pos()),
        r is Err ==> final(out)@ == old(out)@,
{
    let bytes = input.into_inner();
    let pos = input.position();
    let mut staged: Vec<u8> = Vec::new();
    let e = quoted_string_into(bytes, pos, &mut staged)?;
    out.append(&mut staged);
    Ok(e - pos)
}

/// Reads a quoted string like [`parse_quoted_string`], without writing it anywhere.
pub fn read_quoted_string(input: &Buffer) -> (r: Result<usize, Error>)
    ensures
        outcome(r) == consumed(quoted_string_at(input.bytes(), input.pos()), input.pos()),
{
    let mut scratch: Vec<u8> = Vec::new();
    parse_quoted_string(input, &mut scratch)
}

} // verus!
