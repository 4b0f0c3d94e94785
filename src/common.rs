use vstd::prelude::*;

use crate::ascii::{DEL, DOT, SP};
use crate::atom::{atom_at, atom_into, atom_out};
use crate::buffer::Buffer;
use crate::errors::{consumed, ended, outcome, Error, ErrorKind};
use crate::quoted_string::{quoted_string_at, quoted_string_into, quoted_string_out};
use crate::whitespaces::{cfws_end, cfws_scan};

verus! {

/// `obs-NO-WS-CTL = %d1-8 / %d11 / %d12 / %d14-31 / %d127`: the US-ASCII control characters
/// that are neither white space nor line breaks.
pub open spec fn obs_no_ws_ctl(c: u8) -> bool {
    (1 <= c <= 8) || c == 11 || c == 12 || (14 <= c <= 31) || c == DEL
}

/// `specials = "(" / ")" / "<" / ">" / "[" / "]" / ":" / ";" / "@" / "\" / "," / "." / DQUOTE`
pub open spec fn special(c: u8) -> bool {
    c == 40 || c == 41 || c == 60 || c == 62 || c == 91 || c == 93 || c == 58 || c == 59 || c
        == 64 || c == 92 || c == 44 || c == 46 || c == 34
}

/// `VCHAR = %x21-7E`
pub open spec fn vchar(c: u8) -> bool {
    33 <= c <= 126
}

/// `word = atom / quoted-string` at `p`: an atom where one stands, else a quoted string.
pub open spec fn word_at(s: Seq<u8>, p: int) -> Result<int, ErrorKind> {
    match atom_at(s, p) {
        Ok(e) => Ok(e),
        Err(_) => quoted_string_at(s, p),
    }
}

/// What a word at `p` stands for.
pub open spec fn word_out(s: Seq<u8>, p: int) -> Seq<u8> {
    if atom_at(s, p) is Ok {
        atom_out(s, p)
    } else {
        quoted_string_out(s, p)
    }
}

/// Scans what may follow the first word of a phrase, from `i`: at each step a word, else a run
/// of comments and white space, else a dot.
pub open spec fn phrase_rest(s: Seq<u8>, i: int) -> int
    decreases s.len() - i,
{
    let w = word_at(s, i);
    if i < 0 || i >= s.len() {
        i
    } else if w is Ok && i < w->Ok_0 <= s.len() {
        phrase_rest(s, w->Ok_0)
    } else if i < cfws_end(s, i) <= s.len() {
        phrase_rest(s, cfws_end(s, i))
    } else if s[i] == DOT {
        phrase_rest(s, i + 1)
    } else {
        i
    }
}

/// What the rest of a phrase from `i` stands for: each word, one space for each run of comments
/// and white space between them, and the dots.
pub open spec fn phrase_rest_out(s: Seq<u8>, i: int) -> Seq<u8>
    decreases s.len() - i,
{
    let w = word_at(s, i);
    if i < 0 || i >= s.len() {
        Seq::empty()
    } else if w is Ok && i < w->Ok_0 <= s.len() {
        word_out(s, i) + phrase_rest_out(s, w->Ok_0)
    } else if i < cfws_end(s, i) <= s.len() {
        seq![SP] + phrase_rest_out(s, cfws_end(s, i))
    } else if s[i] == DOT {
        seq![DOT] + phrase_rest_out(s, i + 1)
    } else {
        Seq::empty()
    }
}

/// `phrase = 1*word / obs-phrase`, `obs-phrase = word *(word / "." / CFWS)` at `p`.
pub open spec fn phrase_at(s: Seq<u8>, p: int) -> Result<int, ErrorKind> {
    match word_at(s, p) {
        Ok(e) => Ok(phrase_rest(s, e)),
        Err(k) => Err(k),
    }
}

/// What a phrase at `p` stands for.
pub open spec fn phrase_out(s: Seq<u8>, p: int) -> Seq<u8> {
    word_out(s, p) + phrase_rest_out(s, word_at(s, p)->Ok_0)
}

/// If the given byte is an upper case letter, returns it in lower case; else returns the byte.
pub fn lowercase(c: u8) -> (r: u8)
    ensures
        r == if 65 <= c <= 90 { (c + 32) as u8 } else { c },
{
    if c >= 65 && c <= 90 {
        c + 32
    } else {
        c
    }
}

/// Return `true` if the byte is a control character that is neither white space nor a line
/// break, RFC5322 section 4.1:
///
/// ```text
/// obs-NO-WS-CTL = %d1-8 / %d11 / %d12 / %d14-31 / %d127
/// ```
pub fn is_obs_no_ws_ctl(c: u8) -> (r: bool)
    ensures
        r == obs_no_ws_ctl(c),
{
    (c >= 1 && c <= 8) || c == 11 || c == 12 || (c >= 14 && c <= 31) || c == DEL
}

/// Return `true` if the byte is an `obs-ctext` character: `obs-ctext = obs-NO-WS-CTL`.
pub fn is_obs_ctext(c: u8) -> (r: bool)
    ensures
        r == obs_no_ws_ctl(c),
{
    is_obs_no_ws_ctl(c)
}

/// Return `true` if the byte is an `obs-qtext` character: `obs-qtext = obs-NO-WS-CTL`.
pub fn is_obs_qtext(c: u8) -> (r: bool)
    ensures
        r == obs_no_ws_ctl(c),
{
    is_obs_no_ws_ctl(c)
}

/// Return `true` if the byte is one of the `specials` of RFC5322 section 3.2.3, which do not
/// appear in `atext`: ``( ) < > [ ] : ; @ \ , . "``.
pub fn is_special(c: u8) -> (r: bool)
    ensures
        r == special(c),
{
    c == 40 || c == 41 || c == 60 || c == 62 || c == 91 || c == 93 || c == 58 || c == 59 || c
        == 64 || c == 92 || c == 44 || c == 46 || c == 34
}

/// Return `true` if the byte is a visible (printing) character: `VCHAR = %x21-7E`.
pub fn is_vchar(c: u8) -> (r: bool)
    ensures
        r == vchar(c),
{
    c >= 33 && c <= 126
}

/// Appends what the word at `start` stands for and returns the word's end. Where there is no
/// word, what was appended is unspecified.
pub(crate) fn word_into(bytes: &[u8], start: usize, out: &mut Vec<u8>) -> (r: Result<usize, Error>)
    requires
        start <= bytes@.len(),
    ensures
        ended(r) == word_at(bytes@, start as int),
        r matches Ok(e) ==> start < e <= bytes@.len(),
        r is Ok ==> final(out)@ == old(out)@ + word_out(bytes@, start as int),
{
    match atom_into(bytes, start, out) {
        Ok(e) => Ok(e),
        Err(atom_error) => {
            let mut e = quoted_string_into(bytes, start, out);
            if let Err(qs_error) = &mut e {
                qs_error.set_cause(atom_error);
            }
            e
        },
    }
}

/// Appends what the phrase at `start` stands for and returns the phrase's end. Where there is
/// no phrase, what was appended is unspecified.
pub(crate) fn phrase_into(bytes: &[u8], start: usize, out: &mut Vec<u8>) -> (r: Result<usize, Error>)
    requires
        start <= bytes@.len(),
    ensures
        ended(r) == phrase_at(bytes@, start as int),
        r matches Ok(e) ==> start < e <= bytes@.len(),
        r is Ok ==> final(out)@ == old(out)@ + phrase_out(bytes@, start as int),
{
    let len = bytes.len();
    let first = word_into(bytes, start, out)?;
    let ghost mid = out@;
    let mut i = first;
    loop
        invariant
            len == bytes@.len(),
            start < first <= i <= len,
            word_at(bytes@, start as int) == Ok::<int, ErrorKind>(first as int),
            mid == old(out)@ + word_out(bytes@, start as int),
            phrase_rest(bytes@, i as int) == phrase_rest(bytes@, first as int),
            out@ + phrase_rest_out(bytes@, i as int) == mid + phrase_rest_out(bytes@, first as int),
        decreases len - i,
    {
        let ghost before = out@;
        if i >= len {
            assert(out@ =~= old(out)@ + phrase_out(bytes@, start as int));
            return Ok(i);
        }
        let mut word: Vec<u8> = Vec::new();
        match word_into(bytes, i, &mut word) {
            Ok(e) => {
                out.append(&mut word);
                assert(out@ + phrase_rest_out(bytes@, e as int) =~= before + phrase_rest_out(bytes@, i as int));
                i = e;
            },
            Err(_) => {
                let c = cfws_scan(bytes, i);
                if c > i {
                    out.push(SP);
                    assert(out@ + phrase_rest_out(bytes@, c as int) =~= before + phrase_rest_out(bytes@, i as int));
                    i = c;
                } else if bytes[i] == DOT {
                    out.push(DOT);
                    assert(out@ + phrase_rest_out(bytes@, i + 1) =~= before + phrase_rest_out(bytes@, i as int));
                    i = i + 1;
                } else {
                    assert(out@ =~= old(out)@ + phrase_out(bytes@, start as int));
                    return Ok(i);
                }
            },
        }
    }
}

/// Reads a word, RFC5322 section 3.2.5: `word = atom / quoted-string`. A quoted string is tried
/// where no atom stands. Returns the number of bytes read.
pub fn read_word(input: &Buffer) -> (r: Result<usize, Error>)
    ensures
        outcome(r) == consumed(word_at(input.bytes(), input.pos()), input.pos()),
{
    let mut scratch: Vec<u8> = Vec::new();
    parse_word(input, &mut scratch)
}

/// Reads a word like [`read_word`], and appends what it stands for to `out`: the `atext` of an
/// atom, or the content of a quoted string.
pub fn parse_word(input: &Buffer, out: &mut Vec<u8>) -> (r: Result<usize, Error>)
    ensures
        outcome(r) == consumed(word_at(input.bytes(), input.pos()), input.pos()),
        r is Ok ==> final(out)@ == old(out)@ + word_out(input.bytes(), input.pos()),
        r is Err ==> final(out)@ == old(out)@,
{
    let bytes = input.into_inner();
    let pos = input.position();
    let mut staged: Vec<u8> = Vec::new();
    let e = word_into(bytes, pos, &mut staged)?;
    out.append(&mut staged);
    Ok(e - pos)
}

/// Reads a phrase, RFC5322 sections 3.2.5 and 4.1:
///
/// ```text
/// phrase     = 1*word / obs-phrase
/// obs-phrase = word *(word / "." / CFWS)
/// ```
///
/// Returns the number of bytes read.
pub fn read_phrase(input: &Buffer) -> (r: Result<usize, Error>)
    ensures
        outcome(r) == consumed(phrase_at(input.bytes(), input.pos()), input.pos()),
{
    let mut scratch: Vec<u8> = Vec::new();
    parse_phrase(input, &mut scratch)
}

/// Reads a phrase like [`read_phrase`], and appends what it stands for to `out`: each word as
/// [`parse_word`] writes it, one space for each run of comments and white space between words,
/// and the dots.
pub fn parse_phrase(input: &Buffer, out: &mut Vec<u8>) -> (r: Result<usize, Error>)
    ensures
        outcome(r) == consumed(phrase_at(input.bytes(), input.pos()), input.pos()),
        r is Ok ==> final(out)@ == old(out)@ + phrase_out(input.bytes(), input.pos()),
        r is Err ==> final(out)@ == old(out)@,
{
    let bytes = input.into_inner();
    let pos = input.position();
    let mut staged: Vec<u8> = Vec::new();
    let e = phrase_into(bytes, pos, &mut staged)?;
    out.append(&mut staged);
    Ok(e - pos)
}

} // verus!
