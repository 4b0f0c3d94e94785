use vstd::prelude::*;

use crate::ascii::DOT;
use crate::buffer::Buffer;
use crate::errors::{consumed, ended, outcome, token_error, Error, ErrorKind, Token};
use crate::whitespaces::{cfws_end, cfws_scan, comment_end, lemma_fws_end_wsp_run, wsp};

verus! {

/// `ALPHA = %x41-5A / %x61-7A`
pub open spec fn alphabetical(c: u8) -> bool {
    (65 <= c <= 90) || (97 <= c <= 122)
}

/// `DIGIT = %x30-39`
pub open spec fn digit(c: u8) -> bool {
    48 <= c <= 57
}

/// `atext = ALPHA / DIGIT / "!" / "#" / "$" / "%" / "&" / "'" / "*" / "+" / "-" / "/" / "=" /
/// "?" / "^" / "_" / "`" / "{" / "|" / "}" / "~"`
pub open spec fn atext(c: u8) -> bool {
    alphabetical(c) || digit(c) || c == 33 || (35 <= c <= 39) || c == 42 || c == 43 || c == 45
        || c == 47 || c == 61 || c == 63 || (94 <= c <= 96) || (123 <= c <= 126)
}

/// The end of the run of `atext` that starts at `i`.
pub open spec fn atext_end(s: Seq<u8>, i: int) -> int
    decreases s.len() - i,
{
    if 0 <= i < s.len() && atext(s[i]) {
        atext_end(s, i + 1)
    } else {
        i
    }
}

/// The end of the `dot-atom-text = 1*atext *("." 1*atext)` that starts at `i`. A dot is taken
/// only where `atext` follows it.
pub open spec fn dot_atom_text_end(s: Seq<u8>, i: int) -> int
    decreases s.len() - i,
{
    if 0 <= i < s.len() && atext(s[i]) {
        dot_atom_text_end(s, i + 1)
    } else if 0 <= i && i + 1 < s.len() && s[i] == DOT && atext(s[i + 1]) {
        dot_atom_text_end(s, i + 2)
    } else {
        i
    }
}

/// `atom = [CFWS] 1*atext [CFWS]` at `p`.
pub open spec fn atom_at(s: Seq<u8>, p: int) -> Result<int, ErrorKind> {
    let i = cfws_end(s, p);
    if i >= s.len() {
        Err(ErrorKind::Eof)
    } else if !atext(s[i]) {
        Err(token_error(Token::Atext, s, i))
    } else {
        Ok(cfws_end(s, atext_end(s, i)))
    }
}

/// What an atom at `p` stands for: its `atext`, without the comments and white space around it.
pub open spec fn atom_out(s: Seq<u8>, p: int) -> Seq<u8> {
    let i = cfws_end(s, p);
    s.subrange(i, atext_end(s, i))
}

/// `dot-atom = [CFWS] dot-atom-text [CFWS]` at `p`.
pub open spec fn dot_atom_at(s: Seq<u8>, p: int) -> Result<int, ErrorKind> {
    let i = cfws_end(s, p);
    if i >= s.len() {
        Err(ErrorKind::Eof)
    } else if !atext(s[i]) {
        Err(token_error(Token::DotAtom, s, i))
    } else {
        Ok(cfws_end(s, dot_atom_text_end(s, i)))
    }
}

/// What a dot-atom at `p` stands for: its `dot-atom-text`.
pub open spec fn dot_atom_out(s: Seq<u8>, p: int) -> Seq<u8> {
    let i = cfws_end(s, p);
    s.subrange(i, dot_atom_text_end(s, i))
}

/// Return true if the byte represents an alphabetical character (`a-zA-Z`).
pub fn is_alphabetical(c: u8) -> (r: bool)
    ensures
        r == alphabetical(c),
{
    (c >= 65 && c <= 90) || (c >= 97 && c <= 122)
}

/// Return true if the byte represents a digit (`0-9`).
pub fn is_digit(c: u8) -> (r: bool)
    ensures
        r == digit(c),
{
    c >= 48 && c <= 57
}

/// Return true if the byte represents an `atext` character, RFC5322 section 3.2.3: a letter, a
/// digit, or one of ``!#$%&'*+-/=?^_`{|}~``.
pub fn is_atext(c: u8) -> (r: bool)
    ensures
        r == atext(c),
{
    is_alphabetical(c) || is_digit(c) || c == 33 || (c >= 35 && c <= 39) || c == 42 || c == 43
        || c == 45 || c == 47 || c == 61 || c == 63 || (c >= 94 && c <= 96) || (c >= 123 && c
        <= 126)
}

/// Appends `bytes[from..to]` to `out`.
pub(crate) fn append_range(bytes: &[u8], from: usize, to: usize, out: &mut Vec<u8>)
    requires
        from <= to <= bytes@.len(),
    ensures
        final(out)@ == old(out)@ + bytes@.subrange(from as int, to as int),
{
    let mut i = from;
    while i < to
        invariant
            from <= i <= to <= bytes@.len(),
            out@ == old(out)@ + bytes@.subrange(from as int, i as int),
        decreases to - i,
    {
        out.push(bytes[i]);
        assert(out@ =~= old(out)@ + bytes@.subrange(from as int, i + 1));
        i = i + 1;
    }
}

/// The end of the run of `atext` at `start`.
fn read_atom_text(bytes: &[u8], start: usize) -> (e: usize)
    requires
        start <= bytes@.len(),
    ensures
        e as int == atext_end(bytes@, start as int),
        start <= e <= bytes@.len(),
{
    let mut i = start;
    while i < bytes.len() && is_atext(bytes[i])
        invariant
            start <= i <= bytes@.len(),
            atext_end(bytes@, i as int) == atext_end(bytes@, start as int),
        decreases bytes@.len() - i,
    {
        i = i + 1;
    }
    i
}

/// The end of the `dot-atom-text` at `start`.
fn read_dot_atom_text(bytes: &[u8], start: usize) -> (e: usize)
    requires
        start <= bytes@.len(),
    ensures
        e as int == dot_atom_text_end(bytes@, start as int),
        start <= e <= bytes@.len(),
{
    let len = bytes.len();
    let mut i = start;
    loop
        invariant
            len == bytes@.len(),
            start <= i <= len,
            dot_atom_text_end(bytes@, i as int) == dot_atom_text_end(bytes@, start as int),
        decreases len - i,
    {
        if i < len && is_atext(bytes[i]) {
            i = i + 1;
        } else if i < len && len - i > 1 && bytes[i] == DOT && is_atext(bytes[i + 1]) {
            // a dot counts only where more atext follows it
            i = i + 2;
        } else {
            return i;
        }
    }
}

/// Appends the `atext` of the atom at `start` and returns the atom's end.
pub(crate) fn atom_into(bytes: &[u8], start: usize, out: &mut Vec<u8>) -> (r: Result<usize, Error>)
    requires
        start <= bytes@.len(),
    ensures
        ended(r) == atom_at(bytes@, start as int),
        r matches Ok(e) ==> start < e <= bytes@.len(),
        r is Ok ==> final(out)@ == old(out)@ + atom_out(bytes@, start as int),
        r is Err ==> final(out)@ == old(out)@,
{
    let i = cfws_scan(bytes, start);
    if i >= bytes.len() {
        return Err(Error::new(ErrorKind::Eof));
    }
    if !is_atext(bytes[i]) {
        return Err(Error::new(ErrorKind::Token { token: Token::Atext, byte: bytes[i], position: i }));
    }
    // the first byte is atext: the run goes on from the next one
    let e = read_atom_text(bytes, i + 1);
    append_range(bytes, i, e, out);
    Ok(cfws_scan(bytes, e))
}

/// Appends the `dot-atom-text` of the dot-atom at `start` and returns the dot-atom's end.
pub(crate) fn dot_atom_into(bytes: &[u8], start: usize, out: &mut Vec<u8>) -> (r: Result<usize, Error>)
    requires
        start <= bytes@.len(),
    ensures
        ended(r) == dot_atom_at(bytes@, start as int),
        r matches Ok(e) ==> start < e <= bytes@.len(),
        r is Ok ==> final(out)@ == old(out)@ + dot_atom_out(bytes@, start as int),
        r is Err ==> final(out)@ == old(out)@,
{
    let i = cfws_scan(bytes, start);
    if i >= bytes.len() {
        return Err(Error::new(ErrorKind::Eof));
    }
    if !is_atext(bytes[i]) {
        return Err(Error::new(ErrorKind::Token { token: Token::DotAtom, byte: bytes[i], position: i }));
    }
    let e = read_dot_atom_text(bytes, i + 1);
    append_range(bytes, i, e, out);
    Ok(cfws_scan(bytes, e))
}

/// A run of atext from `i` up to `k`, where no atext follows, is the atext at `i`.
proof fn lemma_atext_end_run(s: Seq<u8>, i: int, k: int)
    requires
        0 <= i <= k <= s.len(),
        forall|m: int| i <= m < k ==> atext(#[trigger] s[m]),
        k == s.len() || !atext(s[k]),
    ensures
        atext_end(s, i) == k,
    decreases k - i,
{
    if i < k {
        lemma_atext_end_run(s, i + 1, k);
    }
}

/// An atom wrapped in white space is read whole: for atext `t` between runs of white space `w1`
/// and `w2`, the atom takes all of `w1 + t + w2` and stands for `t`.
pub proof fn atom_in_white_space(w1: Seq<u8>, t: Seq<u8>, w2: Seq<u8>)
    requires
        t.len() > 0,
        forall|k: int| 0 <= k < t.len() ==> atext(#[trigger] t[k]),
        forall|k: int| 0 <= k < w1.len() ==> wsp(#[trigger] w1[k]),
        forall|k: int| 0 <= k < w2.len() ==> wsp(#[trigger] w2[k]),
    ensures
        atom_at(w1 + t + w2, 0) == Ok::<int, ErrorKind>((w1 + t + w2).len() as int),
        atom_out(w1 + t + w2, 0) == t,
{
    let s = w1 + t + w2;
    let a = w1.len() as int;
    let b = a + t.len();
    assert forall|m: int| 0 <= m < a implies wsp(#[trigger] s[m]) by {
        assert(s[m] == w1[m]);
    }
    assert(s[a] == t[0]);
    lemma_fws_end_wsp_run(s, 0, a);
    assert(comment_end(s, a) is None);
    assert(cfws_end(s, 0) == a);
    assert forall|m: int| a <= m < b implies atext(#[trigger] s[m]) by {
        assert(s[m] == t[m - a]);
    }
    assert forall|m: int| b <= m < s.len() implies wsp(#[trigger] s[m]) by {
        assert(s[m] == w2[m - b]);
    }
    if b < s.len() {
        assert(wsp(s[b]));
    }
    lemma_atext_end_run(s, a, b);
    lemma_fws_end_wsp_run(s, b, s.len() as int);
    assert(comment_end(s, s.len() as int) is None);
    assert(cfws_end(s, b) == s.len());
    assert(s.subrange(a, b) =~= t);
}

/// Reads an atom, RFC5322 section 3.2.3:
///
/// ```text
/// atom = [CFWS] 1*atext [CFWS]
/// ```
///
/// Returns the number of bytes read.
pub fn read_atom(input: &Buffer) -> (r: Result<usize, Error>)
    ensures
        outcome(r) == consumed(atom_at(input.bytes(), input.pos()), input.pos()),
{
    let mut scratch: Vec<u8> = Vec::new();
    parse_atom(input, &mut scratch)
}

/// Reads an atom like [`read_atom`], and appends its `atext` to `out`: the comments and white
/// space around it are left out.
pub fn parse_atom(input: &Buffer, out: &mut Vec<u8>) -> (r: Result<usize, Error>)
    ensures
        outcome(r) == consumed(atom_at(input.bytes(), input.pos()), input.pos()),
        r is Ok ==> final(out)@ == old(out)@ + atom_out(input.bytes(), input.pos()),
        r is Err ==> final(out)@ == old(out)@,
{
    let bytes = input.into_inner();
    let pos = input.position();
    let e = atom_into(bytes, pos, out)?;
    Ok(e - pos)
}

/// Reads a dot-atom, RFC5322 section 3.2.3:
///
/// ```text
/// dot-atom      = [CFWS] dot-atom-text [CFWS]
/// dot-atom-text = 1*atext *("." 1*atext)
/// ```
///
/// Returns the number of bytes read. A dot that no `atext` follows is not read.
pub fn read_dot_atom(input: &Buffer) -> (r: Result<usize, Error>)
    ensures
        outcome(r) == consumed(dot_atom_at(input.bytes(), input.pos()), input.pos()),
{
    let mut scratch: Vec<u8> = Vec::new();
    parse_dot_atom(input, &mut scratch)
}

/// Reads a dot-atom like [`read_dot_atom`], and appends its `dot-atom-text` to `out`.
pub fn parse_dot_atom(input: &Buffer, out: &mut Vec<u8>) -> (r: Result<usize, Error>)
    ensures
        outcome(r) == consumed(dot_atom_at(input.bytes(), input.pos()), input.pos()),
        r is Ok ==> final(out)@ == old(out)@ + dot_atom_out(input.bytes(), input.pos()),
        r is Err ==> final(out)@ == old(out)@,
{
    let bytes = input.into_inner();
    let pos = input.position();
    let e = dot_atom_into(bytes, pos, out)?;
    Ok(e - pos)
}

} // verus!
