use vstd::prelude::*;

use crate::ascii::{BACKSLASH, CR, HTAB, LF, LPAREN, RPAREN, SP};
use crate::buffer::Buffer;
use crate::errors::{outcome, token_error, Error, ErrorKind, Token};

verus! {

/// `WSP = SP / HTAB`
pub open spec fn wsp(c: u8) -> bool {
    c == SP || c == HTAB
}

/// How far one step of folding white space reaches from `i`: a white space byte (1), a
/// `CRLF WSP` fold (3), or nothing (0).
pub open spec fn fws_step(s: Seq<u8>, i: int) -> int {
    if 0 <= i < s.len() && wsp(s[i]) {
        1
    } else if 0 <= i && i + 2 < s.len() && s[i] == CR && s[i + 1] == LF && wsp(s[i + 2]) {
        3
    } else {
        0
    }
}

/// The end of the longest folding white space that starts at `i` (`i` itself where there is
/// none): `FWS = (1*WSP *(CRLF 1*WSP)) / 1*(CRLF 1*WSP)`.
pub open spec fn fws_end(s: Seq<u8>, i: int) -> int
    decreases s.len() - i,
{
    if i < s.len() && fws_step(s, i) > 0 {
        fws_end(s, i + fws_step(s, i))
    } else {
        i
    }
}

/// The folding white space that starts at `i`, with its line breaks removed.
pub open spec fn fws_unfolded(s: Seq<u8>, i: int) -> Seq<u8>
    decreases s.len() - i,
{
    if i < s.len() && fws_step(s, i) > 0 {
        seq![s[i + fws_step(s, i) - 1]] + fws_unfolded(s, i + fws_step(s, i))
    } else {
        Seq::empty()
    }
}

/// Reading FWS at `p`: the number of bytes it covers.
pub open spec fn fws(s: Seq<u8>, p: int) -> Result<nat, ErrorKind> {
    if p >= s.len() {
        Err(ErrorKind::Eof)
    } else if fws_end(s, p) == p {
        Err(token_error(Token::Fws, s, p))
    } else {
        Ok((fws_end(s, p) - p) as nat)
    }
}

/// Scans the inside of a comment from `i` at nesting `depth`, up to the `)` that closes it.
/// A backslash escapes the byte after it, whatever it is. `None`: the input ends first.
pub open spec fn comment_scan(s: Seq<u8>, i: int, depth: nat) -> Option<int>
    decreases s.len() - i,
{
    if i < 0 || i >= s.len() {
        None
    } else if s[i] == BACKSLASH {
        if i + 1 < s.len() {
            comment_scan(s, i + 2, depth)
        } else {
            None
        }
    } else if s[i] == RPAREN {
        if depth <= 1 {
            Some(i + 1)
        } else {
            comment_scan(s, i + 1, (depth - 1) as nat)
        }
    } else if s[i] == LPAREN {
        comment_scan(s, i + 1, depth + 1)
    } else {
        comment_scan(s, i + 1, depth)
    }
}

/// The end of the comment that starts at `i`, if one does.
pub open spec fn comment_end(s: Seq<u8>, i: int) -> Option<int> {
    if 0 <= i < s.len() && s[i] == LPAREN {
        comment_scan(s, i + 1, 1)
    } else {
        None
    }
}

/// Reading a comment at `p`: the number of bytes up to and including its closing `)`.
pub open spec fn comment(s: Seq<u8>, p: int) -> Result<nat, ErrorKind> {
    if p >= s.len() {
        Err(ErrorKind::Eof)
    } else if s[p] != LPAREN {
        Err(token_error(Token::Comment, s, p))
    } else {
        match comment_scan(s, p + 1, 1) {
            Some(e) => Ok((e - p) as nat),
            None => Err(ErrorKind::Eof),
        }
    }
}

/// The end of the longest run of comments and folding white space that starts at `i` (`i`
/// itself where there is none): `CFWS = *([FWS] comment) (([FWS] comment) / FWS)`. A comment
/// that is not closed ends the run before it.
pub open spec fn cfws_end(s: Seq<u8>, i: int) -> int
    decreases s.len() - i,
{
    let j = fws_end(s, i);
    match comment_end(s, j) {
        Some(e) => if i < e <= s.len() {
            cfws_end(s, e)
        } else {
            e
        },
        None => j,
    }
}

/// The run of comments and folding white space at `i`, with line breaks removed from the white
/// space and the comments left out.
pub open spec fn cfws_unfolded(s: Seq<u8>, i: int) -> Seq<u8>
    decreases s.len() - i,
{
    let j = fws_end(s, i);
    match comment_end(s, j) {
        Some(e) => if i < e <= s.len() {
            fws_unfolded(s, i) + cfws_unfolded(s, e)
        } else {
            fws_unfolded(s, i)
        },
        None => fws_unfolded(s, i),
    }
}

/// Reading CFWS at `p`: the number of bytes it covers. A run that reaches the end of the
/// input is complete.
pub open spec fn cfws(s: Seq<u8>, p: int) -> Result<nat, ErrorKind> {
    if p >= s.len() {
        Err(ErrorKind::Eof)
    } else if cfws_end(s, p) == p {
        Err(token_error(Token::Cfws, s, p))
    } else {
        Ok((cfws_end(s, p) - p) as nat)
    }
}

/// Return true if the byte represents a white space or a horizontal tab.
pub fn is_wsp(c: u8) -> (r: bool)
    ensures
        r == wsp(c),
{
    c == SP || c == HTAB
}

fn fws_step_at(bytes: &[u8], i: usize) -> (r: usize)
    ensures
        r == fws_step(bytes@, i as int),
{
    let len = bytes.len();
    if i < len && is_wsp(bytes[i]) {
        1
    } else if i < len && len - i > 2 && bytes[i] == CR && bytes[i + 1] == LF && is_wsp(
        bytes[i + 2],
    ) {
        3
    } else {
        0
    }
}

/// The end of the folding white space at `start`.
pub(crate) fn fws_scan(bytes: &[u8], start: usize) -> (e: usize)
    requires
        start <= bytes@.len(),
    ensures
        e as int == fws_end(bytes@, start as int),
        start <= e <= bytes@.len(),
{
    let len = bytes.len();
    let mut i = start;
    let mut step = fws_step_at(bytes, i);
    while step > 0
        invariant
            len == bytes@.len(),
            start <= i <= bytes@.len(),
            step == fws_step(bytes@, i as int),
            fws_end(bytes@, i as int) == fws_end(bytes@, start as int),
        decreases bytes@.len() - i,
    {
        i = i + step;
        step = fws_step_at(bytes, i);
    }
    i
}

/// Appends the folding white space at `start`, unfolded, and returns its end.
pub(crate) fn fws_unfold(bytes: &[u8], start: usize, out: &mut Vec<u8>) -> (e: usize)
    requires
        start <= bytes@.len(),
    ensures
        e as int == fws_end(bytes@, start as int),
        start <= e <= bytes@.len(),
        final(out)@ == old(out)@ + fws_unfolded(bytes@, start as int),
{
    let len = bytes.len();
    let mut i = start;
    let mut step = fws_step_at(bytes, i);
    while step > 0
        invariant
            len == bytes@.len(),
            start <= i <= bytes@.len(),
            step == fws_step(bytes@, i as int),
            fws_end(bytes@, i as int) == fws_end(bytes@, start as int),
            out@ + fws_unfolded(bytes@, i as int) == old(out)@ + fws_unfolded(bytes@, start as int),
        decreases bytes@.len() - i,
    {
        out.push(bytes[i + step - 1]);
        proof {
            assert(out@ + fws_unfolded(bytes@, i + step) =~= old(out)@ + fws_unfolded(bytes@, start as int)) by {
                assert(fws_unfolded(bytes@, i as int) == seq![bytes@[i + step - 1]] + fws_unfolded(bytes@, i + step));
                assert(out@ + fws_unfolded(bytes@, i + step) =~= (out@.drop_last()) + fws_unfolded(bytes@, i as int));
            }
        }
        i = i + step;
        step = fws_step_at(bytes, i);
    }
    i
}

/// The end of the comment at `start`, if one starts there and is closed.
pub(crate) fn comment_at(bytes: &[u8], start: usize) -> (r: Option<usize>)
    requires
        start <= bytes@.len(),
    ensures
        match r {
            Some(e) => comment_end(bytes@, start as int) == Some(e as int) && start < e <= bytes@.len(),
            None => comment_end(bytes@, start as int) is None,
        },
{
    let len = bytes.len();
    if start >= len || bytes[start] != LPAREN {
        return None;
    }
    // comments nest: the opening parenthesis puts us at depth one
    let mut depth: usize = 1;
    let mut i = start + 1;
    while i < len
        invariant
            len == bytes@.len(),
            start < i <= len,
            bytes@[start as int] == LPAREN,
            1 <= depth <= i,
            comment_scan(bytes@, i as int, depth as nat) == comment_scan(bytes@, start + 1, 1),
        decreases len - i,
    {
        let c = bytes[i];
        if c == BACKSLASH {
            // the next byte is escaped, whatever it is
            if i + 1 < len {
                i = i + 2;
            } else {
                return None;
            }
        } else if c == RPAREN {
            if depth <= 1 {
                return Some(i + 1);
            }
            depth = depth - 1;
            i = i + 1;
        } else if c == LPAREN {
            depth = depth + 1;
            i = i + 1;
        } else {
            i = i + 1;
        }
    }
    None
}

/// The end of the run of comments and folding white space at `start`.
pub(crate) fn cfws_scan(bytes: &[u8], start: usize) -> (e: usize)
    requires
        start <= bytes@.len(),
    ensures
        e as int == cfws_end(bytes@, start as int),
        start <= e <= bytes@.len(),
{
    let mut i = start;
    loop
        invariant
            start <= i <= bytes@.len(),
            cfws_end(bytes@, i as int) == cfws_end(bytes@, start as int),
        decreases bytes@.len() - i,
    {
        let j = fws_scan(bytes, i);
        match comment_at(bytes, j) {
            Some(e) => {
                i = e;
            },
            None => {
                return j;
            },
        }
    }
}

/// Appends the run of comments and folding white space at `start`, unfolded and without its
/// comments, and returns its end.
pub(crate) fn cfws_unfold(bytes: &[u8], start: usize, out: &mut Vec<u8>) -> (e: usize)
    requires
        start <= bytes@.len(),
    ensures
        e as int == cfws_end(bytes@, start as int),
        start <= e <= bytes@.len(),
        final(out)@ == old(out)@ + cfws_unfolded(bytes@, start as int),
{
    let mut i = start;
    loop
        invariant
            start <= i <= bytes@.len(),
            cfws_end(bytes@, i as int) == cfws_end(bytes@, start as int),
            out@ + cfws_unfolded(bytes@, i as int) == old(out)@ + cfws_unfolded(bytes@, start as int),
        decreases bytes@.len() - i,
    {
        let ghost before = out@;
        let j = fws_unfold(bytes, i, out);
        match comment_at(bytes, j) {
            Some(e) => {
                assert(out@ + cfws_unfolded(bytes@, e as int) =~= before + cfws_unfolded(bytes@, i as int));
                i = e;
            },
            None => {
                assert(out@ =~= before + cfws_unfolded(bytes@, i as int));
                return j;
            },
        }
    }
}

proof fn lemma_fws_end_bounds(s: Seq<u8>, i: int)
    requires
        0 <= i <= s.len(),
    ensures
        i <= fws_end(s, i) <= s.len(),
        fws_step(s, i) > 0 ==> i < fws_end(s, i),
    decreases s.len() - i,
{
    if i < s.len() && fws_step(s, i) > 0 {
        lemma_fws_end_bounds(s, i + fws_step(s, i));
    }
}

/// A run of white space bytes from `i` up to `k`, where no fold goes on, is the folding white
/// space at `i`.
pub(crate) proof fn lemma_fws_end_wsp_run(s: Seq<u8>, i: int, k: int)
    requires
        0 <= i <= k <= s.len(),
        forall|m: int| i <= m < k ==> wsp(#[trigger] s[m]),
        k == s.len() || (!wsp(s[k]) && s[k] != CR),
    ensures
        fws_end(s, i) == k,
    decreases k - i,
{
    if i < k {
        lemma_fws_end_wsp_run(s, i + 1, k);
    }
}

/// Where neither white space, a line break nor a comment starts, there is no CFWS.
pub(crate) proof fn lemma_cfws_end_none(s: Seq<u8>, i: int)
    requires
        0 <= i <= s.len(),
        i == s.len() || (!wsp(s[i]) && s[i] != CR && s[i] != LPAREN),
    ensures
        cfws_end(s, i) == i,
{
    assert(fws_end(s, i) == i);
}

/// Replacing comments and folding white space is idempotent. Where `replace_cfws` succeeds, it
/// appends one space to what the sink held; reading CFWS again at that space takes exactly that
/// one byte, so replacing it again appends the same single space.
pub proof fn replace_cfws_idempotent(s: Seq<u8>, p: int, held: Seq<u8>)
    requires
        cfws(s, p) is Ok,
    ensures
        cfws(held.push(SP), held.len() as int) == Ok::<nat, ErrorKind>(1),
{
    let t = held.push(SP);
    let n = held.len() as int;
    assert(t[n] == SP);
    lemma_fws_end_wsp_run(t, n, n + 1);
    assert(comment_end(t, n + 1) is None);
}

/// Reads a folding white space (FWS), RFC5322 section 3.2.2:
///
/// ```text
/// FWS     = ([*WSP CRLF] 1*WSP) / obs-FWS
/// obs-FWS = 1*WSP *(CRLF 1*WSP)
/// ```
///
/// which is the same as `(1*WSP *(CRLF 1*WSP)) / 1*(CRLF 1*WSP)`. Returns the number of bytes
/// read.
pub fn skip_fws(input: &Buffer) -> (r: Result<usize, Error>)
    ensures
        outcome(r) == fws(input.bytes(), input.pos()),
{
    let bytes = input.into_inner();
    let pos = input.position();
    if pos >= bytes.len() {
        return Err(Error::new(ErrorKind::Eof));
    }
    let e = fws_scan(bytes, pos);
    if e == pos {
        return Err(Error::new(ErrorKind::Token { token: Token::Fws, byte: bytes[pos], position: pos }));
    }
    Ok(e - pos)
}

/// Reads a folding white space like [`skip_fws`], and appends it to `out` without its line
/// breaks.
pub fn unfold_fws(input: &Buffer, out: &mut Vec<u8>) -> (r: Result<usize, Error>)
    ensures
        outcome(r) == fws(input.bytes(), input.pos()),
        r is Ok ==> final(out)@ == old(out)@ + fws_unfolded(input.bytes(), input.pos()),
        r is Err ==> final(out)@ == old(out)@,
{
    let bytes = input.into_inner();
    let pos = input.position();
    if pos >= bytes.len() {
        return Err(Error::new(ErrorKind::Eof));
    }
    if fws_step_at(bytes, pos) == 0 {
        return Err(Error::new(ErrorKind::Token { token: Token::Fws, byte: bytes[pos], position: pos }));
    }
    let e = fws_unfold(bytes, pos, out);
    proof { lemma_fws_end_bounds(bytes@, pos as int); }
    Ok(e - pos)
}

/// Reads a folding white space like [`skip_fws`], and appends a single space to `out` in its
/// place.
pub fn replace_fws(input: &Buffer, out: &mut Vec<u8>) -> (r: Result<usize, Error>)
    ensures
        outcome(r) == fws(input.bytes(), input.pos()),
        r is Ok ==> final(out)@ == old(out)@.push(SP),
        r is Err ==> final(out)@ == old(out)@,
{
    let len = skip_fws(input)?;
    out.push(SP);
    Ok(len)
}

/// Reads a comment, RFC5322 section 3.2.2:
///
/// ```text
/// ctext    = %d33-39 / %d42-91 / %d93-126 / obs-ctext
/// ccontent = ctext / quoted-pair / comment
/// comment  = "(" *([FWS] ccontent) [FWS] ")"
/// ```
///
/// Comments nest; the nesting is counted, not recursed into. A backslash escapes the byte that
/// follows it. Returns the number of bytes read, closing parenthesis included.
pub fn skip_comment(input: &Buffer) -> (r: Result<usize, Error>)
    ensures
        outcome(r) == comment(input.bytes(), input.pos()),
{
    let bytes = input.into_inner();
    let pos = input.position();
    if pos >= bytes.len() {
        return Err(Error::new(ErrorKind::Eof));
    }
    if bytes[pos] != LPAREN {
        return Err(Error::new(ErrorKind::Token { token: Token::Comment, byte: bytes[pos], position: pos }));
    }
    match comment_at(bytes, pos) {
        Some(e) => Ok(e - pos),
        // the input ends before the closing parenthesis
        None => Err(Error::new(ErrorKind::Eof)),
    }
}

/// Reads comments and folding white space (CFWS), RFC5322 section 3.2.2:
///
/// ```text
/// CFWS = *([FWS] comment) (([FWS] comment) / FWS)
/// ```
///
/// Returns the number of bytes read, at least one.
pub fn skip_cfws(input: &Buffer) -> (r: Result<usize, Error>)
    ensures
        outcome(r) == cfws(input.bytes(), input.pos()),
{
    let bytes = input.into_inner();
    let pos = input.position();
    if pos >= bytes.len() {
        return Err(Error::new(ErrorKind::Eof));
    }
    let e = cfws_scan(bytes, pos);
    if e == pos {
        // at least one comment or one FWS is required
        return Err(Error::new(ErrorKind::Token { token: Token::Cfws, byte: bytes[pos], position: pos }));
    }
    Ok(e - pos)
}

/// Reads comments and folding white space like [`skip_cfws`], and appends a single space to
/// `out` in their place.
pub fn replace_cfws(input: &Buffer, out: &mut Vec<u8>) -> (r: Result<usize, Error>)
    ensures
        outcome(r) == cfws(input.bytes(), input.pos()),
        r is Ok ==> final(out)@ == old(out)@.push(SP),
        r is Err ==> final(out)@ == old(out)@,
{
    let len = skip_cfws(input)?;
    out.push(SP);
    Ok(len)
}

/// Reads comments and folding white space like [`skip_cfws`], and appends the white space to
/// `out` without its line breaks. Comments are left out.
pub fn unfold_cfws(input: &Buffer, out: &mut Vec<u8>) -> (r: Result<usize, Error>)
    ensures
        outcome(r) == cfws(input.bytes(), input.pos()),
        r is Ok ==> final(out)@ == old(out)@ + cfws_unfolded(input.bytes(), input.pos()),
        r is Err ==> final(out)@ == old(out)@,
{
    let bytes = input.into_inner();
    let pos = input.position();
    if pos >= bytes.len() {
        return Err(Error::new(ErrorKind::Eof));
    }
    if cfws_scan(bytes, pos) == pos {
        return Err(Error::new(ErrorKind::Token { token: Token::Cfws, byte: bytes[pos], position: pos }));
    }
    let e = cfws_unfold(bytes, pos, out);
    Ok(e - pos)
}

} // verus!
