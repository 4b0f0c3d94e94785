use vstd::prelude::*;

use crate::ascii::{AT, BACKSLASH, CR, DEL, DOT, LBRACKET, LPAREN, RBRACKET, SP};
use crate::atom::{
    atext, atext_end, atom_at, atom_into, atom_out, dot_atom_at, dot_atom_into, dot_atom_out,
    dot_atom_text_end,
};
use crate::buffer::Buffer;
use crate::common::{is_obs_no_ws_ctl, obs_no_ws_ctl, word_at, word_into, word_out};
use crate::errors::{consumed, ended, outcome, token_error, Error, ErrorKind, Token};
use crate::quoted_string::{quoted_string_at, quoted_string_into, quoted_string_out};
use crate::whitespaces::{
    cfws_end, cfws_scan, fws_end, fws_scan, lemma_cfws_end_none, lemma_fws_end_wsp_run, wsp,
};

verus! {

/// `dtext = %d33-90 / %d94-126 / obs-dtext`, without the quoted pairs of `obs-dtext`.
pub open spec fn dtext(c: u8) -> bool {
    (33 <= c <= 90) || (94 <= c <= 126) || obs_no_ws_ctl(c)
}

/// Scans `*([FWS] dtext) [FWS]` from `i`, up to where the closing bracket should stand. A
/// quoted pair escapes a byte from 0 to 126.
pub open spec fn dlit_body(s: Seq<u8>, i: int) -> Result<int, ErrorKind>
    decreases s.len() - i,
{
    let j = fws_end(s, i);
    if i < 0 || j < i || j >= s.len() {
        Ok(j)
    } else if dtext(s[j]) {
        dlit_body(s, j + 1)
    } else if s[j] == BACKSLASH {
        if j + 1 >= s.len() {
            Err(ErrorKind::Eof)
        } else if s[j + 1] >= DEL {
            Err(token_error(Token::Domain, s, j + 1))
        } else {
            dlit_body(s, j + 2)
        }
    } else {
        Ok(j)
    }
}

/// The content of a domain literal from `i`: each FWS becomes one space, each quoted pair the
/// byte it escapes.
pub open spec fn dlit_body_out(s: Seq<u8>, i: int) -> Seq<u8>
    decreases s.len() - i,
{
    let j = fws_end(s, i);
    let space: Seq<u8> = if j > i { seq![SP] } else { Seq::empty() };
    if i < 0 || j < i || j >= s.len() {
        space
    } else if dtext(s[j]) {
        space + seq![s[j]] + dlit_body_out(s, j + 1)
    } else if s[j] == BACKSLASH && j + 1 < s.len() && s[j + 1] < DEL {
        space + seq![s[j + 1]] + dlit_body_out(s, j + 2)
    } else {
        space
    }
}

/// `domain-literal = [CFWS] "[" *([FWS] dtext) [FWS] "]" [CFWS]` at `p`.
pub open spec fn domain_literal_at(s: Seq<u8>, p: int) -> Result<int, ErrorKind> {
    let i = cfws_end(s, p);
    if i >= s.len() {
        Err(ErrorKind::Eof)
    } else if s[i] != LBRACKET {
        Err(token_error(Token::Domain, s, i))
    } else {
        match dlit_body(s, i + 1) {
            Err(k) => Err(k),
            Ok(j) => if j >= s.len() {
                Err(ErrorKind::Eof)
            } else if s[j] != RBRACKET {
                Err(token_error(Token::Domain, s, j))
            } else {
                Ok(cfws_end(s, j + 1))
            },
        }
    }
}

/// What a domain literal at `p` stands for: its brackets and their content.
pub open spec fn domain_literal_out(s: Seq<u8>, p: int) -> Seq<u8> {
    seq![LBRACKET] + dlit_body_out(s, cfws_end(s, p) + 1) + seq![RBRACKET]
}

/// `domain = dot-atom / domain-literal` at `p`.
pub open spec fn domain_at(s: Seq<u8>, p: int) -> Result<int, ErrorKind> {
    match dot_atom_at(s, p) {
        Ok(e) => Ok(e),
        Err(_) => domain_literal_at(s, p),
    }
}

/// What a domain at `p` stands for.
pub open spec fn domain_out(s: Seq<u8>, p: int) -> Seq<u8> {
    if dot_atom_at(s, p) is Ok {
        dot_atom_out(s, p)
    } else {
        domain_literal_out(s, p)
    }
}

/// `local-part = dot-atom / quoted-string` at `p`.
pub open spec fn local_part_at(s: Seq<u8>, p: int) -> Result<int, ErrorKind> {
    match dot_atom_at(s, p) {
        Ok(e) => Ok(e),
        Err(_) => quoted_string_at(s, p),
    }
}

/// What a local part at `p` stands for.
pub open spec fn local_part_out(s: Seq<u8>, p: int) -> Seq<u8> {
    if dot_atom_at(s, p) is Ok {
        dot_atom_out(s, p)
    } else {
        quoted_string_out(s, p)
    }
}

/// Scans `*("." word)` from `i`. A dot is taken only where a word follows it.
pub open spec fn words_rest(s: Seq<u8>, i: int) -> int
    decreases s.len() - i,
{
    let w = word_at(s, i + 1);
    if 0 <= i < s.len() && s[i] == DOT && w is Ok && i + 1 < w->Ok_0 <= s.len() {
        words_rest(s, w->Ok_0)
    } else {
        i
    }
}

/// What `*("." word)` from `i` stands for: the dots and the words.
pub open spec fn words_rest_out(s: Seq<u8>, i: int) -> Seq<u8>
    decreases s.len() - i,
{
    let w = word_at(s, i + 1);
    if 0 <= i < s.len() && s[i] == DOT && w is Ok && i + 1 < w->Ok_0 <= s.len() {
        seq![DOT] + word_out(s, i + 1) + words_rest_out(s, w->Ok_0)
    } else {
        Seq::empty()
    }
}

/// `obs-local-part = word *("." word)` at `p`.
pub open spec fn obs_local_part_at(s: Seq<u8>, p: int) -> Result<int, ErrorKind> {
    match word_at(s, p) {
        Ok(e) => Ok(words_rest(s, e)),
        Err(k) => Err(k),
    }
}

/// What an obsolete local part at `p` stands for.
pub open spec fn obs_local_part_out(s: Seq<u8>, p: int) -> Seq<u8> {
    word_out(s, p) + words_rest_out(s, word_at(s, p)->Ok_0)
}

/// Scans `*("." atom)` from `i`. A dot is taken only where an atom follows it.
pub open spec fn atoms_rest(s: Seq<u8>, i: int) -> int
    decreases s.len() - i,
{
    let a = atom_at(s, i + 1);
    if 0 <= i < s.len() && s[i] == DOT && a is Ok && i + 1 < a->Ok_0 <= s.len() {
        atoms_rest(s, a->Ok_0)
    } else {
        i
    }
}

/// What `*("." atom)` from `i` stands for: the dots and the atoms.
pub open spec fn atoms_rest_out(s: Seq<u8>, i: int) -> Seq<u8>
    decreases s.len() - i,
{
    let a = atom_at(s, i + 1);
    if 0 <= i < s.len() && s[i] == DOT && a is Ok && i + 1 < a->Ok_0 <= s.len() {
        seq![DOT] + atom_out(s, i + 1) + atoms_rest_out(s, a->Ok_0)
    } else {
        Seq::empty()
    }
}

/// `obs-domain = atom *("." atom)` at `p`.
pub open spec fn obs_domain_at(s: Seq<u8>, p: int) -> Result<int, ErrorKind> {
    match atom_at(s, p) {
        Ok(e) => Ok(atoms_rest(s, e)),
        Err(k) => Err(k),
    }
}

/// What an obsolete domain at `p` stands for.
pub open spec fn obs_domain_out(s: Seq<u8>, p: int) -> Seq<u8> {
    atom_out(s, p) + atoms_rest_out(s, atom_at(s, p)->Ok_0)
}

/// `addr-spec = local-part "@" domain` at `p`.
pub open spec fn address_at(s: Seq<u8>, p: int) -> Result<int, ErrorKind> {
    match local_part_at(s, p) {
        Err(k) => Err(k),
        Ok(e) => if e >= s.len() {
            Err(ErrorKind::Eof)
        } else if s[e] != AT {
            Err(token_error(Token::Address, s, e))
        } else {
            domain_at(s, e + 1)
        },
    }
}

/// Whether `s` from `p` up to `k` is a `dot-atom-text` that nothing continues: runs of atext
/// with single dots between them, followed by the end of the input or by a byte that is neither
/// atext, a dot, white space, a line break nor the start of a comment.
pub open spec fn is_dot_atom_text(s: Seq<u8>, p: int, k: int) -> bool {
    &&& 0 <= p < k <= s.len()
    &&& atext(s[p])
    &&& forall|m: int|
        p <= m < k ==> (atext(#[trigger] s[m]) || (s[m] == DOT && m + 1 < k && atext(s[m + 1])))
    &&& k == s.len() || !(atext(s[k]) || s[k] == DOT || wsp(s[k]) || s[k] == CR || s[k] == LPAREN)
}

/// An e-mail address: what its local part and its domain stand for.
#[derive(Clone, Debug, Hash, PartialEq, Eq)]
pub struct Address {
    local_part: Vec<u8>,
    domain: Vec<u8>,
}

impl View for Address {
    type V = (Seq<u8>, Seq<u8>);

    closed spec fn view(&self) -> (Seq<u8>, Seq<u8>) {
        (self.local_part@, self.domain@)
    }
}

fn is_dtext(c: u8) -> (r: bool)
    ensures
        r == dtext(c),
{
    (c >= 33 && c <= 90) || (c >= 94 && c <= 126) || is_obs_no_ws_ctl(c)
}

/// Appends what the domain literal at `start` stands for and returns its end. Where there is
/// none, what was appended is unspecified.
fn domain_literal_into(bytes: &[u8], start: usize, out: &mut Vec<u8>) -> (r: Result<usize, Error>)
    requires
        start <= bytes@.len(),
    ensures
        ended(r) == domain_literal_at(bytes@, start as int),
        r matches Ok(e) ==> start < e <= bytes@.len(),
        r is Ok ==> final(out)@ == old(out)@ + domain_literal_out(bytes@, start as int),
{
    let len = bytes.len();
    let open = cfws_scan(bytes, start);
    if open >= len {
        return Err(Error::new(ErrorKind::Eof));
    }
    if bytes[open] != LBRACKET {
        return Err(Error::new(ErrorKind::Token { token: Token::Domain, byte: bytes[open], position: open }));
    }
    // the brackets are part of the value
    out.push(LBRACKET);
    let ghost mid = out@;
    let mut i = open + 1;
    loop
        invariant
            len == bytes@.len(),
            start <= open < i <= len,
            open as int == cfws_end(bytes@, start as int),
            bytes@[open as int] == LBRACKET,
            mid == old(out)@.push(LBRACKET),
            dlit_body(bytes@, i as int) == dlit_body(bytes@, open + 1),
            out@ + dlit_body_out(bytes@, i as int) == mid + dlit_body_out(bytes@, open + 1),
        decreases len - i,
    {
        let ghost before = out@;
        let j = fws_scan(bytes, i);
        if j > i {
            out.push(SP);
        }
        if j < len && is_dtext(bytes[j]) {
            out.push(bytes[j]);
            assert(out@ + dlit_body_out(bytes@, j + 1) =~= before + dlit_body_out(bytes@, i as int));
            i = j + 1;
        } else if j < len && bytes[j] == BACKSLASH {
            if j + 1 >= len {
                return Err(Error::new(ErrorKind::Eof));
            }
            let d = bytes[j + 1];
            if d >= DEL {
                return Err(Error::new(ErrorKind::Token { token: Token::Domain, byte: d, position: j + 1 }));
            }
            out.push(d);
            assert(out@ + dlit_body_out(bytes@, j + 2) =~= before + dlit_body_out(bytes@, i as int));
            i = j + 2;
        } else {
            if j >= len {
                return Err(Error::new(ErrorKind::Eof));
            }
            if bytes[j] != RBRACKET {
                return Err(Error::new(ErrorKind::Token { token: Token::Domain, byte: bytes[j], position: j }));
            }
            let ghost space: Seq<u8> = if j > i { seq![SP] } else { Seq::empty() };
            assert(dlit_body_out(bytes@, i as int) == space);
            assert(out@ == before + space);
            assert(mid + dlit_body_out(bytes@, open + 1) == before + space);
            out.push(RBRACKET);
            assert(out@ =~= old(out)@ + domain_literal_out(bytes@, start as int));
            return Ok(cfws_scan(bytes, j + 1));
        }
    }
}

/// Appends what the domain at `start` stands for and returns its end. Where there is none,
/// what was appended is unspecified.
fn domain_into(bytes: &[u8], start: usize, out: &mut Vec<u8>) -> (r: Result<usize, Error>)
    requires
        start <= bytes@.len(),
    ensures
        ended(r) == domain_at(bytes@, start as int),
        r matches Ok(e) ==> start < e <= bytes@.len(),
        r is Ok ==> final(out)@ == old(out)@ + domain_out(bytes@, start as int),
{
    match dot_atom_into(bytes, start, out) {
        Ok(e) => Ok(e),
        Err(dot_atom_error) => {
            let mut e = domain_literal_into(bytes, start, out);
            if let Err(literal_error) = &mut e {
                literal_error.set_cause(dot_atom_error);
            }
            e
        },
    }
}

/// Appends what the local part at `start` stands for and returns its end. Where there is none,
/// what was appended is unspecified.
fn local_part_into(bytes: &[u8], start: usize, out: &mut Vec<u8>) -> (r: Result<usize, Error>)
    requires
        start <= bytes@.len(),
    ensures
        ended(r) == local_part_at(bytes@, start as int),
        r matches Ok(e) ==> start < e <= bytes@.len(),
        r is Ok ==> final(out)@ == old(out)@ + local_part_out(bytes@, start as int),
{
    match dot_atom_into(bytes, start, out) {
        Ok(e) => Ok(e),
        Err(dot_atom_error) => {
            let mut e = quoted_string_into(bytes, start, out);
            if let Err(qs_error) = &mut e {
                qs_error.set_cause(dot_atom_error);
            }
            e
        },
    }
}

proof fn lemma_dot_atom_text_to_end(s: Seq<u8>, p: int, k: int, i: int)
    requires
        is_dot_atom_text(s, p, k),
        p <= i <= k,
    ensures
        dot_atom_text_end(s, i) == k,
    decreases k - i,
{
    if i < k {
        if atext(s[i]) {
            lemma_dot_atom_text_to_end(s, p, k, i + 1);
        } else {
            lemma_dot_atom_text_to_end(s, p, k, i + 2);
        }
    }
}

/// Inside a dot-atom-text, the atom at an atext byte `q` is the run of atext up to the next dot
/// or the end of the dot-atom-text.
proof fn lemma_atom_in_dot_atom_text(s: Seq<u8>, p: int, k: int, q: int)
    requires
        is_dot_atom_text(s, p, k),
        p <= q < k,
        atext(s[q]),
    ensures
        q < atext_end(s, q) <= k,
        atext_end(s, q) == k || s[atext_end(s, q)] == DOT,
        word_at(s, q) == Ok::<int, ErrorKind>(atext_end(s, q)),
        word_out(s, q) == s.subrange(q, atext_end(s, q)),
    decreases k - q,
{
    assert(atext_end(s, q) == atext_end(s, q + 1));
    if q + 1 < k && atext(s[q + 1]) {
        lemma_atom_in_dot_atom_text(s, p, k, q + 1);
    } else {
        assert(atext_end(s, q + 1) == q + 1);
    }
    let e = atext_end(s, q);
    lemma_cfws_end_none(s, q);
    lemma_cfws_end_none(s, e);
}

proof fn lemma_words_rest_to_end(s: Seq<u8>, p: int, k: int, j: int)
    requires
        is_dot_atom_text(s, p, k),
        p < j <= k,
        j == k || s[j] == DOT,
    ensures
        words_rest(s, j) == k,
        words_rest_out(s, j) == s.subrange(j, k),
    decreases k - j,
{
    if j < k {
        lemma_atom_in_dot_atom_text(s, p, k, j + 1);
        let e = atext_end(s, j + 1);
        lemma_words_rest_to_end(s, p, k, e);
        assert(seq![DOT] + s.subrange(j + 1, e) + s.subrange(e, k) =~= s.subrange(j, k));
    } else {
        assert(s.subrange(j, k) =~= Seq::<u8>::empty());
    }
}

/// The strict and the obsolete forms of a local part agree where they can: on a local part that
/// is a plain `dot-atom-text` (`foo.bar`, and what follows it cannot continue it, as in
/// `foo.bar@example.com`), both read the same bytes and both stand for the dot-atom-text itself.
pub proof fn strict_and_obsolete_local_parts_agree(s: Seq<u8>, p: int, k: int)
    requires
        is_dot_atom_text(s, p, k),
    ensures
        local_part_at(s, p) == Ok::<int, ErrorKind>(k),
        obs_local_part_at(s, p) == Ok::<int, ErrorKind>(k),
        local_part_out(s, p) == s.subrange(p, k),
        obs_local_part_out(s, p) == local_part_out(s, p),
{
    lemma_cfws_end_none(s, p);
    lemma_dot_atom_text_to_end(s, p, k, p);
    lemma_cfws_end_none(s, k);
    lemma_atom_in_dot_atom_text(s, p, k, p);
    let e = atext_end(s, p);
    lemma_words_rest_to_end(s, p, k, e);
    assert(s.subrange(p, e) + s.subrange(e, k) =~= s.subrange(p, k));
}

proof fn lemma_dlit_body_run(s: Seq<u8>, i: int, k: int)
    requires
        0 <= i <= k < s.len(),
        forall|m: int| i <= m < k ==> dtext(#[trigger] s[m]),
        s[k] == RBRACKET,
    ensures
        dlit_body(s, i) == Ok::<int, ErrorKind>(k),
        dlit_body_out(s, i) == s.subrange(i, k),
    decreases k - i,
{
    lemma_fws_end_wsp_run(s, i, i);
    if i < k {
        lemma_dlit_body_run(s, i + 1, k);
        assert(seq![s[i]] + s.subrange(i + 1, k) =~= s.subrange(i, k));
    } else {
        assert(s.subrange(i, k) =~= Seq::<u8>::empty());
    }
}

/// A domain literal without white space or quoted pairs stands for itself: for `dtext` bytes
/// `d`, reading `"[" d "]"` takes all of it and writes it back unchanged, brackets included.
pub proof fn domain_literal_round_trip(d: Seq<u8>)
    requires
        forall|k: int| 0 <= k < d.len() ==> dtext(#[trigger] d[k]),
    ensures
        domain_literal_at(seq![LBRACKET] + d + seq![RBRACKET], 0) == Ok::<int, ErrorKind>(
            (d.len() + 2) as int,
        ),
        domain_literal_out(seq![LBRACKET] + d + seq![RBRACKET], 0) == seq![LBRACKET] + d
            + seq![RBRACKET],
{
    let s = seq![LBRACKET] + d + seq![RBRACKET];
    let k = (d.len() + 1) as int;
    assert(s[0] == LBRACKET);
    lemma_cfws_end_none(s, 0);
    assert forall|m: int| 1 <= m < k implies dtext(#[trigger] s[m]) by {
        assert(s[m] == d[m - 1]);
    }
    assert(s[k] == RBRACKET);
    lemma_dlit_body_run(s, 1, k);
    lemma_cfws_end_none(s, s.len() as int);
    assert(s.subrange(1, k) =~= d);
}

/// Reads a domain literal, RFC5322 section 3.4.1, and appends it to `out`:
///
/// ```text
/// domain-literal = [CFWS] "[" *([FWS] dtext) [FWS] "]" [CFWS]
/// dtext          = %d33-90 / %d94-126 / obs-dtext
/// obs-dtext      = obs-NO-WS-CTL / quoted-pair
/// ```
///
/// Unlike the other tokens, the brackets are part of the value and are written. Inside them
/// each FWS is written as one space, and each quoted pair as the byte it escapes. Returns the
/// number of bytes read.
pub fn parse_domain_literal(input: &Buffer, out: &mut Vec<u8>) -> (r: Result<usize, Error>)
    ensures
        outcome(r) == consumed(domain_literal_at(input.bytes(), input.pos()), input.pos()),
        r is Ok ==> final(out)@ == old(out)@ + domain_literal_out(input.bytes(), input.pos()),
        r is Err ==> final(out)@ == old(out)@,
{
    let bytes = input.into_inner();
    let pos = input.position();
    let mut staged: Vec<u8> = Vec::new();
    let e = domain_literal_into(bytes, pos, &mut staged)?;
    out.append(&mut staged);
    Ok(e - pos)
}

/// Reads a domain, RFC5322 section 3.4.1, and appends what it stands for to `out`:
///
/// ```text
/// domain = dot-atom / domain-literal
/// ```
///
/// A domain literal is tried where no dot-atom stands. Returns the number of bytes read.
pub fn parse_domain(input: &Buffer, out: &mut Vec<u8>) -> (r: Result<usize, Error>)
    ensures
        outcome(r) == consumed(domain_at(input.bytes(), input.pos()), input.pos()),
        r is Ok ==> final(out)@ == old(out)@ + domain_out(input.bytes(), input.pos()),
        r is Err ==> final(out)@ == old(out)@,
{
    let bytes = input.into_inner();
    let pos = input.position();
    let mut staged: Vec<u8> = Vec::new();
    let e = domain_into(bytes, pos, &mut staged)?;
    out.append(&mut staged);
    Ok(e - pos)
}

/// Reads a domain in the obsolete form, RFC5322 section 4.4, and appends what it stands for to
/// `out`: the atoms, joined by dots.
///
/// ```text
/// obs-domain = atom *("." atom)
/// ```
///
/// Returns the number of bytes read.
pub fn parse_obsolete_domain(input: &Buffer, out: &mut Vec<u8>) -> (r: Result<usize, Error>)
    ensures
        outcome(r) == consumed(obs_domain_at(input.bytes(), input.pos()), input.pos()),
        r is Ok ==> final(out)@ == old(out)@ + obs_domain_out(input.bytes(), input.pos()),
        r is Err ==> final(out)@ == old(out)@,
{
    let bytes = input.into_inner();
    let pos = input.position();
    let len = bytes.len();
    let mut staged: Vec<u8> = Vec::new();
    let first = atom_into(bytes, pos, &mut staged)?;
    let ghost mid = staged@;
    let mut i = first;
    loop
        invariant
            len == bytes@.len(),
            pos < first <= i <= len,
            atom_at(bytes@, pos as int) == Ok::<int, ErrorKind>(first as int),
            mid == atom_out(bytes@, pos as int),
            atoms_rest(bytes@, i as int) == atoms_rest(bytes@, first as int),
            staged@ + atoms_rest_out(bytes@, i as int) == mid + atoms_rest_out(bytes@, first as int),
        ensures
            pos < first <= i <= len,
            atom_at(bytes@, pos as int) == Ok::<int, ErrorKind>(first as int),
            atoms_rest(bytes@, first as int) == i,
            staged@ == atom_out(bytes@, pos as int) + atoms_rest_out(bytes@, first as int),
        decreases len - i,
    {
        if i < len && bytes[i] == DOT {
            let ghost before = staged@;
            let mut atom: Vec<u8> = Vec::new();
            match atom_into(bytes, i + 1, &mut atom) {
                Ok(e) => {
                    staged.push(DOT);
                    staged.append(&mut atom);
                    assert(staged@ + atoms_rest_out(bytes@, e as int) =~= before + atoms_rest_out(bytes@, i as int));
                    i = e;
                },
                Err(_) => {
                    // the dot belongs to what follows the domain
                    break;
                },
            }
        } else {
            break;
        }
    }
    assert(staged@ =~= obs_domain_out(bytes@, pos as int));
    out.append(&mut staged);
    Ok(i - pos)
}

/// Reads a local part, RFC5322 section 3.4.1, and appends what it stands for to `out`:
///
/// ```text
/// local-part = dot-atom / quoted-string
/// ```
///
/// A quoted string is tried where no dot-atom stands. Returns the number of bytes read.
pub fn parse_local_part(input: &Buffer, out: &mut Vec<u8>) -> (r: Result<usize, Error>)
    ensures
        outcome(r) == consumed(local_part_at(input.bytes(), input.pos()), input.pos()),
        r is Ok ==> final(out)@ == old(out)@ + local_part_out(input.bytes(), input.pos()),
        r is Err ==> final(out)@ == old(out)@,
{
    let bytes = input.into_inner();
    let pos = input.position();
    let mut staged: Vec<u8> = Vec::new();
    let e = local_part_into(bytes, pos, &mut staged)?;
    out.append(&mut staged);
    Ok(e - pos)
}

/// Reads a local part in the obsolete form, RFC5322 section 4.4, and appends what it stands for
/// to `out`: the words, joined by dots.
///
/// ```text
/// obs-local-part = word *("." word)
/// ```
///
/// This form is laxer than [`parse_local_part`]: it takes atoms and quoted strings mixed
/// (`atom."string".atom`), and comments and white space around the dots. Returns the number of
/// bytes read.
pub fn parse_obsolete_local_part(input: &Buffer, out: &mut Vec<u8>) -> (r: Result<usize, Error>)
    ensures
        outcome(r) == consumed(obs_local_part_at(input.bytes(), input.pos()), input.pos()),
        r is Ok ==> final(out)@ == old(out)@ + obs_local_part_out(input.bytes(), input.pos()),
        r is Err ==> final(out)@ == old(out)@,
{
    let bytes = input.into_inner();
    let pos = input.position();
    let len = bytes.len();
    let mut staged: Vec<u8> = Vec::new();
    let first = word_into(bytes, pos, &mut staged)?;
    let ghost mid = staged@;
    let mut i = first;
    loop
        invariant
            len == bytes@.len(),
            pos < first <= i <= len,
            word_at(bytes@, pos as int) == Ok::<int, ErrorKind>(first as int),
            mid == word_out(bytes@, pos as int),
            words_rest(bytes@, i as int) == words_rest(bytes@, first as int),
            staged@ + words_rest_out(bytes@, i as int) == mid + words_rest_out(bytes@, first as int),
        ensures
            pos < first <= i <= len,
            word_at(bytes@, pos as int) == Ok::<int, ErrorKind>(first as int),
            words_rest(bytes@, first as int) == i,
            staged@ == word_out(bytes@, pos as int) + words_rest_out(bytes@, first as int),
        decreases len - i,
    {
        if i < len && bytes[i] == DOT {
            let ghost before = staged@;
            let mut word: Vec<u8> = Vec::new();
            match word_into(bytes, i + 1, &mut word) {
                Ok(e) => {
                    staged.push(DOT);
                    staged.append(&mut word);
                    assert(staged@ + words_rest_out(bytes@, e as int) =~= before + words_rest_out(bytes@, i as int));
                    i = e;
                },
                Err(_) => {
                    // the dot belongs to what follows the local part
                    break;
                },
            }
        } else {
            break;
        }
    }
    assert(staged@ =~= obs_local_part_out(bytes@, pos as int));
    out.append(&mut staged);
    Ok(i - pos)
}

impl Address {
    /// Reads an address, RFC5322 section 3.4.1: `addr-spec = local-part "@" domain`. Returns
    /// the address and the number of bytes read.
    pub fn parse(input: &Buffer) -> (r: Result<(Address, usize), Error>)
        ensures
            match r {
                Ok((a, n)) => {
                    let s = input.bytes();
                    let p = input.pos();
                    let l = local_part_at(s, p)->Ok_0;
                    &&& address_at(s, p) == Ok::<int, ErrorKind>(p + n)
                    &&& a@.0 == local_part_out(s, p)
                    &&& a@.1 == domain_out(s, l + 1)
                },
                Err(e) => address_at(input.bytes(), input.pos()) == Err::<int, ErrorKind>(e@),
            },
    {
        let bytes = input.into_inner();
        let pos = input.position();
        let mut local_part: Vec<u8> = Vec::new();
        let l = local_part_into(bytes, pos, &mut local_part)?;
        if l >= bytes.len() {
            return Err(Error::new(ErrorKind::Eof));
        }
        if bytes[l] != AT {
            return Err(Error::new(ErrorKind::Token { token: Token::Address, byte: bytes[l], position: l }));
        }
        let mut domain: Vec<u8> = Vec::new();
        let e = domain_into(bytes, l + 1, &mut domain)?;
        Ok((Address { local_part, domain }, e - pos))
    }

    /// What the local part stands for.
    pub fn local_part(&self) -> (r: &[u8])
        ensures
            r@ == self@.0,
    {
        self.local_part.as_slice()
    }

    /// What the domain stands for.
    pub fn domain(&self) -> (r: &[u8])
        ensures
            r@ == self@.1,
    {
        self.domain.as_slice()
    }
}

} // verus!
