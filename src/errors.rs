use vstd::prelude::*;

verus! {

/// The grammar productions named in error diagnostics (RFC5322).
#[derive(Clone, Copy, Debug, PartialEq, Eq, Hash, Structural)]
pub enum Token {
    /// `FWS = (1*WSP *(CRLF 1*WSP)) / 1*(CRLF 1*WSP)`
    Fws,
    /// `CFWS = *([FWS] comment) (([FWS] comment) / FWS)`
    Cfws,
    /// `comment = "(" *([FWS] ccontent) [FWS] ")"`
    Comment,
    /// `quoted-pair = "\" %d0-127`
    QuotedPair,
    /// `quoted-string = [CFWS] DQUOTE *([FWS] qcontent) [FWS] DQUOTE [CFWS]`
    QuotedString,
    /// Printable US-ASCII characters not including `\`, `"`, or space, and the obsolete
    /// control characters.
    QuotedText,
    /// `addr-spec = local-part "@" domain`
    Address,
    /// `domain = dot-atom / domain-literal / obs-domain`
    Domain,
    /// `atom = [CFWS] 1*atext [CFWS]`
    Atom,
    /// `dot-atom = [CFWS] 1*atext *("." 1*atext) [CFWS]`
    DotAtom,
    /// `atext = ALPHA / DIGIT / "!" / "#" / ... / "~"`
    Atext,
    /// `word = atom / quoted-string`
    Word,
}

/// What went wrong.
#[derive(Clone, Copy, Debug, PartialEq, Eq, Structural)]
pub enum ErrorKind {
    /// The input ended while a construct still required more bytes.
    Eof,
    /// A byte does not fit the grammar.
    Token {
        /// the production that could not be parsed
        token: Token,
        /// the byte that does not fit
        byte: u8,
        /// the absolute position of that byte in the input
        position: usize,
    },
}

/// A parse failure, with the failure that made an enclosing production give up, if any.
#[derive(Debug)]
pub struct Error {
    kind: ErrorKind,
    cause: Option<Box<Error>>,
}

impl View for Error {
    type V = ErrorKind;

    closed spec fn view(&self) -> ErrorKind {
        self.kind
    }
}

/// The meaning of a parser's result: the number of bytes consumed, or the kind of error.
pub open spec fn outcome(r: Result<usize, Error>) -> Result<nat, ErrorKind> {
    match r {
        Ok(n) => Ok(n as nat),
        Err(e) => Err(e@),
    }
}

/// The meaning of a scan's result: the position where it stopped, or the kind of error.
pub open spec fn ended(r: Result<usize, Error>) -> Result<int, ErrorKind> {
    match r {
        Ok(e) => Ok(e as int),
        Err(e) => Err(e@),
    }
}

/// A scan from `p` that ends at a position, seen as the number of bytes it consumed.
pub open spec fn consumed(r: Result<int, ErrorKind>, p: int) -> Result<nat, ErrorKind> {
    match r {
        Ok(e) => Ok((e - p) as nat),
        Err(k) => Err(k),
    }
}

/// The error raised at position `i` of `s` for production `t`.
pub open spec fn token_error(t: Token, s: Seq<u8>, i: int) -> ErrorKind {
    ErrorKind::Token { token: t, byte: s[i], position: i as usize }
}

impl Error {
    /// The kind of the failure that caused this one, if one was recorded.
    pub closed spec fn caused_by(&self) -> Option<ErrorKind> {
        match self.cause {
            Some(b) => Some(b.kind),
            None => None,
        }
    }

    pub fn new(kind: ErrorKind) -> (r: Error)
        ensures
            r@ == kind,
            r.caused_by() is None,
    {
        Error { kind, cause: None }
    }

    /// Records the failure that caused this one.
    pub fn set_cause(&mut self, error: Error)
        ensures
            final(self)@ == old(self)@,
            final(self).caused_by() == Some(error@),
    {
        self.cause = Some(Box::new(error));
    }

    /// The failure that caused this one, if one was recorded.
    pub fn cause(&self) -> (r: Option<&Error>)
        ensures
            match r {
                Some(c) => self.caused_by() == Some(c@),
                None => self.caused_by() is None,
            },
    {
        match &self.cause {
            Some(b) => Some(&**b),
            None => None,
        }
    }

    pub fn kind(&self) -> (r: &ErrorKind)
        ensures
            *r == self@,
    {
        &self.kind
    }

    pub fn is_token(&self) -> (r: bool)
        ensures
            r == (self@ is Token),
    {
        match self.kind {
            ErrorKind::Token { .. } => true,
            _ => false,
        }
    }

    pub fn is_eof(&self) -> (r: bool)
        ensures
            r == (self@ is Eof),
    {
        match self.kind {
            ErrorKind::Eof => true,
            _ => false,
        }
    }
}

} // verus!
