use vstd::prelude::*;
use vstd::slice::slice_subrange;

use crate::errors::{Error, ErrorKind};

verus! {

/// A read position over an immutable byte sequence. Copying a buffer copies the position and
/// shares the bytes, which is how a parser saves a place to come back to.
#[derive(Clone, Copy)]
pub struct Buffer<'buf> {
    inner: &'buf [u8],
    position: usize,
}

impl<'buf> Buffer<'buf> {
    /// The whole input.
    pub closed spec fn bytes(&self) -> Seq<u8> {
        self.inner@
    }

    /// The offset of the next byte to read.
    pub closed spec fn pos(&self) -> int {
        self.position as int
    }

    #[verifier::type_invariant]
    spec fn inv(&self) -> bool {
        self.position <= self.inner@.len()
    }

    pub fn new(buf: &'buf [u8]) -> (r: Self)
        ensures
            r.bytes() == buf@,
            r.pos() == 0,
    {
        Buffer { inner: buf, position: 0 }
    }

    pub fn with_offset(buf: &'buf [u8], offset: usize) -> (r: Self)
        requires
            offset <= buf@.len(),
        ensures
            r.bytes() == buf@,
            r.pos() == offset,
    {
        Buffer { inner: buf, position: offset }
    }

    /// Reads up to the first occurrence of `c`, which is left unread. Where `c` does not occur,
    /// fails with `Eof` and keeps the position.
    pub fn read_until(&mut self, c: u8) -> (r: Result<&'buf [u8], Error>)
        ensures
            final(self).bytes() == old(self).bytes(),
            match r {
                Ok(read) => {
                    &&& old(self).pos() <= final(self).pos() < old(self).bytes().len()
                    &&& old(self).bytes()[final(self).pos()] == c
                    &&& forall|k: int| old(self).pos() <= k < final(self).pos() ==> old(self).bytes()[k] != c
                    &&& read@ == old(self).bytes().subrange(old(self).pos(), final(self).pos())
                },
                Err(e) => {
                    &&& e@ == ErrorKind::Eof
                    &&& final(self).pos() == old(self).pos()
                    &&& forall|k: int| old(self).pos() <= k < old(self).bytes().len() ==> old(self).bytes()[k] != c
                },
            },
    {
        proof { use_type_invariant(&*self); }
        let inner = self.inner;
        let start = self.position;
        let mut i = self.position;
        while i < inner.len()
            invariant
                start <= i <= inner@.len(),
                self.inner == inner,
                self.position == start,
                *self == *old(self),
                forall|k: int| start <= k < i ==> inner@[k] != c,
            decreases inner@.len() - i,
        {
            if inner[i] == c {
                self.position = i;
                return Ok(slice_subrange(inner, start, i));
            }
            i += 1;
        }
        Err(Error::new(ErrorKind::Eof))
    }

    /// Reads while `f` holds of the next byte, and leaves the first byte where it does not. Where
    /// `f` holds up to the end, fails with `Eof` and keeps the position.
    pub fn read_while<F: Fn(u8) -> bool>(&mut self, f: F) -> (r: Result<&'buf [u8], Error>)
        requires
            forall|b: u8| f.requires((b,)),
        ensures
            final(self).bytes() == old(self).bytes(),
            match r {
                Ok(read) => {
                    &&& old(self).pos() <= final(self).pos() < old(self).bytes().len()
                    &&& f.ensures((old(self).bytes()[final(self).pos()],), false)
                    &&& forall|k: int| old(self).pos() <= k < final(self).pos() ==> f.ensures((old(self).bytes()[k],), true)
                    &&& read@ == old(self).bytes().subrange(old(self).pos(), final(self).pos())
                },
                Err(e) => {
                    &&& e@ == ErrorKind::Eof
                    &&& final(self).pos() == old(self).pos()
                    &&& forall|k: int| old(self).pos() <= k < old(self).bytes().len() ==> f.ensures((old(self).bytes()[k],), true)
                },
            },
    {
        proof { use_type_invariant(&*self); }
        let inner = self.inner;
        let start = self.position;
        let mut i = self.position;
        while i < inner.len()
            invariant
                start <= i <= inner@.len(),
                self.inner == inner,
                self.position == start,
                *self == *old(self),
                forall|b: u8| f.requires((b,)),
                forall|k: int| start <= k < i ==> f.ensures((inner@[k],), true),
            decreases inner@.len() - i,
        {
            if !f(inner[i]) {
                self.position = i;
                return Ok(slice_subrange(inner, start, i));
            }
            i += 1;
        }
        Err(Error::new(ErrorKind::Eof))
    }

    /// Reads one byte.
    pub fn read(&mut self) -> (r: Result<u8, Error>)
        ensures
            final(self).bytes() == old(self).bytes(),
            match r {
                Ok(c) => {
                    &&& old(self).pos() < old(self).bytes().len()
                    &&& c == old(self).bytes()[old(self).pos()]
                    &&& final(self).pos() == old(self).pos() + 1
                },
                Err(e) => {
                    &&& old(self).pos() == old(self).bytes().len()
                    &&& e@ == ErrorKind::Eof
                    &&& final(self).pos() == old(self).pos()
                },
            },
    {
        proof { use_type_invariant(&*self); }
        if self.position < self.inner.len() {
            let c = self.inner[self.position];
            self.position = self.position + 1;
            Ok(c)
        } else {
            Err(Error::new(ErrorKind::Eof))
        }
    }

    /// Reads the next `n` bytes, or fails with `Eof` where fewer are left.
    pub fn read_n(&mut self, n: usize) -> (r: Result<&'buf [u8], Error>)
        ensures
            final(self).bytes() == old(self).bytes(),
            match r {
                Ok(read) => {
                    &&& old(self).pos() + n <= old(self).bytes().len()
                    &&& final(self).pos() == old(self).pos() + n
                    &&& read@ == old(self).bytes().subrange(old(self).pos(), old(self).pos() + n)
                },
                Err(e) => {
                    &&& old(self).pos() + n > old(self).bytes().len()
                    &&& e@ == ErrorKind::Eof
                    &&& final(self).pos() == old(self).pos()
                },
            },
    {
        proof { use_type_invariant(&*self); }
        if n <= self.inner.len() - self.position {
            let start = self.position;
            self.position = start + n;
            Ok(slice_subrange(self.inner, start, start + n))
        } else {
            Err(Error::new(ErrorKind::Eof))
        }
    }

    /// The bytes not read yet.
    pub fn remaining(&self) -> (r: &'buf [u8])
        ensures
            r@ == self.bytes().subrange(self.pos(), self.bytes().len() as int),
    {
        proof { use_type_invariant(self); }
        slice_subrange(self.inner, self.position, self.inner.len())
    }

    pub fn set_position(&mut self, position: usize)
        requires
            position <= old(self).bytes().len(),
        ensures
            final(self).bytes() == old(self).bytes(),
            final(self).pos() == position,
    {
        self.position = position;
    }

    pub fn incr_position(&mut self, offset: usize)
        requires
            old(self).pos() + offset <= old(self).bytes().len(),
        ensures
            final(self).bytes() == old(self).bytes(),
            final(self).pos() == old(self).pos() + offset,
    {
        let len = self.inner.len();
        assert(self.position + offset <= len);
        self.position = self.position + offset;
    }

    pub fn position(&self) -> (r: usize)
        ensures
            r == self.pos(),
            r <= self.bytes().len(),
    {
        proof { use_type_invariant(self); }
        self.position
    }

    pub fn into_inner(self) -> (r: &'buf [u8])
        ensures
            r@ == self.bytes(),
    {
        self.inner
    }
}

} // verus!
