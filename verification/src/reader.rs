//! In-memory byte stream that records are read from.
//!
//! A reader holds the whole stream and a cursor. Reads only ever move the
//! cursor forward; the bytes themselves never change, so every contract of
//! the record layer can speak of one fixed byte sequence and a position in
//! it.

use vstd::prelude::*;

verus! {

/// A forward-only cursor over a byte stream held in memory.
pub struct ByteReader {
    buf: Vec<u8>,
    pos: usize,
}

impl ByteReader {
    /// The whole underlying stream.
    pub closed spec fn spec_buf(&self) -> Seq<u8> {
        self.buf@
    }

    /// The cursor: how many bytes have been consumed.
    pub closed spec fn spec_pos(&self) -> int {
        self.pos as int
    }

    /// The cursor never passes the end of the stream, and is itself a
    /// machine-word index.
    #[verifier::type_invariant]
    pub open spec fn wf(&self) -> bool {
        0 <= self.spec_pos() <= self.spec_buf().len() && self.spec_pos() <= usize::MAX
    }

    /// Start reading `data` from its beginning.
    pub fn new(data: Vec<u8>) -> (r: ByteReader)
        ensures
            r.spec_buf() == data@,
            r.spec_pos() == 0,
    {
        ByteReader { buf: data, pos: 0 }
    }

    /// How many bytes are left in front of the cursor.
    pub fn remaining(&self) -> (n: usize)
        ensures
            n == self.spec_buf().len() - self.spec_pos(),
    {
        proof {
            use_type_invariant(self);
        }
        self.buf.len() - self.pos
    }

    /// Consume and return the next byte, or `None` at the end of the stream.
    pub fn read_byte(&mut self) -> (r: Option<u8>)
        ensures
            final(self).wf(),
            final(self).spec_buf() == old(self).spec_buf(),
            old(self).spec_pos() < old(self).spec_buf().len() ==> (
                r == Some(old(self).spec_buf()[old(self).spec_pos()])
                && final(self).spec_pos() == old(self).spec_pos() + 1
            ),
            old(self).spec_pos() >= old(self).spec_buf().len() ==> (
                r is None
                && final(self).spec_pos() == old(self).spec_pos()
            ),
    {
        proof {
            use_type_invariant(&*self);
        }
        if self.pos < self.buf.len() {
            let b = self.buf[self.pos];
            self.pos = self.pos + 1;
            Some(b)
        } else {
            None
        }
    }

    /// Consume exactly `n` bytes and return them, or `None` (consuming
    /// nothing) when fewer than `n` remain.
    pub fn read_exact_vec(&mut self, n: usize) -> (r: Option<Vec<u8>>)
        ensures
            final(self).wf(),
            final(self).spec_buf() == old(self).spec_buf(),
            old(self).spec_pos() + n <= old(self).spec_buf().len() ==> (
                r matches Some(v)
                && v@ == old(self).spec_buf().subrange(
                    old(self).spec_pos(),
                    old(self).spec_pos() + n,
                )
                && final(self).spec_pos() == old(self).spec_pos() + n
            ),
            old(self).spec_pos() + n > old(self).spec_buf().len() ==> (
                r is None
                && final(self).spec_pos() == old(self).spec_pos()
            ),
    {
        proof {
            use_type_invariant(&*self);
        }
        if n > self.buf.len() - self.pos {
            return None;
        }
        let mut out: Vec<u8> = Vec::new();
        let mut i: usize = 0;
        while i < n
            invariant
                i <= n,
                self.pos + n <= self.buf.len(),
                out@ == self.buf@.subrange(self.pos as int, self.pos + i),
            decreases n - i,
        {
            out.push(self.buf[self.pos + i]);
            i = i + 1;
            proof {
                assert(out@ == self.buf@.subrange(self.pos as int, self.pos + i));
            }
        }
        self.pos = self.pos + n;
        Some(out)
    }
}

} // verus!
