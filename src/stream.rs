use vstd::prelude::*;

use crate::error::AdtsError;

verus! {

/// A seekable, readable byte source held in memory.
///
/// The read position may stand past the end of the bytes, as a file position may;
/// a read from there fails.
pub struct ByteStream {
    data: Vec<u8>,
    pos: usize,
}

impl ByteStream {
    /// The bytes of the stream.
    pub closed spec fn contents(&self) -> Seq<u8> {
        self.data@
    }

    /// The current read position.
    pub closed spec fn cursor(&self) -> usize {
        self.pos
    }

    /// A stream over `data`, positioned at its first byte.
    pub fn new(data: Vec<u8>) -> (s: Self)
        ensures
            s.contents() == data@,
            s.cursor() == 0,
    {
        ByteStream { data, pos: 0 }
    }

    /// The current read position.
    pub fn position(&self) -> (r: usize)
        ensures
            r == self.cursor(),
    {
        self.pos
    }

    /// The number of bytes in the stream.
    pub fn len(&self) -> (r: usize)
        ensures
            r == self.contents().len(),
    {
        self.data.len()
    }

    /// Reads exactly `n` bytes from the current position and moves past them.
    /// Fails with `IoFailure`, leaving the position unchanged, when fewer than `n` remain.
    pub fn read_exact(&mut self, n: usize) -> (r: Result<Vec<u8>, AdtsError>)
        ensures
            final(self).contents() == old(self).contents(),
            old(self).cursor() + n <= old(self).contents().len() ==> {
                &&& r is Ok
                &&& r->Ok_0@ == old(self).contents().subrange(
                    old(self).cursor() as int,
                    old(self).cursor() + n,
                )
                &&& final(self).cursor() == old(self).cursor() + n
            },
            old(self).cursor() + n > old(self).contents().len() ==> {
                &&& r == Err::<Vec<u8>, AdtsError>(AdtsError::IoFailure)
                &&& final(self).cursor() == old(self).cursor()
            },
    {
        if self.pos > self.data.len() || n > self.data.len() - self.pos {
            return Err(AdtsError::IoFailure);
        }
        let start = self.pos;
        let mut out: Vec<u8> = Vec::new();
        let mut i: usize = 0;
        while i < n
            invariant
                start + n <= self.data@.len(),
                start + n <= usize::MAX,
                i <= n,
                out@ == self.data@.subrange(start as int, start + i),
            decreases n - i,
        {
            out.push(self.data[start + i]);
            i = i + 1;
            assert(out@ =~= self.data@.subrange(start as int, start + i));
        }
        self.pos = start + n;
        Ok(out)
    }

    /// Moves the position to `pos`, which may lie past the end, and returns it.
    pub fn seek_to(&mut self, pos: usize) -> (r: usize)
        ensures
            final(self).contents() == old(self).contents(),
            final(self).cursor() == pos,
            r == pos,
    {
        self.pos = pos;
        pos
    }

    /// Moves the position by `delta` bytes, forwards or backwards, and returns the new position.
    /// Fails with `IoFailure`, leaving the position unchanged, when the target is negative or
    /// does not fit a `usize`.
    pub fn seek_relative(&mut self, delta: i64) -> (r: Result<usize, AdtsError>)
        ensures
            final(self).contents() == old(self).contents(),
            0 <= old(self).cursor() + delta <= usize::MAX ==> {
                &&& r == Ok::<usize, AdtsError>((old(self).cursor() + delta) as usize)
                &&& final(self).cursor() == old(self).cursor() + delta
            },
            !(0 <= old(self).cursor() + delta <= usize::MAX) ==> {
                &&& r == Err::<usize, AdtsError>(AdtsError::IoFailure)
                &&& final(self).cursor() == old(self).cursor()
            },
    {
        let target: i128 = self.pos as i128 + delta as i128;
        if target < 0 || target > usize::MAX as i128 {
            return Err(AdtsError::IoFailure);
        }
        self.pos = target as usize;
        Ok(self.pos)
    }
}

} // verus!
