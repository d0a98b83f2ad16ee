use vstd::prelude::*;

use crate::error::AdtsError;
use crate::header::{peek_header, peek_spec, AdtsHeader};
use crate::scan::{locate_spec, seek_startcode};
use crate::stream::ByteStream;

verus! {

/// Walks an ADTS stream frame by frame, from one header to the next by each declared length.
pub struct FrameWalker {
    stream: ByteStream,
}

impl FrameWalker {
    /// The bytes being walked.
    pub closed spec fn contents(&self) -> Seq<u8> {
        self.stream.contents()
    }

    /// Where the next header is expected.
    pub closed spec fn cursor(&self) -> usize {
        self.stream.cursor()
    }

    /// Starts a walk of `data` at byte `offset`: scans once for the first synchronisation
    /// pattern at or after `offset` and returns the walker with the position it found.
    pub fn start(data: Vec<u8>, offset: usize) -> (r: Result<(FrameWalker, usize), AdtsError>)
        ensures
            match r {
                Ok((w, k)) => {
                    &&& locate_spec(data@, offset as int) == Some(k as int)
                    &&& w.contents() == data@
                    &&& w.cursor() == k
                },
                Err(e) => {
                    &&& e == AdtsError::IoFailure
                    &&& locate_spec(data@, offset as int) is None
                },
            },
    {
        let mut stream = ByteStream::new(data);
        stream.seek_to(offset);
        match seek_startcode(&mut stream) {
            Ok(k) => Ok((FrameWalker { stream }, k)),
            Err(e) => Err(e),
        }
    }

    /// Where the next header is expected.
    pub fn position(&self) -> (r: usize)
        ensures
            r == self.cursor(),
    {
        self.stream.position()
    }

    /// Decodes the header at the current position and moves to the next one, `frame_length`
    /// bytes on. Returns the position of the decoded header with the header.
    ///
    /// A header that does not decode ends the walk with its error and leaves the position where
    /// it was; so does a next position that does not fit a `usize`, with `IoFailure`.
    pub fn next_frame(&mut self) -> (r: Result<(usize, AdtsHeader), AdtsError>)
        ensures
            final(self).contents() == old(self).contents(),
            ({
                let p = old(self).cursor();
                let peeked = peek_spec(old(self).contents(), p as int);
                match peeked {
                    Ok(h) => if p + h.frame_length <= usize::MAX {
                        &&& r == Ok::<(usize, AdtsHeader), AdtsError>((p, h))
                        &&& final(self).cursor() == p + h.frame_length
                    } else {
                        &&& r == Err::<(usize, AdtsHeader), AdtsError>(AdtsError::IoFailure)
                        &&& final(self).cursor() == p
                    },
                    Err(e) => {
                        &&& r == Err::<(usize, AdtsHeader), AdtsError>(e)
                        &&& final(self).cursor() == p
                    },
                }
            }),
    {
        let p = self.stream.position();
        let h = match peek_header(&mut self.stream) {
            Ok(h) => h,
            Err(e) => return Err(e),
        };
        match self.stream.seek_relative(h.frame_length as i64) {
            Ok(_) => Ok((p, h)),
            Err(e) => Err(e),
        }
    }
}

} // verus!
