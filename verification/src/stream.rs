//! An in-memory byte stream with a read cursor: the sequential,
//! byte-addressable source the decoder consumes. Reading never looks past
//! the cursor's window, and a short read reports truncation without
//! consuming anything.

use crate::DecodeError;
use vstd::prelude::*;

verus! {

/// What one fixed-size read request against a stream produced: either
/// exactly the requested bytes, or the end of the stream reached while
/// only the reported number of bytes — fewer than requested — were still
/// available. Reporting that count is what lets a decoder tell a clean
/// end of input (nothing was available) from a truncated field.
pub enum ReadOutcome {
    Bytes(Vec<u8>),
    End(usize),
}

/// A byte stream backed by a buffer, read strictly left to right.
pub struct ByteStream {
    data: Vec<u8>,
    pos: usize,
}

impl ByteStream {
    /// The whole underlying byte sequence.
    pub closed spec fn bytes(&self) -> Seq<u8> {
        self.data@
    }

    /// The current read position.
    pub closed spec fn cursor(&self) -> int {
        self.pos as int
    }

    /// The cursor never sits past the end of the buffer.
    pub open spec fn wf(&self) -> bool {
        0 <= self.cursor() <= self.bytes().len()
    }

    /// Wraps a buffer as a stream positioned at its first byte.
    pub fn new(data: Vec<u8>) -> (s: Self)
        ensures
            s.wf(),
            s.bytes() == data@,
            s.cursor() == 0,
    {
        ByteStream { data, pos: 0 }
    }

    /// The current read position, for callers tracking progress.
    pub fn position(&self) -> (p: usize)
        ensures
            p as int == self.cursor(),
    {
        self.pos
    }

    /// Whether the cursor sits exactly at the end of the stream.
    pub fn at_end(&self) -> (r: bool)
        requires
            self.wf(),
        ensures
            r <==> self.cursor() == self.bytes().len(),
    {
        self.pos == self.data.len()
    }

    /// How many bytes are left to read.
    pub fn remaining(&self) -> (n: usize)
        requires
            self.wf(),
        ensures
            n as int == self.bytes().len() - self.cursor(),
    {
        self.data.len() - self.pos
    }

    /// Reads exactly `n` bytes, advancing the cursor past them; if fewer
    /// than `n` bytes are left the stream is truncated at this field and
    /// nothing is consumed.
    pub fn read_exact(&mut self, n: usize) -> (r: Result<Vec<u8>, DecodeError>)
        requires
            old(self).wf(),
        ensures
            final(self).wf(),
            final(self).bytes() == old(self).bytes(),
            old(self).cursor() + n as int <= old(self).bytes().len() ==> {
                &&& r matches Ok(v) && v@ == old(self).bytes().subrange(
                    old(self).cursor(),
                    old(self).cursor() + n as int,
                )
                &&& final(self).cursor() == old(self).cursor() + n as int
            },
            old(self).cursor() + n as int > old(self).bytes().len() ==> {
                &&& r matches Err(e) && e == DecodeError::TruncatedStream
                &&& final(self).cursor() == old(self).cursor()
            },
    {
        if n > self.data.len() - self.pos {
            return Err(DecodeError::TruncatedStream);
        }
        let mut v: Vec<u8> = Vec::new();
        let mut i: usize = 0;
        while i < n
            invariant
                old(self).wf(),
                self.data@ == old(self).bytes(),
                self.pos == old(self).cursor(),
                i <= n,
                self.pos + n <= self.data@.len(),
                v@ == self.data@.subrange(self.pos as int, self.pos + i),
            decreases n - i,
        {
            proof {
                assert(self.data.len() == self.data@.len());
                assert(self.pos + i < self.data@.len());
            }
            v.push(self.data[self.pos + i]);
            proof {
                assert(v@ =~= self.data@.subrange(self.pos as int, self.pos + i + 1));
            }
            i = i + 1;
        }
        self.pos = self.pos + n;
        Ok(v)
    }

    /// Requests exactly `n` bytes: consumes and returns them when they
    /// are there, and otherwise reports how many bytes short of `n` the
    /// stream ends, consuming nothing.
    pub fn read_request(&mut self, n: usize) -> (r: ReadOutcome)
        requires
            old(self).wf(),
        ensures
            final(self).wf(),
            final(self).bytes() == old(self).bytes(),
            old(self).cursor() + n as int <= old(self).bytes().len() ==> {
                &&& r matches ReadOutcome::Bytes(v) && v@ == old(self).bytes().subrange(
                    old(self).cursor(),
                    old(self).cursor() + n as int,
                )
                &&& final(self).cursor() == old(self).cursor() + n as int
            },
            old(self).cursor() + n as int > old(self).bytes().len() ==> {
                &&& r matches ReadOutcome::End(k) && k as int == old(self).bytes().len() - old(
                    self,
                ).cursor()
                &&& final(self).cursor() == old(self).cursor()
            },
    {
        let left: usize = self.remaining();
        if n > left {
            return ReadOutcome::End(left);
        }
        match self.read_exact(n) {
            Ok(v) => ReadOutcome::Bytes(v),
            Err(_) => {
                // unreachable: the length was checked just above
                proof {
                    assert(false);
                }
                ReadOutcome::End(left)
            },
        }
    }

    /// Advances the cursor over `n` bytes without looking at them: how a
    /// caller skips the blob payload that follows a record header. If
    /// fewer than `n` bytes are left the stream is truncated and nothing
    /// is consumed.
    pub fn skip(&mut self, n: u64) -> (r: Result<(), DecodeError>)
        requires
            old(self).wf(),
        ensures
            final(self).wf(),
            final(self).bytes() == old(self).bytes(),
            old(self).cursor() + n as int <= old(self).bytes().len() ==> {
                &&& r == Ok::<(), DecodeError>(())
                &&& final(self).cursor() == old(self).cursor() + n as int
            },
            old(self).cursor() + n as int > old(self).bytes().len() ==> {
                &&& r == Err::<(), DecodeError>(DecodeError::TruncatedStream)
                &&& final(self).cursor() == old(self).cursor()
            },
    {
        let left: usize = self.data.len() - self.pos;
        if n > left as u64 {
            return Err(DecodeError::TruncatedStream);
        }
        self.pos = self.pos + n as usize;
        Ok(())
    }
}

} // verus!
