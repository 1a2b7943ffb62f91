//! Streaming CRC-32 validation of a byte source.
//!
//! `Crc32Reader` wraps a byte source and accumulates a CRC-32 over every byte
//! that passes through it. When the source reports end-of-stream, the
//! accumulated value is checked once against the expected value fixed at
//! construction. The accumulation itself is done by `crc32fast`; its result is
//! named by the uninterpreted function `crc32_of`, so every contract here
//! speaks of the checksum of exactly the bytes observed so far.

use vstd::prelude::*;
use vstd::math::min;

use crate::error::{ZipError, ZipResult};

verus! {

#[verifier::external_type_specification]
#[verifier::external_body]
pub struct ExHasher(crc32fast::Hasher);

/// The bytes a `crc32fast::Hasher` has observed since it was created.
pub uninterp spec fn hasher_bytes(h: crc32fast::Hasher) -> Seq<u8>;

/// The CRC-32 checksum of a byte sequence, as `crc32fast::Hasher::finalize`
/// computes it: a function of the observed bytes alone.
pub uninterp spec fn crc32_of(s: Seq<u8>) -> u32;

/// Relies on crc32fast::Hasher::new: a fresh hasher has observed no bytes.
pub assume_specification[ crc32fast::Hasher::new ]() -> (h: crc32fast::Hasher)
    ensures
        hasher_bytes(h) == Seq::<u8>::empty(),
;

/// Relies on crc32fast::Hasher::update: appends the buffer to the bytes
/// observed so far.
pub assume_specification[ crc32fast::Hasher::update ](h: &mut crc32fast::Hasher, buf: &[u8])
    ensures
        hasher_bytes(*final(h)) == hasher_bytes(*old(h)) + buf@,
;

/// Relies on crc32fast::Hasher::finalize: returns the CRC-32 of the bytes the
/// hasher observed, a value depending on those bytes alone.
pub assume_specification[ crc32fast::Hasher::finalize ](h: crc32fast::Hasher) -> (r: u32)
    ensures
        r == crc32_of(hasher_bytes(h)),
;

/// Relies on the derived Clone of crc32fast::Hasher: the copy carries the same
/// accumulator state, so it has observed the same bytes.
pub assume_specification[ <crc32fast::Hasher as Clone>::clone ](h: &crc32fast::Hasher) -> (r:
    crc32fast::Hasher)
    ensures
        hasher_bytes(r) == hasher_bytes(*h),
;

/// An exclusively owned in-memory byte source: a buffer and a cursor over it.
pub struct ByteCursor {
    data: Vec<u8>,
    pos: usize,
}

impl ByteCursor {
    /// The cursor never points past the end of the buffer.
    pub closed spec fn wf(&self) -> bool {
        self.pos <= self.data@.len()
    }

    /// The bytes not yet consumed.
    pub closed spec fn remaining(&self) -> Seq<u8> {
        self.data@.skip(self.pos as int)
    }

    pub fn new(data: Vec<u8>) -> (c: ByteCursor)
        ensures
            c.wf(),
            c.remaining() == data@,
    {
        let c = ByteCursor { data, pos: 0 };
        proof {
            assert(c.remaining() =~= c.data@);
        }
        c
    }

    /// Consumes and returns up to `max` bytes from the front of the source.
    pub fn read_up_to(&mut self, max: usize) -> (r: Vec<u8>)
        requires
            old(self).wf(),
        ensures
            final(self).wf(),
            r@ == old(self).remaining().take(min(max as int, old(self).remaining().len() as int)),
            final(self).remaining() == old(self).remaining().skip(r@.len() as int),
    {
        let mut n: usize = self.data.len() - self.pos;
        if max < n {
            n = max;
        }
        let mut out: Vec<u8> = Vec::new();
        let mut i: usize = 0;
        while i < n
            invariant
                i <= n,
                self == old(self),
                old(self).wf(),
                n == min(max as int, old(self).remaining().len() as int),
                self.pos + n <= self.data@.len(),
                self.data@.len() <= usize::MAX,
                out@ == old(self).remaining().take(i as int),
            decreases n - i,
        {
            out.push(self.data[self.pos + i]);
            i += 1;
            proof {
                assert(out@ =~= old(self).remaining().take(i as int));
            }
        }
        self.pos = self.pos + n;
        proof {
            assert(final(self).remaining() =~= old(self).remaining().skip(out@.len() as int));
        }
        out
    }
}

/// Reader that validates the CRC-32 of the bytes it has produced when it
/// reaches end-of-stream.
pub struct Crc32Reader<R> {
    inner: R,
    hasher: crc32fast::Hasher,
    check: u32,
}

impl<R> Crc32Reader<R> {
    /// The bytes that have passed through this reader so far.
    pub closed spec fn observed(&self) -> Seq<u8> {
        hasher_bytes(self.hasher)
    }

    /// The checksum value fixed at construction.
    pub closed spec fn expected(&self) -> u32 {
        self.check
    }

    /// The wrapped byte source.
    pub closed spec fn spec_inner(&self) -> R {
        self.inner
    }

    /// Get a new Crc32Reader which checks the inner reader against checksum.
    pub fn new(inner: R, checksum: u32) -> (r: Crc32Reader<R>)
        ensures
            r.observed() == Seq::<u8>::empty(),
            r.expected() == checksum,
            r.spec_inner() == inner,
    {
        Crc32Reader { inner, hasher: crc32fast::Hasher::new(), check: checksum }
    }

    fn check_matches(&self) -> (r: bool)
        ensures
            r == (self.expected() == crc32_of(self.observed())),
    {
        self.check == self.hasher.clone().finalize()
    }

    /// Releases and returns the wrapped byte source.
    pub fn into_inner(self) -> (r: R)
        ensures
            r == self.spec_inner(),
    {
        self.inner
    }

    /// Accounts for the outcome of one read of the wrapped source: `data` is
    /// what the source produced, `nonempty_request` says whether the caller
    /// had asked for more than zero bytes. A nonempty request answered with no
    /// bytes means end-of-stream, which is the one moment the checksum is
    /// validated; any bytes produced are added to the running checksum.
    pub fn accept_read(&mut self, data: &[u8], nonempty_request: bool) -> (r: ZipResult<usize>)
        ensures
            final(self).expected() == old(self).expected(),
            final(self).spec_inner() == old(self).spec_inner(),
            if data@.len() == 0 && nonempty_request && crc32_of(old(self).observed()) != old(self).expected() {
                &&& r == Err::<usize, ZipError>(ZipError::ChecksumMismatch)
                &&& final(self).observed() == old(self).observed()
            } else {
                &&& r == Ok::<usize, ZipError>(data@.len() as usize)
                &&& final(self).observed() == old(self).observed() + data@
            },
    {
        if data.len() == 0 && nonempty_request && !self.check_matches() {
            return Err(ZipError::ChecksumMismatch);
        }
        self.hasher.update(data);
        Ok(data.len())
    }
}

impl Crc32Reader<ByteCursor> {
    /// Reads up to `max` bytes from the wrapped in-memory source, adding them
    /// to the running checksum. A request for zero bytes always succeeds with
    /// no bytes, consumes nothing and never validates. A nonempty request on
    /// an exhausted source validates the checksum: on a mismatch it fails,
    /// otherwise it reports end-of-stream with an empty result, and keeps
    /// doing so on every later request.
    pub fn read(&mut self, max: usize) -> (r: ZipResult<Vec<u8>>)
        requires
            old(self).spec_inner().wf(),
        ensures
            final(self).spec_inner().wf(),
            final(self).expected() == old(self).expected(),
            ({
                let rem = old(self).spec_inner().remaining();
                let chunk = rem.take(min(max as int, rem.len() as int));
                if max > 0 && rem.len() == 0 && crc32_of(old(self).observed()) != old(self).expected() {
                    &&& r == Err::<Vec<u8>, ZipError>(ZipError::ChecksumMismatch)
                    &&& final(self).observed() == old(self).observed()
                    &&& final(self).spec_inner().remaining() == rem
                } else {
                    &&& (match r {
                        Ok(v) => v@ == chunk,
                        Err(_) => false,
                    })
                    &&& final(self).observed() == old(self).observed() + chunk
                    &&& final(self).spec_inner().remaining() == rem.skip(chunk.len() as int)
                }
            }),
            max == 0 ==> final(self).observed() == old(self).observed() && final(self).spec_inner().remaining() == old(self).spec_inner().remaining(),
    {
        let chunk = self.inner.read_up_to(max);
        let nonempty_request = max > 0;
        let outcome = self.accept_read(chunk.as_slice(), nonempty_request);
        proof {
            let rem = old(self).spec_inner().remaining();
            assert(rem.take(0) =~= Seq::<u8>::empty());
            assert(rem.skip(0) =~= rem);
            assert(old(self).observed() + Seq::<u8>::empty() =~= old(self).observed());
        }
        match outcome {
            Ok(_) => Ok(chunk),
            Err(e) => Err(e),
        }
    }
}

} // verus!
