//! The sink abstraction: a byte destination offering sequential bulk
//! writes, sequential vectored writes, and absolute-offset seeks, together
//! with a verified in-memory implementation.
//!
//! A sink is modelled by two spec functions: `contents`, the bytes written
//! so far, and `position`, the offset at which the next write lands.  A
//! write overwrites `contents` starting at `position`, extending it when it
//! runs past the end.

use vstd::prelude::*;
use crate::error::MjpegError;

verus! {

/// The result of writing `data` into `s` at offset `p`: the bytes at
/// `p..p + data.len()` are replaced, and `s` is extended when the write runs
/// past its end.
pub open spec fn write_at(s: Seq<u8>, p: int, data: Seq<u8>) -> Seq<u8>
    recommends
        0 <= p <= s.len(),
{
    s.take(p) + data + s.skip(
        if p + data.len() <= s.len() {
            p + data.len() as int
        } else {
            s.len() as int
        },
    )
}

/// A write at the very end of the contents appends.
pub proof fn lemma_write_at_end(s: Seq<u8>, data: Seq<u8>)
    ensures
        write_at(s, s.len() as int, data) == s + data,
{
    assert(write_at(s, s.len() as int, data) =~= s + data);
}

/// A write wholly inside the prefix `h` of `h + t` only changes `h`.
pub proof fn lemma_write_at_prefix(h: Seq<u8>, t: Seq<u8>, p: int, data: Seq<u8>)
    requires
        0 <= p,
        p + data.len() <= h.len(),
    ensures
        write_at(h + t, p, data) == write_at(h, p, data) + t,
{
    assert(write_at(h + t, p, data) =~= write_at(h, p, data) + t);
}

/// Two consecutive writes are one write of the concatenation.
pub proof fn lemma_write_at_concat(s: Seq<u8>, p: int, a: Seq<u8>, b: Seq<u8>)
    requires
        0 <= p <= s.len(),
    ensures
        write_at(write_at(s, p, a), p + a.len(), b) == write_at(s, p, a + b),
{
    assert(write_at(write_at(s, p, a), p + a.len(), b) =~= write_at(s, p, a + b));
}

/// The payload of a vectored write: the fragments' bytes, concatenated in
/// their given order.
pub open spec fn spec_concat_bufs(bufs: Seq<Seq<u8>>) -> Seq<u8> {
    bufs.flatten()
}

/// A byte sink. Writes land at the current position and advance it; an
/// absolute seek moves it.  On failure a sink reports `MjpegError::Io` and
/// its contents are unspecified — the container gives no atomicity
/// guarantee beyond what the sink itself provides.
pub trait Writer: Sized {
    /// The bytes written so far.
    spec fn contents(&self) -> Seq<u8>;

    /// The offset at which the next write lands.
    spec fn position(&self) -> int;

    /// Writes all of `buf` at the current position.
    fn write_all(&mut self, buf: &[u8]) -> (r: Result<(), MjpegError>)
        requires
            0 <= old(self).position() <= old(self).contents().len(),
        ensures
            r is Ok ==> final(self).contents() == write_at(
                old(self).contents(),
                old(self).position(),
                buf@,
            ) && final(self).position() == old(self).position() + buf@.len(),
            r is Err ==> (r matches Err(MjpegError::Io(_))),
    ;

    /// Writes all fragments in order at the current position, as if their
    /// concatenation had been written in one call.
    fn write_all_vectored(&mut self, bufs: &[&[u8]]) -> (r: Result<(), MjpegError>)
        requires
            0 <= old(self).position() <= old(self).contents().len(),
        ensures
            r is Ok ==> final(self).contents() == write_at(
                old(self).contents(),
                old(self).position(),
                spec_concat_bufs(bufs.deep_view()),
            ) && final(self).position() == old(self).position() + spec_concat_bufs(
                bufs.deep_view(),
            ).len(),
            r is Err ==> (r matches Err(MjpegError::Io(_))),
    ;

    /// Moves the position to `pos` bytes from the start of the stream.
    fn seek(&mut self, pos: u64) -> (r: Result<u64, MjpegError>)
        requires
            0 <= old(self).position() <= old(self).contents().len(),
            pos <= old(self).contents().len(),
        ensures
            r is Ok ==> final(self).contents() == old(self).contents() && final(self).position()
                == pos && r == Ok::<u64, MjpegError>(pos),
            r is Err ==> (r matches Err(MjpegError::Io(_))),
    ;
}

/// An in-memory sink: a growable byte buffer with a write position.  Its
/// operations are verified against the sink model and never fail on any
/// input a caller can reach.
pub struct MemorySink {
    data: Vec<u8>,
    pos: usize,
}

impl MemorySink {
    /// An empty sink positioned at offset zero.
    pub fn new() -> (r: MemorySink)
        ensures
            r.contents() == Seq::<u8>::empty(),
            r.position() == 0,
    {
        MemorySink { data: Vec::new(), pos: 0 }
    }

    /// The bytes written so far.
    pub fn bytes(&self) -> (r: &Vec<u8>)
        ensures
            r@ == self.contents(),
    {
        &self.data
    }

    /// Consumes the sink and hands back the bytes written so far.
    pub fn into_bytes(self) -> (r: Vec<u8>)
        ensures
            r@ == self.contents(),
    {
        self.data
    }
}

impl Writer for MemorySink {
    closed spec fn contents(&self) -> Seq<u8> {
        self.data@
    }

    closed spec fn position(&self) -> int {
        self.pos as int
    }

    fn write_all(&mut self, buf: &[u8]) -> (r: Result<(), MjpegError>) {
        if buf.len() > usize::MAX - self.pos {
            return Err(MjpegError::Io("write would exceed the addressable range".to_string()));
        }
        let ghost gold = *self;
        proof {
            assert(gold.data@ =~= write_at(gold.data@, gold.pos as int, buf@.take(0)));
        }
        let mut i: usize = 0;
        while i < buf.len()
            invariant
                0 <= i <= buf.len(),
                gold.pos + buf@.len() <= usize::MAX,
                gold.pos <= gold.data@.len(),
                self.pos == gold.pos + i,
                self.data@ == write_at(gold.data@, gold.pos as int, buf@.take(i as int)),
                self.pos <= self.data@.len(),
            decreases buf.len() - i,
        {
            let b = buf[i];
            if self.pos < self.data.len() {
                self.data.set(self.pos, b);
            } else {
                self.data.push(b);
            }
            proof {
                assert(self.data@ =~= write_at(gold.data@, gold.pos as int, buf@.take(i + 1)));
            }
            self.pos = self.pos + 1;
            i = i + 1;
        }
        proof {
            assert(buf@.take(buf@.len() as int) =~= buf@);
        }
        Ok(())
    }

    fn write_all_vectored(&mut self, bufs: &[&[u8]]) -> (r: Result<(), MjpegError>) {
        let ghost gold = *self;
        proof {
            assert(bufs.deep_view().take(0).flatten() == Seq::<u8>::empty());
            assert(gold.data@ =~= write_at(gold.data@, gold.pos as int, Seq::<u8>::empty()));
        }
        let mut k: usize = 0;
        while k < bufs.len()
            invariant
                0 <= k <= bufs.len(),
                gold.pos <= gold.data@.len(),
                self.pos == gold.pos + spec_concat_bufs(bufs.deep_view().take(k as int)).len(),
                self.data@ == write_at(
                    gold.data@,
                    gold.pos as int,
                    spec_concat_bufs(bufs.deep_view().take(k as int)),
                ),
                self.pos <= self.data@.len(),
            decreases bufs.len() - k,
        {
            let ghost done = spec_concat_bufs(bufs.deep_view().take(k as int));
            let r = self.write_all(bufs[k]);
            match r {
                Ok(()) => {},
                Err(e) => {
                    return Err(e);
                },
            }
            proof {
                lemma_write_at_concat(gold.data@, gold.pos as int, done, bufs.deep_view()[k as int]);
                assert(bufs.deep_view().take(k + 1) =~= bufs.deep_view().take(k as int).push(
                    bufs.deep_view()[k as int],
                ));
                bufs.deep_view().take(k as int).lemma_flatten_push(bufs.deep_view()[k as int]);
                assert(spec_concat_bufs(bufs.deep_view().take(k + 1)) == done + bufs.deep_view()[k
                    as int]);
            }
            k = k + 1;
        }
        proof {
            assert(bufs.deep_view().take(bufs.deep_view().len() as int) =~= bufs.deep_view());
        }
        Ok(())
    }

    fn seek(&mut self, pos: u64) -> (r: Result<u64, MjpegError>) {
        if pos > usize::MAX as u64 {
            return Err(MjpegError::Io("seek beyond the addressable range".to_string()));
        }
        self.pos = pos as usize;
        Ok(pos)
    }
}

} // verus!
