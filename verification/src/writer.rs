use vstd::prelude::*;
use vstd::string::*;

use crate::error::StoreError;

verus! {

/// How many bytes a full upload part holds when the caller names no
/// other size.
pub const DEFAULT_UPLOAD_PART_SIZE: usize = 8 * 1024 * 1024;

/// The explicit writer state: a writer is open until `shutdown`, and
/// closed for good afterwards.
pub enum WriterState {
    Open,
    Closed,
}

/// A sequential, chunked upload session against one path.
///
/// Bytes handed to `write` are buffered; every time the buffer reaches
/// the part size, a full part is emitted for the backend to upload, in
/// order. `flush` and `shutdown` emit the remaining partial part. The
/// bytes emitted over the writer's life are exactly the bytes written,
/// in order, whatever the chunking — so the finalized object's size is
/// the sum of all write sizes. Writers are for sequential use only; a
/// writer that was shut down rejects every further operation with an
/// `InvalidState` error.
pub struct ChunkedWriter {
    state: WriterState,
    part_size: usize,
    buf: Vec<u8>,
    emitted: Ghost<Seq<u8>>,
}

/// The bytes of the given parts, in order.
pub open spec fn concat_bytes(parts: Seq<Vec<u8>>) -> Seq<u8>
    decreases parts.len(),
{
    if parts.len() == 0 {
        Seq::empty()
    } else {
        concat_bytes(parts.drop_last()) + parts.last()@
    }
}

/// The sum of the parts' sizes.
pub open spec fn total_len(parts: Seq<Vec<u8>>) -> int
    decreases parts.len(),
{
    if parts.len() == 0 {
        0
    } else {
        total_len(parts.drop_last()) + parts.last()@.len()
    }
}

/// Size accounting: however bytes are regrouped into parts, the bytes
/// of the parts laid end to end number exactly the sum of the parts'
/// sizes.
pub proof fn lemma_size_accounting(parts: Seq<Vec<u8>>)
    ensures
        concat_bytes(parts).len() == total_len(parts),
    decreases parts.len(),
{
    if parts.len() > 0 {
        lemma_size_accounting(parts.drop_last());
    }
}

impl ChunkedWriter {
    /// The writer accepts further writes.
    pub closed spec fn is_open(&self) -> bool {
        self.state is Open
    }

    /// The size of a full upload part.
    pub closed spec fn part_capacity(&self) -> int {
        self.part_size as int
    }

    /// The bytes already emitted for upload, in order.
    pub closed spec fn emitted(&self) -> Seq<u8> {
        self.emitted@
    }

    /// The bytes buffered but not yet emitted.
    pub closed spec fn pending(&self) -> Seq<u8> {
        self.buf@
    }

    /// Every byte this writer was given, in order.
    pub open spec fn written(&self) -> Seq<u8> {
        self.emitted() + self.pending()
    }

    /// The buffer never reaches a full part, and a closed writer holds
    /// nothing back.
    pub open spec fn wf(&self) -> bool {
        &&& self.part_capacity() > 0
        &&& self.pending().len() < self.part_capacity()
        &&& (self.is_open() || self.pending().len() == 0)
    }

    /// A fresh, open writer that will emit parts of the given size.
    pub fn new(part_size: usize) -> (r: Self)
        requires
            part_size > 0,
        ensures
            r.wf(),
            r.is_open(),
            r.part_capacity() == part_size,
            r.emitted() == Seq::<u8>::empty(),
            r.written() == Seq::<u8>::empty(),
    {
        ChunkedWriter {
            state: WriterState::Open,
            part_size,
            buf: Vec::new(),
            emitted: Ghost(Seq::empty()),
        }
    }

    /// Appends bytes to the upload. Full parts are returned for the
    /// backend, in order; the remainder stays buffered. On a writer that
    /// was already shut down, nothing changes and the call fails with
    /// `InvalidState`.
    pub fn write(&mut self, data: &[u8]) -> (r: Result<Vec<Vec<u8>>, StoreError>)
        requires
            old(self).wf(),
        ensures
            final(self).wf(),
            final(self).part_capacity() == old(self).part_capacity(),
            old(self).is_open() ==> {
                &&& r matches Ok(parts)
                &&& final(self).is_open()
                &&& final(self).written() == old(self).written() + data@
                &&& final(self).emitted() == old(self).emitted() + concat_bytes(r->Ok_0@)
                &&& forall|ci: int|
                    0 <= ci < r->Ok_0@.len() ==> (#[trigger] r->Ok_0@[ci])@.len() == old(
                        self,
                    ).part_capacity()
            },
            !old(self).is_open() ==> {
                &&& r matches Err(e) && e is InvalidState
                &&& *final(self) == *old(self)
            },
    {
        match self.state {
            WriterState::Closed => {
                return Err(
                    StoreError::InvalidState {
                        message: String::from_str("write on a writer that was shut down"),
                    },
                );
            },
            WriterState::Open => {},
        }
        let mut parts: Vec<Vec<u8>> = Vec::new();
        let n = data.len();
        let mut i: usize = 0;
        proof {
            assert(data@.take(0) =~= Seq::<u8>::empty());
            assert(old(self).written() + Seq::<u8>::empty() =~= old(self).written());
            assert(concat_bytes(parts@) =~= Seq::<u8>::empty());
            assert(old(self).emitted() + Seq::<u8>::empty() =~= old(self).emitted());
        }
        while i < n
            invariant
                n == data@.len(),
                0 <= i <= n,
                self.part_size == old(self).part_size,
                self.state is Open,
                self.buf@.len() < self.part_size,
                self.emitted@ + self.buf@ == old(self).written() + data@.take(i as int),
                self.emitted@ == old(self).emitted() + concat_bytes(parts@),
                forall|ci: int|
                    0 <= ci < parts@.len() ==> (#[trigger] parts@[ci])@.len() == self.part_size,
            decreases n - i,
        {
            let ghost pre_emitted = self.emitted@;
            let ghost pre_buf = self.buf@;
            self.buf.push(data[i]);
            proof {
                let d = data@[i as int];
                assert(self.emitted@ == pre_emitted);
                assert(self.buf@ == pre_buf.push(d));
                assert(data@.take(i + 1) =~= data@.take(i as int).push(d));
                assert(self.emitted@ + self.buf@ =~= (pre_emitted + pre_buf).push(d));
                assert((old(self).written() + data@.take(i as int)).push(d) =~= old(self).written()
                    + data@.take(i + 1));
            }
            if self.buf.len() == self.part_size {
                let mut full: Vec<u8> = Vec::new();
                core::mem::swap(&mut full, &mut self.buf);
                let ghost mid_emitted = self.emitted@;
                let ghost mid_buf = full@;
                let ghost old_parts = parts@;
                parts.push(full);
                proof {
                    self.emitted@ = self.emitted@ + full@;
                    assert(self.buf@ =~= Seq::<u8>::empty());
                    assert(parts@.drop_last() =~= old_parts);
                    assert(parts@.last() == full);
                    assert(concat_bytes(parts@) == concat_bytes(old_parts) + full@);
                    assert(self.emitted@ =~= (old(self).emitted() + concat_bytes(old_parts))
                        + full@);
                    assert(self.emitted@ =~= old(self).emitted() + (concat_bytes(old_parts)
                        + full@));
                    assert(self.emitted@ + self.buf@ =~= mid_emitted + mid_buf);
                    assert(mid_emitted + mid_buf =~= old(self).written() + data@.take(i + 1));
                }
            }
            i = i + 1;
        }
        proof {
            assert(data@.take(n as int) =~= data@);
        }
        Ok(parts)
    }

    /// Emits the buffered bytes as an in-progress part without closing
    /// the upload. On a writer that was already shut down, nothing
    /// changes and the call fails with `InvalidState`.
    pub fn flush(&mut self) -> (r: Result<Vec<u8>, StoreError>)
        requires
            old(self).wf(),
        ensures
            final(self).wf(),
            final(self).part_capacity() == old(self).part_capacity(),
            old(self).is_open() ==> {
                &&& r matches Ok(part)
                &&& part@ == old(self).pending()
                &&& final(self).is_open()
                &&& final(self).pending().len() == 0
                &&& final(self).emitted() == old(self).emitted() + r->Ok_0@
                &&& final(self).written() == old(self).written()
            },
            !old(self).is_open() ==> {
                &&& r matches Err(e) && e is InvalidState
                &&& *final(self) == *old(self)
            },
    {
        match self.state {
            WriterState::Closed => {
                return Err(
                    StoreError::InvalidState {
                        message: String::from_str("flush on a writer that was shut down"),
                    },
                );
            },
            WriterState::Open => {},
        }
        let mut part: Vec<u8> = Vec::new();
        core::mem::swap(&mut part, &mut self.buf);
        proof {
            self.emitted@ = self.emitted@ + part@;
            assert(self.emitted@ + self.buf@ =~= old(self).written());
        }
        Ok(part)
    }

    /// Finalizes the upload: emits the buffered bytes as the last part
    /// and closes the writer. After shutdown the bytes emitted over the
    /// writer's life are exactly the bytes written, so the finalized
    /// object's size is the sum of all write sizes. A second shutdown
    /// fails with `InvalidState`.
    pub fn shutdown(&mut self) -> (r: Result<Vec<u8>, StoreError>)
        requires
            old(self).wf(),
        ensures
            final(self).wf(),
            final(self).part_capacity() == old(self).part_capacity(),
            old(self).is_open() ==> {
                &&& r matches Ok(part)
                &&& part@ == old(self).pending()
                &&& !final(self).is_open()
                &&& final(self).pending().len() == 0
                &&& final(self).emitted() == old(self).written()
                &&& final(self).written() == old(self).written()
            },
            !old(self).is_open() ==> {
                &&& r matches Err(e) && e is InvalidState
                &&& *final(self) == *old(self)
            },
    {
        match self.state {
            WriterState::Closed => {
                return Err(
                    StoreError::InvalidState {
                        message: String::from_str("shutdown on a writer that was shut down"),
                    },
                );
            },
            WriterState::Open => {},
        }
        let mut part: Vec<u8> = Vec::new();
        core::mem::swap(&mut part, &mut self.buf);
        self.state = WriterState::Closed;
        proof {
            self.emitted@ = self.emitted@ + part@;
            assert(self.emitted@ + self.buf@ =~= old(self).written());
            assert(self.emitted@ =~= old(self).written());
        }
        Ok(part)
    }
}

} // verus!
