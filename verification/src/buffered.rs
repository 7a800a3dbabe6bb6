//! A small read-ahead buffer in front of a byte channel, so the channel can
//! be read line by line or frame by frame (`fill_buf` / `consume`).
//!
//! The buffer holds `valid` bytes read from the channel, of which the first
//! `pos` have been handed out already.
use vstd::prelude::*;

verus! {

/// Capacity of the read-ahead buffer.
pub const READ_AHEAD: usize = 256;

/// The buffer as a mathematical value.
#[verifier::ext_equal]
pub struct ReadBufferModel {
    pub storage: Seq<u8>,
    pub valid: nat,
    pub pos: nat,
}

impl ReadBufferModel {
    /// The bytes read from the channel and not handed out yet.
    pub open spec fn pending(self) -> Seq<u8> {
        self.storage.subrange(self.pos as int, self.valid as int)
    }

    pub open spec fn wf(self) -> bool {
        &&& self.storage.len() == READ_AHEAD
        &&& self.pos <= self.valid <= READ_AHEAD
    }
}

pub struct ReadBuffer {
    buf: [u8; 256],
    valid: usize,
    pos: usize,
}

impl View for ReadBuffer {
    type V = ReadBufferModel;

    closed spec fn view(&self) -> ReadBufferModel {
        ReadBufferModel { storage: self.buf@, valid: self.valid as nat, pos: self.pos as nat }
    }
}

impl ReadBuffer {
    pub open spec fn wf(&self) -> bool {
        self@.wf()
    }

    /// An empty buffer.
    pub fn new() -> (b: Self)
        ensures
            b.wf(),
            b@.pending().len() == 0,
            b@.valid == 0,
            b@.pos == 0,
            b@.storage == Seq::new(READ_AHEAD as nat, |_i: int| 0u8),
    {
        let b = Self { buf: [0u8; 256], valid: 0, pos: 0 };
        assert(b@.storage =~= Seq::new(READ_AHEAD as nat, |_i: int| 0u8));
        b
    }

    /// Whether every byte read so far has been handed out, so the next
    /// request has to go to the channel.
    pub fn is_drained(&self) -> (r: bool)
        requires
            self.wf(),
        ensures
            r == (self@.pending().len() == 0),
    {
        self.pos >= self.valid
    }

    /// Hand out as many pending bytes as fit in `out`. Returns their count.
    pub fn read_into(&mut self, out: &mut [u8]) -> (n: usize)
        requires
            old(self).wf(),
        ensures
            final(self).wf(),
            n == (if old(self)@.pending().len() <= old(out)@.len() {
                old(self)@.pending().len() as int
            } else {
                old(out)@.len() as int
            }),
            final(out)@ == old(self)@.pending().take(n as int) + old(out)@.skip(n as int),
            final(self)@.pending() == old(self)@.pending().skip(n as int),
            final(self)@.storage == old(self)@.storage,
            final(self)@.valid == old(self)@.valid,
    {
        let avail = self.valid - self.pos;
        let n = if avail <= out.len() {
            avail
        } else {
            out.len()
        };
        let ghost old_out = out@;
        let mut i: usize = 0;
        while i < n
            invariant
                i <= n,
                n <= out@.len(),
                self.pos + n <= self.valid <= 256,
                out@.len() == old_out.len(),
                forall|k: int| 0 <= k < i ==> #[trigger] out@[k] == self.buf@[self.pos + k],
                forall|k: int| n <= k < out@.len() ==> #[trigger] out@[k] == old_out[k],
            decreases n - i,
        {
            out[i] = self.buf[self.pos + i];
            i += 1;
        }
        let ghost pend = self@.pending();
        assert(out@ =~= pend.take(n as int) + old_out.skip(n as int));
        self.pos = self.pos + n;
        assert(self@.pending() =~= pend.skip(n as int));
        n
    }

    /// The whole storage, to be filled from the channel; `set_filled`
    /// then records how many bytes the read gave.
    pub fn storage(&mut self) -> (s: &mut [u8; 256])
        ensures
            s@ == old(self)@.storage,
            final(self)@ == (ReadBufferModel { storage: final(s)@, ..old(self)@ }),
    {
        &mut self.buf
    }

    /// Record that the first `n` bytes of the storage are fresh data from
    /// the channel, none handed out yet.
    pub fn set_filled(&mut self, n: usize)
        requires
            n <= READ_AHEAD,
        ensures
            final(self).wf(),
            final(self)@.storage == old(self)@.storage,
            final(self)@.valid == n,
            final(self)@.pos == 0,
            final(self)@.pending() == old(self)@.storage.take(n as int),
    {
        self.valid = n;
        self.pos = 0;
        assert(self@.pending() =~= self@.storage.take(n as int));
    }

    /// The pending bytes.
    pub fn available(&self) -> (s: &[u8])
        requires
            self.wf(),
        ensures
            s@ == self@.pending(),
    {
        vstd::slice::slice_subrange(self.buf.as_slice(), self.pos, self.valid)
    }

    /// Whether `consume(amt)` can advance the read position without
    /// overflowing it.
    pub fn can_consume(&self, amt: usize) -> (r: bool)
        ensures
            r == (self@.pos + amt <= usize::MAX),
    {
        self.pos.checked_add(amt).is_some()
    }

    /// Mark `amt` pending bytes as handed out (all of them if fewer are
    /// pending).
    pub fn consume(&mut self, amt: usize)
        requires
            old(self).wf(),
            old(self)@.pos + amt <= usize::MAX,
        ensures
            final(self).wf(),
            final(self)@.storage == old(self)@.storage,
            final(self)@.valid == old(self)@.valid,
            final(self)@.pos == (if old(self)@.pos + amt <= old(self)@.valid {
                old(self)@.pos + amt
            } else {
                old(self)@.valid as int
            }),
            amt <= old(self)@.pending().len() ==> final(self)@.pending() == old(self)@.pending().skip(
                amt as int,
            ),
    {
        let p = self.pos + amt;
        self.pos = if p <= self.valid {
            p
        } else {
            self.valid
        };
        proof {
            if amt <= old(self)@.pending().len() {
                assert(self@.pending() =~= old(self)@.pending().skip(amt as int));
            }
        }
    }
}

} // verus!
