//! The queue itself: a fixed array and two cursors.

use vstd::prelude::*;
use crate::window::Window;
use crate::window::SHUFFLE_THRESHOLD;

verus! {

/// A FIFO queue of bytes in a fixed array of `SIZE` slots.
pub struct ShuffleBuf<const SIZE: usize> {
    /// The storage.
    buf: [u8; SIZE],
    /// The slot of the next byte to read.
    read_idx: usize,
    /// The slot where the next byte is stored.
    write_idx: usize,
}

impl<const SIZE: usize> View for ShuffleBuf<SIZE> {
    type V = Window;

    closed spec fn view(&self) -> Window {
        Window {
            head: self.read_idx as nat,
            bytes: self.buf@.subrange(self.read_idx as int, self.write_idx as int),
        }
    }
}

impl<const SIZE: usize> ShuffleBuf<SIZE> {
    /// The cursors are in order and inside the storage.
    #[verifier::type_invariant]
    spec fn cursors_in_order(&self) -> bool {
        self.read_idx <= self.write_idx <= SIZE
    }

    /// An empty queue: nothing to read, every slot vacant.
    pub fn default() -> (r: Self)
        ensures
            r@ == Window::empty(),
            r@.fits(SIZE as nat),
    {
        let r = Self { buf: [0; SIZE], read_idx: 0, write_idx: 0 };
        assert(r@.bytes =~= Seq::empty());
        r
    }

    /// The number of unread bytes.
    pub fn available(&self) -> (n: usize)
        ensures
            n == self@.available(),
            self@.fits(SIZE as nat),
    {
        proof {
            use_type_invariant(self);
        }
        self.write_idx - self.read_idx
    }

    /// The number of free slots behind the last stored byte. Slots freed by
    /// reading are not counted until the window has been slid back.
    pub fn vacant(&self) -> (n: usize)
        ensures
            n == self@.vacant(SIZE as nat),
            self@.fits(SIZE as nat),
    {
        proof {
            use_type_invariant(self);
        }
        self.buf.len() - self.write_idx
    }

    /// Moves the unread bytes to the start of the storage, so that every
    /// free slot lies behind them.
    fn shuffle_up(&mut self)
        ensures
            final(self)@ == old(self)@.compacted(),
    {
        proof {
            use_type_invariant(&*self);
        }
        if self.read_idx > 0 {
            let avail: usize = self.write_idx - self.read_idx;
            let from: usize = self.read_idx;
            let mut i: usize = 0;
            while i < avail
                invariant
                    0 < from,
                    from + avail <= SIZE,
                    i <= avail,
                    self.read_idx == from,
                    self.write_idx == from + avail,
                    forall|k: int| 0 <= k < i ==> self.buf@[k] == old(self).buf@[from + k],
                    forall|k: int| i <= k < SIZE ==> self.buf@[k] == old(self).buf@[k],
                decreases avail - i,
            {
                let b: u8 = self.buf[from + i];
                self.buf[i] = b;
                i += 1;
            }
            self.read_idx = 0;
            self.write_idx = avail;
            assert(self@.bytes =~= old(self)@.bytes);
        }
    }

    /// Stores one byte behind the unread ones, if a slot is free there.
    /// Returns how many bytes were stored: 1, or 0 when the storage is full
    /// at its end; the byte is then dropped.
    pub fn push_one(&mut self, data: u8) -> (n: usize)
        ensures
            n == old(self)@.push_count(SIZE as nat, 1),
            final(self)@ == old(self)@.pushed(SIZE as nat, seq![data]),
            n == 0 ==> *final(self) == *old(self),
            final(self)@.fits(SIZE as nat),
    {
        proof {
            use_type_invariant(&*self);
        }
        if self.buf.len() > self.write_idx {
            self.buf[self.write_idx] = data;
            self.write_idx += 1;
            assert(self@.bytes =~= old(self)@.bytes + seq![data].take(1));
            1
        } else {
            assert(self@.bytes =~= old(self)@.bytes + seq![data].take(0));
            0
        }
    }

    /// Stores the first bytes of `data` behind the unread ones, as many as
    /// there are free slots at the end of the storage. Returns how many were
    /// stored; the bytes of `data` beyond that are dropped.
    pub fn push_many(&mut self, data: &[u8]) -> (n: usize)
        ensures
            n == old(self)@.push_count(SIZE as nat, data@.len()),
            final(self)@ == old(self)@.pushed(SIZE as nat, data@),
            n == 0 ==> *final(self) == *old(self),
            final(self)@.fits(SIZE as nat),
    {
        proof {
            use_type_invariant(&*self);
        }
        let mut copy_count: usize = 0;
        let vacant: usize = self.buf.len() - self.write_idx;
        if vacant > 0 {
            let desired: usize = data.len();
            if desired < vacant {
                copy_count = desired;
            } else {
                copy_count = vacant;
            }
            let start: usize = self.write_idx;
            let mut i: usize = 0;
            while i < copy_count
                invariant
                    i <= copy_count <= data@.len(),
                    start + copy_count <= SIZE,
                    self.read_idx == old(self).read_idx,
                    self.read_idx <= start,
                    self.write_idx == start + i,
                    i == 0 ==> *self == *old(self),
                    forall|k: int| 0 <= k < start ==> self.buf@[k] == old(self).buf@[k],
                    forall|k: int| 0 <= k < i ==> self.buf@[start + k] == data@[k],
                decreases copy_count - i,
            {
                self.buf[start + i] = data[i];
                self.write_idx += 1;
                i += 1;
            }
        }
        assert(self@.bytes =~= old(self)@.bytes + data@.take(copy_count as int));
        copy_count
    }

    /// Hands out the oldest unread byte, if there is one. Returns the count
    /// (1 or 0) and the byte; with a count of 0 the byte is 0 and the queue is
    /// left as it was. The rest is moved to the start of the storage only
    /// once more than `SHUFFLE_THRESHOLD` read slots have gathered in front
    /// of it.
    pub fn read_one(&mut self) -> (r: (usize, u8))
        ensures
            r.0 == old(self)@.read_count(1),
            r.0 == 1 ==> r.1 == old(self)@.bytes[0],
            r.0 == 0 ==> r.1 == 0,
            final(self)@ == old(self)@.after_read_one(SHUFFLE_THRESHOLD as nat),
            r.0 == 0 ==> *final(self) == *old(self),
            final(self)@.fits(SIZE as nat),
    {
        proof {
            use_type_invariant(&*self);
        }
        if self.write_idx > self.read_idx {
            let val: u8 = self.buf[self.read_idx];
            self.read_idx += 1;
            assert(self@.bytes =~= old(self)@.bytes.skip(1));
            if self.read_idx > SHUFFLE_THRESHOLD {
                self.shuffle_up();
            }
            return (1, val);
        }
        (0, 0)
    }

    /// Copies the oldest unread bytes to the front of `out_buf`, as many as
    /// it has room for, and removes them from the queue. Returns how many
    /// were copied; the rest of `out_buf` keeps what it held. Unless the
    /// queue was empty, the bytes that stay are moved to the start of the
    /// storage, so that every free slot can be pushed into again.
    pub fn read_many(&mut self, out_buf: &mut [u8]) -> (n: usize)
        ensures
            n == old(self)@.read_count(old(out_buf)@.len()),
            final(out_buf)@ == old(self)@.read_bytes(old(out_buf)@.len()) + old(out_buf)@.skip(
                n as int,
            ),
            final(self)@ == old(self)@.after_read_many(old(out_buf)@.len()),
            old(self)@.available() == 0 ==> *final(self) == *old(self),
            final(self)@.fits(SIZE as nat),
    {
        proof {
            use_type_invariant(&*self);
        }
        let mut read_count: usize = 0;
        let avail: usize = self.write_idx - self.read_idx;
        if avail > 0 {
            let desired: usize = out_buf.len();
            if desired > avail {
                read_count = avail;
            } else {
                read_count = desired;
            }
            let from: usize = self.read_idx;
            let mut i: usize = 0;
            while i < read_count
                invariant
                    i <= read_count <= avail,
                    read_count <= out_buf@.len(),
                    out_buf@.len() == old(out_buf)@.len(),
                    from + avail <= SIZE,
                    *self == *old(self),
                    forall|k: int| 0 <= k < i ==> out_buf@[k] == self.buf@[from + k],
                    forall|k: int| i <= k < out_buf@.len() ==> out_buf@[k] == old(out_buf)@[k],
                decreases read_count - i,
            {
                out_buf[i] = self.buf[from + i];
                i += 1;
            }
            self.read_idx += read_count;
            assert(self@.bytes =~= old(self)@.bytes.skip(read_count as int));
            self.shuffle_up();
        }
        assert(out_buf@ =~= old(self)@.read_bytes(old(out_buf)@.len()) + old(out_buf)@.skip(
            read_count as int,
        ));
        read_count
    }
}

} // verus!
