//! The mathematical model of the queue: where the window of unread bytes
//! starts in the storage, and which bytes it holds.

use vstd::prelude::*;

verus! {

/// A single-byte read slides the window back only once more than this many
/// dead slots have gathered in front of it.
pub const SHUFFLE_THRESHOLD: usize = 4;

/// The window of unread bytes: `head` dead slots lie in front of it in the
/// storage, and `bytes` are the unread bytes, oldest first.
pub struct Window {
    pub head: nat,
    pub bytes: Seq<u8>,
}

/// The smaller of two naturals.
pub open spec fn lesser(a: nat, b: nat) -> nat {
    if a <= b {
        a
    } else {
        b
    }
}

impl Window {
    /// The window of a queue that holds nothing and has no dead slots.
    pub open spec fn empty() -> Window {
        Window { head: 0, bytes: Seq::empty() }
    }

    /// The first slot behind the window: where the next byte is stored.
    pub open spec fn tail(self) -> nat {
        self.head + self.bytes.len()
    }

    /// The window lies inside a storage of `cap` slots.
    pub open spec fn fits(self, cap: nat) -> bool {
        self.tail() <= cap
    }

    /// The number of unread bytes.
    pub open spec fn available(self) -> nat {
        self.bytes.len()
    }

    /// The free slots behind the window. Dead slots in front of it do not
    /// count: they become free only when the window is slid back.
    pub open spec fn vacant(self, cap: nat) -> nat {
        if self.tail() <= cap {
            (cap - self.tail()) as nat
        } else {
            0
        }
    }

    /// The same bytes with the window slid back to the start of the storage.
    pub open spec fn compacted(self) -> Window {
        Window { head: 0, bytes: self.bytes }
    }

    /// How many of `offered` bytes a push takes in: as many as there are free
    /// slots behind the window, and no more than were offered.
    pub open spec fn push_count(self, cap: nat, offered: nat) -> nat {
        lesser(offered, self.vacant(cap))
    }

    /// The window after `data` was offered: the bytes that were taken in
    /// stand behind the unread ones, and the window has not moved.
    pub open spec fn pushed(self, cap: nat, data: Seq<u8>) -> Window {
        Window {
            head: self.head,
            bytes: self.bytes + data.take(self.push_count(cap, data.len()) as int),
        }
    }

    /// How many bytes a read into `wanted` slots hands out.
    pub open spec fn read_count(self, wanted: nat) -> nat {
        lesser(wanted, self.available())
    }

    /// The bytes that a read into `wanted` slots hands out: the oldest ones.
    pub open spec fn read_bytes(self, wanted: nat) -> Seq<u8> {
        self.bytes.take(self.read_count(wanted) as int)
    }

    /// The window after a block read into `wanted` slots. An empty queue is
    /// left as it is; otherwise the bytes handed out are gone and the rest
    /// has been slid back to the start of the storage.
    pub open spec fn after_read_many(self, wanted: nat) -> Window {
        if self.bytes.len() == 0 {
            self
        } else {
            Window { head: 0, bytes: self.bytes.skip(self.read_count(wanted) as int) }
        }
    }

    /// The window after a single-byte read. An empty queue is left as it is;
    /// otherwise the oldest byte is gone, and the rest is slid back only if
    /// more than `threshold` dead slots would stand in front of it.
    pub open spec fn after_read_one(self, threshold: nat) -> Window {
        if self.bytes.len() == 0 {
            self
        } else if self.head + 1 > threshold {
            Window { head: 0, bytes: self.bytes.skip(1) }
        } else {
            Window { head: self.head + 1, bytes: self.bytes.skip(1) }
        }
    }
}

} // verus!
