//! The mathematical model of a writer and its shards.
//!
//! A buffer has a fixed capacity and a logical length; the offsets below the
//! length hold values. A writer hands out the offsets from the length up to the
//! capacity, left to right, as disjoint half-open ranges. A shard owns one such
//! range and fills it from its start. The writer takes full shards back in the
//! order of their ranges, and each one it takes back lengthens the buffer by
//! that shard's values.
//!
//! The executable types view themselves as the states defined here, and their
//! contracts are written with the transitions defined here.

use vstd::prelude::*;
use crate::error::InitError;

verus! {

/// What a shard is: a range of buffer offsets and the values written so far.
pub struct ShardState<T> {
    /// Names the buffer that the range lies in.
    pub storage: usize,
    /// First offset of the range.
    pub start: nat,
    /// One past the last offset of the range.
    pub end: nat,
    /// The values at the offsets from `start` on, in order.
    pub values: Seq<T>,
}

impl<T> ShardState<T> {
    /// The offset that the next value goes to.
    pub open spec fn cursor(self) -> nat {
        self.start + self.values.len()
    }

    /// The values written never pass the end of the range.
    pub open spec fn wf(self) -> bool {
        self.cursor() <= self.end
    }

    /// Every offset of the range holds a value.
    pub open spec fn is_full(self) -> bool {
        self.cursor() == self.end
    }

    /// The number of offsets in the range.
    pub open spec fn size(self) -> nat {
        (self.end - self.start) as nat
    }

    /// Whether `offset` lies in the part of the range that holds values.
    pub open spec fn holds(self, offset: int) -> bool {
        self.start <= offset < self.cursor()
    }

    /// The value at buffer offset `offset`.
    pub open spec fn value_at(self, offset: int) -> T
        recommends
            self.holds(offset),
    {
        self.values[offset - self.start]
    }

    /// The shard after `value` was written at the cursor.
    pub open spec fn push(self, value: T) -> Self {
        ShardState { values: self.values.push(value), ..self }
    }

    /// Whether the two ranges have no offset in common.
    pub open spec fn disjoint(self, other: Self) -> bool {
        self.end <= other.start || other.end <= self.start
    }
}

/// What a writer is: the buffer it fills and how much of it is handed out.
pub struct WriterState<T> {
    /// Names the buffer.
    pub storage: usize,
    /// The number of values the buffer has room for.
    pub capacity: nat,
    /// The offset that the next shard starts at.
    pub taken: nat,
    /// The values in the buffer; their number is the buffer's length.
    pub buffer: Seq<T>,
}

impl<T> WriterState<T> {
    /// Nothing below the buffer's length can be handed out again, and nothing
    /// beyond the capacity can be handed out at all.
    pub open spec fn wf(self) -> bool {
        self.buffer.len() <= self.taken <= self.capacity
    }

    /// The number of offsets not handed out yet.
    pub open spec fn remaining(self) -> nat {
        (self.capacity - self.taken) as nat
    }

    /// Whether a shard of `n` offsets can still be handed out.
    pub open spec fn can_take(self, n: nat) -> bool {
        self.taken + n <= self.capacity
    }

    /// The shard of `n` offsets that is handed out next.
    pub open spec fn next_shard(self, n: nat) -> ShardState<T> {
        ShardState { storage: self.storage, start: self.taken, end: self.taken + n, values: Seq::empty() }
    }

    /// The writer after it handed out a shard of `n` offsets.
    pub open spec fn take(self, n: nat) -> Self {
        WriterState { taken: self.taken + n, ..self }
    }

    /// The writer after a request for `n` offsets, granted or not.
    pub open spec fn request(self, n: nat) -> Self {
        if self.can_take(n) {
            self.take(n)
        } else {
            self
        }
    }

    /// Whether this writer can have handed out `shard`: the shard names this
    /// writer's buffer and ends inside what the writer has handed out.
    pub open spec fn issued(self, shard: ShardState<T>) -> bool {
        shard.storage == self.storage && shard.end <= self.taken
    }

    /// The reason for which the writer refuses to take `shard` back, if any.
    /// A shard may fail several tests; the first one in this order decides.
    pub open spec fn refusal(self, shard: ShardState<T>) -> Option<InitError> {
        if !self.issued(shard) {
            Some(InitError::WrongVec)
        } else if !shard.is_full() {
            Some(InitError::UninitElements)
        } else if shard.start != self.buffer.len() {
            Some(InitError::OutOfOrder)
        } else {
            None
        }
    }

    /// Whether the writer takes `shard` back.
    pub open spec fn accepts(self, shard: ShardState<T>) -> bool {
        self.refusal(shard) is None
    }

    /// The writer after it took `shard` back: the shard's values follow those
    /// that the buffer held.
    pub open spec fn commit(self, shard: ShardState<T>) -> Self {
        WriterState { buffer: self.buffer + shard.values, ..self }
    }

    /// The writer after `shard` was offered to it, taken back or not.
    pub open spec fn offer(self, shard: ShardState<T>) -> Self {
        if self.accepts(shard) {
            self.commit(shard)
        } else {
            self
        }
    }
}

} // verus!
