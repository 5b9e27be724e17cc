//! A shard: the exclusive right to fill one range of a buffer.

use std::marker::PhantomData;
use vstd::prelude::*;
use crate::error::InsufficientCapacity;
use crate::model::ShardState;

verus! {

/// The exclusive right to fill one range of a buffer's spare capacity.
///
/// A shard holds the values written to its range until the writer that handed
/// it out takes it back. It shares nothing with the writer or with other
/// shards, so it can be filled on another thread. A shard that is dropped
/// instead of being returned drops the values it holds, in the order in which
/// they were written; its range stays handed out.
pub struct Shard<'vec, T> {
    /// Names the buffer that the range lies in.
    storage_id: usize,
    /// First offset of the range.
    start_offset: usize,
    /// One past the last offset of the range.
    end_offset: usize,
    /// The values at the offsets from `start_offset` on.
    values: Vec<T>,
    /// Ties the shard to the borrow of the buffer: no shard outlives the
    /// allocation whose address names it.
    _phantom: PhantomData<&'vec mut T>,
}

impl<'vec, T> View for Shard<'vec, T> {
    type V = ShardState<T>;

    closed spec fn view(&self) -> ShardState<T> {
        ShardState {
            storage: self.storage_id,
            start: self.start_offset as nat,
            end: self.end_offset as nat,
            values: self.values@,
        }
    }
}

impl<'vec, T> Shard<'vec, T> {
    /// Holds of every shard: what is written lies inside the range, and the
    /// range lies inside what a machine can address.
    #[verifier::type_invariant]
    pub open spec fn well_formed(&self) -> bool {
        self@.wf() && self@.end <= usize::MAX
    }

    /// An empty shard for the offsets from `start` up to `end`.
    pub(crate) fn new(storage_id: usize, start: usize, end: usize) -> (shard: Self)
        requires
            start <= end,
        ensures
            shard@.storage == storage_id,
            shard@.start == start,
            shard@.end == end,
            shard@.values == Seq::<T>::empty(),
    {
        Shard {
            storage_id,
            start_offset: start,
            end_offset: end,
            values: Vec::with_capacity(end - start),
            _phantom: PhantomData,
        }
    }

    /// The name of the buffer that the range lies in.
    pub(crate) fn storage_id(&self) -> (id: usize)
        ensures
            id == self@.storage,
    {
        self.storage_id
    }

    /// First offset of the range.
    pub(crate) fn start_offset(&self) -> (start: usize)
        ensures
            start == self@.start,
    {
        self.start_offset
    }

    /// One past the last offset of the range.
    pub(crate) fn end_offset(&self) -> (end: usize)
        ensures
            end == self@.end,
    {
        self.end_offset
    }

    /// Gives up the range and hands over the values written to it.
    pub(crate) fn into_values(self) -> (values: Vec<T>)
        ensures
            values@ == self@.values,
    {
        self.values
    }

    /// Writes `value` at the cursor. The shard must not be full.
    pub fn push(&mut self, value: T)
        requires
            !old(self)@.is_full(),
        ensures
            final(self)@ == old(self)@.push(value),
    {
        let pushed = self.try_push(value);
        pushed.unwrap()
    }

    /// Writes `value` at the cursor, or refuses if the shard is full. A shard
    /// that refuses stays as it was.
    pub fn try_push(&mut self, value: T) -> (res: Result<(), InsufficientCapacity>)
        ensures
            res is Err <==> old(self)@.is_full(),
            res is Ok ==> final(self)@ == old(self)@.push(value),
            res is Err ==> final(self)@ == old(self)@,
    {
        proof {
            use_type_invariant(&*self);
        }
        if self.values.len() == self.end_offset - self.start_offset {
            return Err(InsufficientCapacity);
        }
        // The values are taken out while they grow: a shard without values is
        // well formed, so the shard is well formed at every point in between.
        let mut values = Vec::new();
        std::mem::swap(&mut values, &mut self.values);
        values.push(value);
        self.values = values;
        Ok(())
    }

    /// The buffer offset that the next `push` writes to.
    pub fn output_offset(&self) -> (offset: usize)
        ensures
            offset == self@.cursor(),
    {
        proof {
            use_type_invariant(self);
        }
        self.start_offset + self.values.len()
    }
}

} // verus!
