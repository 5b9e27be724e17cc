//! The writer: hands out the spare capacity of a buffer as shards and takes
//! the shards back in order.

use vstd::prelude::*;
use crate::error::InitError;
use crate::model::WriterState;
use crate::shard::Shard;

verus! {

/// Fills the spare capacity of a `Vec` through shards.
///
/// The writer borrows the vector for as long as it lives. It never grows the
/// vector's allocation: the capacity it hands out is the capacity that the
/// vector had when the writer was made.
pub struct VecWriter<'vec, T> {
    /// The buffer.
    storage: &'vec mut Vec<T>,
    /// Names the buffer: the address of its allocation.
    storage_id: usize,
    /// The buffer's capacity when the writer was made.
    capacity: usize,
    /// The offset that the next shard starts at.
    taken: usize,
}

/// A shard that a writer did not take back, and the reason.
pub struct Rejected<'vec, T> {
    /// Why the writer refused the shard.
    pub reason: InitError,
    /// The shard, as it was offered.
    pub shard: Shard<'vec, T>,
}

/// Calls `Vec::capacity`. Trusted: the capacity of a vector is at least its
/// length. Nothing else is known of it; the allocator decides.
#[verifier::external_body]
fn vec_capacity<T>(v: &Vec<T>) -> (capacity: usize)
    ensures
        capacity >= v@.len(),
{
    v.capacity()
}

/// Calls `Vec::as_ptr` and gives the address as a number. Trusted, with
/// nothing claimed of the result: where an allocation lies is the
/// allocator's choice.
#[verifier::external_body]
fn vec_address<T>(v: &Vec<T>) -> usize {
    v.as_ptr() as usize
}

impl<'vec, T> View for VecWriter<'vec, T> {
    type V = WriterState<T>;

    closed spec fn view(&self) -> WriterState<T> {
        WriterState {
            storage: self.storage_id,
            capacity: self.capacity as nat,
            taken: self.taken as nat,
            buffer: self.storage@,
        }
    }
}

impl<'vec, T> VecWriter<'vec, T> {
    /// Holds of every writer: see `WriterState::wf`.
    #[verifier::type_invariant]
    pub open spec fn well_formed(&self) -> bool {
        self@.wf() && self@.capacity <= usize::MAX
    }

    /// A writer that appends to `storage`. It hands out the capacity that
    /// `storage` has beyond its length.
    pub fn new(storage: &'vec mut Vec<T>) -> (writer: Self)
        ensures
            writer@.buffer == old(storage)@,
            writer@.taken == old(storage)@.len(),
            writer@.wf(),
    {
        let taken = storage.len();
        let capacity = vec_capacity(storage);
        let storage_id = vec_address(storage);
        VecWriter { storage, storage_id, capacity, taken }
    }

    /// The number of offsets that can still be handed out.
    pub fn remaining_capacity(&self) -> (n: usize)
        ensures
            n == self@.remaining(),
    {
        proof {
            use_type_invariant(self);
        }
        self.capacity - self.taken
    }

    /// Hands out the next `n` offsets. There must be that many left.
    pub fn take_shard(&mut self, n: usize) -> (shard: Shard<'vec, T>)
        requires
            old(self)@.can_take(n as nat),
        ensures
            shard@ == old(self)@.next_shard(n as nat),
            final(self)@ == old(self)@.take(n as nat),
    {
        let taken = self.try_take_shard(n);
        taken.unwrap()
    }

    /// Hands out the next `n` offsets, or nothing if fewer are left. The
    /// offsets of a shard stay handed out, whatever becomes of the shard.
    pub fn try_take_shard(&mut self, n: usize) -> (res: Option<Shard<'vec, T>>)
        ensures
            res is Some <==> old(self)@.can_take(n as nat),
            res matches Some(shard) ==> shard@ == old(self)@.next_shard(n as nat),
            final(self)@ == old(self)@.request(n as nat),
    {
        proof {
            use_type_invariant(&*self);
        }
        if n > self.capacity - self.taken {
            return None;
        }
        let start_offset = self.taken;
        let end_offset = start_offset + n;
        let shard = Shard::new(self.storage_id, start_offset, end_offset);
        self.taken = end_offset;
        Some(shard)
    }

    /// Takes `shard` back: its values become the next values of the buffer.
    /// The shard must be one that this writer accepts.
    pub fn return_shard(&mut self, shard: Shard<T>)
        requires
            old(self)@.accepts(shard@),
        ensures
            final(self)@ == old(self)@.commit(shard@),
    {
        match self.try_return_shard(shard) {
            Ok(()) => {},
            Err(_) => vstd::pervasive::unreached(),
        }
    }

    /// Takes `shard` back, or refuses it and hands it back unchanged with the
    /// reason. A writer that refuses stays as it was.
    pub fn try_return_shard<'shard>(&mut self, shard: Shard<'shard, T>) -> (res: Result<
        (),
        Rejected<'shard, T>,
    >)
        ensures
            res is Ok <==> old(self)@.accepts(shard@),
            res matches Err(rejected) ==> Some(rejected.reason) == old(self)@.refusal(shard@)
                && rejected.shard == shard,
            final(self)@ == old(self)@.offer(shard@),
    {
        proof {
            use_type_invariant(&*self);
            use_type_invariant(&shard);
        }
        if shard.storage_id() != self.storage_id || shard.end_offset() > self.taken {
            return Err(Rejected { reason: InitError::WrongVec, shard });
        }
        if shard.output_offset() != shard.end_offset() {
            return Err(Rejected { reason: InitError::UninitElements, shard });
        }
        if self.storage.len() != shard.start_offset() {
            return Err(Rejected { reason: InitError::OutOfOrder, shard });
        }
        let mut values = shard.into_values();
        // The buffer is taken out while it grows: a writer over an empty
        // buffer is well formed, so the writer is well formed at every point
        // in between. The allocation, and with it the capacity, moves along.
        let mut buffer = Vec::new();
        std::mem::swap(&mut *self.storage, &mut buffer);
        buffer.append(&mut values);
        std::mem::swap(&mut *self.storage, &mut buffer);
        Ok(())
    }
}

} // verus!
