//! What follows from the model: the laws of handing out shards and of taking
//! them back, each proved from the transitions in `model`.

use vstd::prelude::*;
use crate::error::InitError;
use crate::model::ShardState;
use crate::model::WriterState;

verus! {

/// The writer after the requests `sizes` were made of it, in turn.
pub open spec fn after_requests<T>(writer: WriterState<T>, sizes: Seq<nat>) -> WriterState<T>
    decreases sizes.len(),
{
    if sizes.len() == 0 {
        writer
    } else {
        after_requests(writer, sizes.drop_last()).request(sizes.last())
    }
}

/// The sum of those of the requests `sizes` that were granted.
pub open spec fn granted_total<T>(writer: WriterState<T>, sizes: Seq<nat>) -> nat
    decreases sizes.len(),
{
    if sizes.len() == 0 {
        0
    } else if after_requests(writer, sizes.drop_last()).can_take(sizes.last()) {
        granted_total(writer, sizes.drop_last()) + sizes.last()
    } else {
        granted_total(writer, sizes.drop_last())
    }
}

/// Whether request `i` of `sizes` is granted.
pub open spec fn granted<T>(writer: WriterState<T>, sizes: Seq<nat>, i: int) -> bool {
    after_requests(writer, sizes.take(i)).can_take(sizes[i])
}

/// The shard that request `i` of `sizes` hands out, if it is granted.
pub open spec fn shard_of<T>(writer: WriterState<T>, sizes: Seq<nat>, i: int) -> ShardState<T> {
    after_requests(writer, sizes.take(i)).next_shard(sizes[i])
}

/// `shard` with `values` written to it.
pub open spec fn filled<T>(shard: ShardState<T>, values: Seq<T>) -> ShardState<T> {
    ShardState { values, ..shard }
}

/// The writer after all of `sizes` were requested and then, of the first `k`
/// requests, each granted shard was offered back in turn, shard `i` holding
/// `fills[i]`.
pub open spec fn after_returns<T>(
    writer: WriterState<T>,
    sizes: Seq<nat>,
    fills: Seq<Seq<T>>,
    k: int,
) -> WriterState<T>
    decreases k,
{
    if k <= 0 {
        after_requests(writer, sizes)
    } else if granted(writer, sizes, k - 1) {
        after_returns(writer, sizes, fills, k - 1).offer(
            filled(shard_of(writer, sizes, k - 1), fills[k - 1]),
        )
    } else {
        after_returns(writer, sizes, fills, k - 1)
    }
}

/// The values of the granted shards among the first `k`, in order.
pub open spec fn granted_values<T>(
    writer: WriterState<T>,
    sizes: Seq<nat>,
    fills: Seq<Seq<T>>,
    k: int,
) -> Seq<T>
    decreases k,
{
    if k <= 0 {
        Seq::empty()
    } else if granted(writer, sizes, k - 1) {
        granted_values(writer, sizes, fills, k - 1) + fills[k - 1]
    } else {
        granted_values(writer, sizes, fills, k - 1)
    }
}

/// A request changes nothing of a writer but what is handed out, and keeps
/// it well formed.
pub proof fn lemma_request_keeps_writer<T>(writer: WriterState<T>, n: nat)
    requires
        writer.wf(),
    ensures
        writer.request(n).wf(),
        writer.request(n).storage == writer.storage,
        writer.request(n).capacity == writer.capacity,
        writer.request(n).buffer == writer.buffer,
        writer.request(n).taken >= writer.taken,
{
}

/// A shard that is handed out is empty, well formed, and lies in what was
/// spare capacity: at or above the buffer's length, at or below its capacity.
pub proof fn lemma_shard_in_spare_capacity<T>(writer: WriterState<T>, n: nat)
    requires
        writer.wf(),
        writer.can_take(n),
    ensures
        writer.next_shard(n).wf(),
        writer.next_shard(n).size() == n,
        writer.next_shard(n).cursor() == writer.next_shard(n).start,
        writer.buffer.len() <= writer.next_shard(n).start,
        writer.next_shard(n).end <= writer.capacity,
        writer.take(n).issued(writer.next_shard(n)),
{
}

/// Offering a shard keeps the writer well formed, whether it takes the shard
/// or not, and changes nothing of it but the buffer.
pub proof fn lemma_offer_keeps_writer<T>(writer: WriterState<T>, shard: ShardState<T>)
    requires
        writer.wf(),
        shard.wf(),
    ensures
        writer.offer(shard).wf(),
        writer.offer(shard).storage == writer.storage,
        writer.offer(shard).capacity == writer.capacity,
        writer.offer(shard).taken == writer.taken,
        writer.accepts(shard) ==> writer.offer(shard).buffer.len() == shard.end,
        !writer.accepts(shard) ==> writer.offer(shard) == writer,
{
}

/// A writer that has handed out a shard goes on treating it as its own,
/// whatever it is asked for or offered afterwards, and whatever is written to
/// the shard.
pub proof fn lemma_issued_is_kept<T>(
    writer: WriterState<T>,
    shard: ShardState<T>,
    n: nat,
    other: ShardState<T>,
    value: T,
)
    requires
        writer.issued(shard),
    ensures
        writer.request(n).issued(shard),
        writer.offer(other).issued(shard),
        writer.issued(shard.push(value)),
{
}

/// What is handed out after a run of requests is what was handed out before
/// plus the requests that were granted. Nothing else of the writer changes.
pub proof fn lemma_requests_add_up<T>(writer: WriterState<T>, sizes: Seq<nat>)
    requires
        writer.wf(),
    ensures
        after_requests(writer, sizes).taken == writer.taken + granted_total(writer, sizes),
        after_requests(writer, sizes).wf(),
        after_requests(writer, sizes).storage == writer.storage,
        after_requests(writer, sizes).capacity == writer.capacity,
        after_requests(writer, sizes).buffer == writer.buffer,
    decreases sizes.len(),
{
    if sizes.len() > 0 {
        lemma_requests_add_up(writer, sizes.drop_last());
    }
}

/// What is handed out only grows as more requests are made.
pub proof fn lemma_requests_grow<T>(writer: WriterState<T>, sizes: Seq<nat>, i: int, j: int)
    requires
        0 <= i <= j <= sizes.len(),
    ensures
        after_requests(writer, sizes.take(i)).taken <= after_requests(writer, sizes.take(j)).taken,
    decreases j - i,
{
    if i < j {
        lemma_requests_grow(writer, sizes, i, j - 1);
        assert(sizes.take(j).drop_last() == sizes.take(j - 1));
        assert(sizes.take(j).last() == sizes[j - 1]);
    }
}

/// Allocation: request `i` of a run is granted exactly if what was handed out
/// before the run, plus the earlier requests that were granted, plus this
/// request fits in the capacity. The shard it hands out starts where the
/// earlier granted requests end, and ends where they and itself end.
pub proof fn lemma_allocation_sequence<T>(writer: WriterState<T>, sizes: Seq<nat>, i: int)
    requires
        writer.wf(),
        0 <= i < sizes.len(),
    ensures
        granted(writer, sizes, i) <==> writer.taken + granted_total(writer, sizes.take(i))
            + sizes[i] <= writer.capacity,
        granted(writer, sizes, i) ==> shard_of(writer, sizes, i).start == writer.taken
            + granted_total(writer, sizes.take(i)),
        granted(writer, sizes, i) ==> shard_of(writer, sizes, i).end == writer.taken
            + granted_total(writer, sizes.take(i + 1)),
        granted(writer, sizes, i) ==> shard_of(writer, sizes, i).storage == writer.storage,
        granted(writer, sizes, i) ==> shard_of(writer, sizes, i).values.len() == 0,
        !granted(writer, sizes, i) ==> granted_total(writer, sizes.take(i + 1)) == granted_total(
            writer,
            sizes.take(i),
        ),
{
    lemma_requests_add_up(writer, sizes.take(i));
    assert(sizes.take(i + 1).drop_last() == sizes.take(i));
    assert(sizes.take(i + 1).last() == sizes[i]);
}

/// Disjointness: two shards handed out by one writer have no offset in
/// common; the one requested first ends at or before the start of the other.
pub proof fn lemma_shards_disjoint<T>(writer: WriterState<T>, sizes: Seq<nat>, i: int, j: int)
    requires
        writer.wf(),
        0 <= i < j < sizes.len(),
        granted(writer, sizes, i),
        granted(writer, sizes, j),
    ensures
        shard_of(writer, sizes, i).end <= shard_of(writer, sizes, j).start,
        shard_of(writer, sizes, i).disjoint(shard_of(writer, sizes, j)),
{
    lemma_requests_grow(writer, sizes, i + 1, j);
    assert(sizes.take(i + 1).drop_last() == sizes.take(i));
    assert(sizes.take(i + 1).last() == sizes[i]);
}

/// Order: a full shard of the writer's own that does not start at the
/// buffer's length is refused as out of order, and the writer stays as it
/// was.
pub proof fn lemma_out_of_order_refused<T>(writer: WriterState<T>, shard: ShardState<T>)
    requires
        writer.issued(shard),
        shard.is_full(),
        shard.start != writer.buffer.len(),
    ensures
        writer.refusal(shard) == Some(InitError::OutOfOrder),
        writer.offer(shard) == writer,
{
}

/// A shard of the writer's own with an offset left to fill is refused as not
/// initialised, wherever it starts, and the writer stays as it was.
pub proof fn lemma_incomplete_refused<T>(writer: WriterState<T>, shard: ShardState<T>)
    requires
        writer.issued(shard),
        !shard.is_full(),
    ensures
        writer.refusal(shard) == Some(InitError::UninitElements),
        writer.offer(shard) == writer,
{
}

/// Cross-writer rejection: a shard that names another buffer is refused as
/// belonging to another writer, however full and wherever it starts, and the
/// writer stays as it was.
pub proof fn lemma_foreign_shard_refused<T>(writer: WriterState<T>, shard: ShardState<T>)
    requires
        shard.storage != writer.storage,
    ensures
        writer.refusal(shard) == Some(InitError::WrongVec),
        writer.offer(shard) == writer,
{
}

/// Cross-writer rejection, between two writers: what one of them hands out,
/// the other refuses, however it is filled, as long as the two are over
/// different buffers.
pub proof fn lemma_other_writers_shard_refused<T>(
    owner: WriterState<T>,
    other: WriterState<T>,
    n: nat,
    values: Seq<T>,
)
    requires
        owner.storage != other.storage,
    ensures
        other.refusal(filled(owner.next_shard(n), values)) == Some(InitError::WrongVec),
{
}

/// Round trip: a value written to a shard at offset `o` is the value at index
/// `o` of the buffer once the writer has taken the shard back, whatever was
/// written to the shard afterwards. What the buffer held before, it still
/// holds.
pub proof fn lemma_round_trip<T>(
    writer: WriterState<T>,
    shard: ShardState<T>,
    value: T,
    later: Seq<T>,
)
    requires
        writer.accepts(filled(shard.push(value), shard.push(value).values + later)),
    ensures
        ({
            let returned = filled(shard.push(value), shard.push(value).values + later);
            let after = writer.commit(returned);
            &&& after.buffer[shard.cursor() as int] == value
            &&& after.buffer.len() == returned.end
            &&& forall|o: int| returned.holds(o) ==> after.buffer[o] == returned.value_at(o)
            &&& forall|o: int| 0 <= o < writer.buffer.len() ==> after.buffer[o] == writer.buffer[o]
        }),
{
}

/// Commit in allocation order: let a writer with nothing outstanding be asked
/// for `sizes` in turn, and let each shard it hands out be filled. Then each
/// shard, offered back after those requested before it, is taken: the buffer
/// ends where the shard starts. Once the first `k` are back, the buffer holds
/// what it held before and then their values, shard after shard.
pub proof fn lemma_commit_in_allocation_order<T>(
    writer: WriterState<T>,
    sizes: Seq<nat>,
    fills: Seq<Seq<T>>,
    k: int,
)
    requires
        writer.wf(),
        writer.taken == writer.buffer.len(),
        fills.len() == sizes.len(),
        forall|i: int| 0 <= i < sizes.len() ==> (#[trigger] fills[i]).len() == sizes[i],
        0 <= k <= sizes.len(),
    ensures
        after_returns(writer, sizes, fills, k).buffer == writer.buffer + granted_values(
            writer,
            sizes,
            fills,
            k,
        ),
        after_returns(writer, sizes, fills, k).buffer.len() == after_requests(
            writer,
            sizes.take(k),
        ).taken,
        after_returns(writer, sizes, fills, k).taken == after_requests(writer, sizes).taken,
        after_returns(writer, sizes, fills, k).storage == writer.storage,
        k < sizes.len() && granted(writer, sizes, k) ==> after_returns(
            writer,
            sizes,
            fills,
            k,
        ).accepts(filled(shard_of(writer, sizes, k), fills[k])),
    decreases k,
{
    lemma_requests_add_up(writer, sizes);
    lemma_requests_add_up(writer, sizes.take(k));
    if k == 0 {
        assert(sizes.take(0) == Seq::<nat>::empty());
    } else {
        lemma_commit_in_allocation_order(writer, sizes, fills, k - 1);
        lemma_requests_add_up(writer, sizes.take(k - 1));
        assert(sizes.take(k).drop_last() == sizes.take(k - 1));
        assert(sizes.take(k).last() == sizes[k - 1]);
        lemma_requests_grow(writer, sizes, k, sizes.len() as int);
        assert(sizes.take(sizes.len() as int) == sizes);
    }
    if k < sizes.len() {
        lemma_requests_grow(writer, sizes, k + 1, sizes.len() as int);
        assert(sizes.take(sizes.len() as int) == sizes);
        assert(sizes.take(k + 1).drop_last() == sizes.take(k));
        assert(sizes.take(k + 1).last() == sizes[k]);
    }
}

} // verus!
