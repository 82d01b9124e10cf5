//! What holds of encoding and reconstruction taken together.
use crate::erasure_coding::{
    consistent, encoded_bytes, encoded_set, encoded_shard, fits, lemma_encoded_shard_fits,
    reconstruct_outcome, recovered_bytes, usable, usable_bytes, usable_count, valid_parameters,
    ErasureError, ShardSet, ShardView,
};
use crate::integrity::intact;
use crate::layout::{
    data_shards_of, joined, lemma_joined_data_shards, lemma_position_in_range,
    lemma_shard_size_bounds, shard_size,
};
use vstd::prelude::*;

verus! {

/// The slots in which every shard of a set is present.
pub open spec fn all_slots(shards: Seq<ShardView>) -> Seq<Option<ShardView>> {
    Seq::new(shards.len(), |i: int| Some(shards[i]))
}

/// The number of empty slots.
pub open spec fn absent_count(slots: Seq<Option<ShardView>>) -> nat
    decreases slots.len(),
{
    if slots.len() == 0 {
        0
    } else {
        absent_count(slots.drop_last()) + if slots.last() is None {
            1nat
        } else {
            0nat
        }
    }
}

/// Every slot is empty or holds the shard of the encoding of `payload` at its position.
pub open spec fn left_of_encoding(
    slots: Seq<Option<ShardView>>,
    payload: Seq<u8>,
    k: nat,
    m: nat,
) -> bool {
    &&& slots.len() == k + m
    &&& forall|i: int|
        0 <= i < slots.len() ==> (#[trigger] slots[i]) is None || slots[i] == Some(
            encoded_shard(payload, k, m, i),
        )
}

/// Where every present shard is intact, the usable and the absent shards make up all
/// slots.
pub proof fn lemma_usable_and_absent(slots: Seq<Option<ShardView>>)
    requires
        forall|i: int| 0 <= i < slots.len() && (#[trigger] slots[i]) is Some ==> usable(slots[i]),
    ensures
        usable_count(slots) + absent_count(slots) == slots.len(),
    decreases slots.len(),
{
    if slots.len() > 0 {
        let front = slots.drop_last();
        assert forall|i: int| 0 <= i < front.len() && (#[trigger] front[i]) is Some implies usable(
            front[i],
        ) by {
            assert(front[i] == slots[i]);
        }
        lemma_usable_and_absent(front);
        assert(usable_bytes(slots).drop_last() =~= usable_bytes(front));
    }
}

/// Reconstructing from all shards of an encoding, with the payload length that the
/// encoding carries, gives the payload back.
pub proof fn round_trip(payload: Seq<u8>, k: nat, m: nat)
    requires
        valid_parameters(k, m),
        payload.len() >= 1,
    ensures
        reconstruct_outcome(
            all_slots(encoded_set(payload, k, m).shards),
            k,
            m,
            encoded_set(payload, k, m).payload_len,
        ) == Ok::<Seq<u8>, ErasureError>(payload),
{
    let slots = all_slots(encoded_set(payload, k, m).shards);
    let size = shard_size(payload.len(), k);
    assert forall|i: int| 0 <= i < slots.len() implies usable(#[trigger] slots[i]) by {
        lemma_encoded_shard_fits(payload, k, m, i);
    }
    assert(consistent(slots, k, m, payload.len())) by {
        assert forall|i: int| 0 <= i < slots.len() implies fits(
            (#[trigger] slots[i])->Some_0,
            i,
            k,
            size,
        ) by {
            lemma_encoded_shard_fits(payload, k, m, i);
        }
    }
    lemma_usable_and_absent(slots);
    lemma_no_slot_absent(slots);
    let all = recovered_bytes(slots, k);
    let data = data_shards_of(payload, k);
    lemma_shard_size_bounds(payload.len(), k);
    assert forall|p: int| 0 <= p < payload.len() implies joined(all, size, payload.len())[p]
        == joined(data, size, payload.len())[p] by {
        lemma_position_in_range(size, k, p);
        let i = p / (size as int);
        assert(usable(slots[i]));
        assert(all[i] == encoded_bytes(payload, k, m)[i]);
    }
    assert(joined(all, size, payload.len()) =~= joined(data, size, payload.len()));
    lemma_joined_data_shards(payload, k);
}

/// Where every slot holds a shard, none is absent.
pub proof fn lemma_no_slot_absent(slots: Seq<Option<ShardView>>)
    requires
        forall|i: int| 0 <= i < slots.len() ==> (#[trigger] slots[i]) is Some,
    ensures
        absent_count(slots) == 0,
    decreases slots.len(),
{
    if slots.len() > 0 {
        let front = slots.drop_last();
        assert forall|i: int| 0 <= i < front.len() implies (#[trigger] front[i]) is Some by {
            assert(front[i] == slots[i]);
        }
        lemma_no_slot_absent(front);
    }
}

/// With more than `m` shards of an encoding missing, reconstruction fails for want of
/// shards, and reports how many are left.
pub proof fn over_loss(slots: Seq<Option<ShardView>>, payload: Seq<u8>, k: nat, m: nat)
    requires
        valid_parameters(k, m),
        payload.len() >= 1,
        left_of_encoding(slots, payload, k, m),
        absent_count(slots) >= m + 1,
    ensures
        reconstruct_outcome(slots, k, m, payload.len()) == Err::<Seq<u8>, ErasureError>(
            ErasureError::InsufficientShards {
                available: (k + m - absent_count(slots)) as usize,
                required: k as usize,
            },
        ),
{
    let size = shard_size(payload.len(), k);
    assert forall|i: int| 0 <= i < slots.len() && (#[trigger] slots[i]) is Some implies usable(
        slots[i],
    ) && fits(slots[i]->Some_0, i, k, size) by {
        lemma_encoded_shard_fits(payload, k, m, i);
    }
    lemma_usable_and_absent(slots);
}

/// A shard that does not match its checksum counts exactly as an absent one: the
/// outcome is that of the same slots with this one empty.
pub proof fn corruption_is_loss(
    slots: Seq<Option<ShardView>>,
    k: nat,
    m: nat,
    payload_len: nat,
    i: int,
)
    requires
        0 <= i < slots.len(),
        slots[i] is Some,
        !intact(slots[i]->Some_0),
    ensures
        reconstruct_outcome(slots, k, m, payload_len) == reconstruct_outcome(
            slots.update(i, None),
            k,
            m,
            payload_len,
        ),
{
    let without = slots.update(i, None);
    assert(usable_bytes(slots) =~= usable_bytes(without));
    assert(consistent(slots, k, m, payload_len) == consistent(without, k, m, payload_len)) by {
        if consistent(slots, k, m, payload_len) {
            assert forall|j: int| 0 <= j < without.len() && usable(#[trigger] without[j])
                implies fits(
                without[j]->Some_0,
                j,
                k,
                shard_size(payload_len, k),
            ) by {
                assert(without[j] == slots[j]);
            }
        }
        if consistent(without, k, m, payload_len) {
            assert forall|j: int| 0 <= j < slots.len() && usable(#[trigger] slots[j])
                implies fits(
                slots[j]->Some_0,
                j,
                k,
                shard_size(payload_len, k),
            ) by {
                assert(without[j] == slots[j]);
            }
        }
    }
    assert(recovered_bytes(slots, k) =~= recovered_bytes(without, k));
}

/// Encoding is a function of its inputs: two shard sets made from one payload with the
/// same shard counts agree in every shard, byte for byte, and in every checksum.
pub proof fn encoding_is_deterministic(
    first: ShardSet,
    second: ShardSet,
    payload: Seq<u8>,
    k: nat,
    m: nat,
)
    requires
        first@ == encoded_set(payload, k, m),
        second@ == encoded_set(payload, k, m),
    ensures
        first@ == second@,
        first.shards@.len() == second.shards@.len(),
        forall|i: int|
            0 <= i < first.shards@.len() ==> (#[trigger] first.shards@[i]).data@
                == second.shards@[i].data@ && first.shards@[i].checksum@
                == second.shards@[i].checksum@,
{
    assert(first@.shards.len() == first.shards@.len());
    assert(second@.shards.len() == second.shards@.len());
    assert forall|i: int| 0 <= i < first.shards@.len() implies (#[trigger] first.shards@[i]).data@
        == second.shards@[i].data@ && first.shards@[i].checksum@ == second.shards@[i].checksum@ by {
        assert(first@.shards[i] == first.shards@[i]@);
        assert(second@.shards[i] == second.shards@[i]@);
    }
}

} // verus!
