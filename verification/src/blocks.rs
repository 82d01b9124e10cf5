//! Work on the byte blocks that shards are made of: cutting a payload into blocks,
//! joining blocks into a payload, and counting the blocks that are there.
use crate::layout::{data_shard, joined, lemma_position, shard_size};
use crate::reed_solomon::present_count;
use vstd::arithmetic::div_mod::{lemma_fundamental_div_mod, lemma_fundamental_div_mod_converse};
use vstd::prelude::*;
use vstd::slice::{slice_subrange, slice_to_vec};

verus! {

/// The deep view of a byte vector is its view.
pub(crate) proof fn lemma_bytes_deep_view(bytes: Vec<u8>)
    ensures
        bytes.deep_view() == bytes@,
{
    assert(bytes.deep_view() =~= bytes@);
}

/// The bytes of each block of a list.
pub(crate) open spec fn block_bytes(blocks: Seq<Vec<u8>>) -> Seq<Seq<u8>> {
    Seq::new(blocks.len(), |i: int| blocks[i]@)
}

/// The deep view of a list of blocks holds the bytes of each.
pub(crate) proof fn lemma_blocks_deep_view(blocks: Vec<Vec<u8>>)
    ensures
        blocks.deep_view() == block_bytes(blocks@),
{
    assert forall|i: int| 0 <= i < blocks@.len() implies #[trigger] blocks.deep_view()[i]
        == blocks@[i]@ by {
        lemma_bytes_deep_view(blocks@[i]);
    }
    assert(blocks.deep_view() =~= block_bytes(blocks@));
}

/// The bytes of each present block of a list of slots.
pub(crate) open spec fn slot_bytes(have: Seq<Option<Vec<u8>>>) -> Seq<Option<Seq<u8>>> {
    Seq::new(
        have.len(),
        |i: int|
            match have[i] {
                Some(block) => Some(block@),
                None => None,
            },
    )
}

/// The slot holds exactly the bytes that are wanted, or nothing where none are.
pub(crate) open spec fn holds(slot: Option<Vec<u8>>, want: Option<Seq<u8>>) -> bool {
    match slot {
        Some(block) => want == Some(block@),
        None => want is None,
    }
}

/// The deep view of a list of slots holds the bytes of each present block.
pub(crate) proof fn lemma_slots_deep_view(have: Vec<Option<Vec<u8>>>)
    ensures
        have.deep_view() == slot_bytes(have@),
{
    assert forall|i: int| 0 <= i < have@.len() implies #[trigger] have.deep_view()[i]
        == slot_bytes(have@)[i] by {
        if let Some(block) = have@[i] {
            lemma_bytes_deep_view(block);
        }
    }
    assert(have.deep_view() =~= slot_bytes(have@));
}

/// Counting the present shards of one more slot adds one if that slot holds a shard.
pub(crate) proof fn lemma_present_count_step(slots: Seq<Option<Seq<u8>>>, i: int)
    requires
        0 <= i < slots.len(),
    ensures
        present_count(slots.take(i + 1)) == present_count(slots.take(i)) + if slots[i] is Some {
            1nat
        } else {
            0nat
        },
{
    assert(slots.take(i + 1).drop_last() =~= slots.take(i));
}

/// There are no more present shards than slots, and as many only if every slot holds one.
pub(crate) proof fn lemma_present_count_bound(slots: Seq<Option<Seq<u8>>>)
    ensures
        present_count(slots) <= slots.len(),
        present_count(slots) == slots.len() ==> forall|i: int|
            0 <= i < slots.len() ==> (#[trigger] slots[i]) is Some,
    decreases slots.len(),
{
    if slots.len() > 0 {
        lemma_present_count_bound(slots.drop_last());
        if present_count(slots) == slots.len() {
            assert forall|i: int| 0 <= i < slots.len() implies (#[trigger] slots[i]) is Some by {
                if i < slots.len() - 1 {
                    assert(slots.drop_last()[i] == slots[i]);
                }
            }
        }
    }
}

/// Reads the first `payload_len` bytes off the first `k` blocks, each `size` bytes long.
pub(crate) fn join_blocks(have: &Vec<Option<Vec<u8>>>, k: usize, size: usize, payload_len: usize) -> (out:
    Vec<u8>)
    requires
        k <= have@.len(),
        size >= 1,
        payload_len <= k * size,
        forall|i: int| 0 <= i < k ==> (#[trigger] have@[i]) is Some,
        forall|i: int| 0 <= i < k ==> (#[trigger] have@[i])->Some_0@.len() == size,
    ensures
        out@ == joined(
            Seq::new(k as nat, |i: int| have@[i]->Some_0@),
            size as nat,
            payload_len as nat,
        ),
{
    let ghost blocks = Seq::new(k as nat, |i: int| have@[i]->Some_0@);
    let mut out: Vec<u8> = Vec::new();
    let mut i: usize = 0;
    while i < k && out.len() < payload_len
        invariant
            i <= k,
            k <= have@.len(),
            size >= 1,
            payload_len <= k * size,
            blocks == Seq::new(k as nat, |i: int| have@[i]->Some_0@),
            forall|b: int| 0 <= b < k ==> (#[trigger] have@[b]) is Some,
            forall|b: int| 0 <= b < k ==> (#[trigger] have@[b])->Some_0@.len() == size,
            out@.len() <= payload_len,
            out@.len() as int == if i * size <= payload_len {
                i * size
            } else {
                payload_len as int
            },
            forall|p: int|
                0 <= p < out@.len() ==> #[trigger] out@[p] == blocks[p / (size as int)][p % (
                size as int)],
        decreases k - i,
    {
        let ghost before = out@;
        match &have[i] {
            Some(block) => {
                let room = payload_len - out.len();
                let take = if size <= room {
                    size
                } else {
                    room
                };
                out.extend_from_slice(slice_subrange(block.as_slice(), 0, take));
                proof {
                    assert((i + 1) * size == i * size + size) by (nonlinear_arith);
                    assert forall|p: int| 0 <= p < out@.len() implies #[trigger] out@[p]
                        == blocks[p / (size as int)][p % (size as int)] by {
                        if p >= before.len() {
                            let j = p - before.len();
                            assert(cloned::<u8>(block@.subrange(0, take as int)[j], out@[p]));
                            lemma_position(size as nat, i as int, j);
                            assert(blocks[i as int] == block@);
                        } else {
                            assert(out@[p] == before[p]);
                        }
                    }
                }
            },
            None => {},
        }
        i += 1;
    }
    proof {
        if i == k {
            assert(i * size == k * size);
        }
        assert(out@ =~= joined(blocks, size as nat, payload_len as nat));
    }
    out
}

/// The rounded-up quotient of a payload length by a shard count.
pub(crate) fn shard_len(payload_len: usize, k: usize) -> (size: usize)
    requires
        k >= 1,
    ensures
        size == shard_size(payload_len as nat, k as nat),
{
    let q = payload_len / k;
    let r = payload_len % k;
    proof {
        lemma_fundamental_div_mod(payload_len as int, k as int);
        assert(q * k == k * q) by (nonlinear_arith);
        if r == 0 {
            lemma_fundamental_div_mod_converse(
                payload_len + k - 1,
                k as int,
                q as int,
                k as int - 1,
            );
        } else {
            assert(k * (q + 1) == k * q + k) by (nonlinear_arith);
            lemma_fundamental_div_mod_converse(
                payload_len + k - 1,
                k as int,
                q as int + 1,
                r as int - 1,
            );
            assert(q <= k * q) by (nonlinear_arith)
                requires
                    k >= 1,
                    q >= 0,
            ;
        }
    }
    if r == 0 {
        q
    } else {
        q + 1
    }
}

/// Cuts block `i` out of the payload: `size` bytes from `offset` on, padded with zeros
/// where the payload ends.
pub(crate) fn cut_block(data: &[u8], k: usize, size: usize, i: usize, offset: usize) -> (block: Vec<u8>)
    requires
        k >= 1,
        size == shard_size(data@.len(), k as nat),
        offset <= data@.len(),
        offset as int == if i * size <= data@.len() {
            i * size
        } else {
            data@.len() as int
        },
    ensures
        block@ == data_shard(data@, k as nat, i as int),
{
    let len = data.len();
    let take = if size <= len - offset {
        size
    } else {
        len - offset
    };
    let mut block = slice_to_vec(slice_subrange(data, offset, offset + take));
    let ghost head = block@;
    block.resize(size, 0u8);
    proof {
        let want = data_shard(data@, k as nat, i as int);
        assert(block@.len() == size);
        assert forall|j: int| 0 <= j < size implies block@[j] == want[j] by {
            if j < take {
                assert(block@.subrange(0, take as int)[j] == head[j]);
                assert(head[j] == data@[offset + j]);
            } else {
                assert(cloned::<u8>(0u8, block@[j]));
            }
        }
        assert(block@ =~= want);
    }
    block
}

} // verus!
