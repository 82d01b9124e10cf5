//! Per-shard checksums: computing them, and sorting shards into usable and unusable.
use crate::erasure_coding::{usable_bytes, usable_count, ErasureError, Shard, ShardView};
use vstd::prelude::*;

verus! {

/// The BLAKE3 hash of a byte string: 32 bytes that are a function of the bytes alone.
pub uninterp spec fn content_hash(bytes: Seq<u8>) -> Seq<u8>;

/// Calls `blake3::hash` and hands its 32 output bytes back.
#[verifier::external_body]
pub(crate) fn content_checksum(bytes: &[u8]) -> (digest: Vec<u8>)
    ensures
        digest@ == content_hash(bytes@),
        digest@.len() == 32,
{
    blake3::hash(bytes).as_bytes().to_vec()
}

/// A shard is intact when the checksum it carries is the hash of the bytes it carries.
pub open spec fn intact(shard: ShardView) -> bool {
    shard.checksum == content_hash(shard.data)
}

/// Recomputes the checksum of the shard's bytes and compares it with the stored one.
pub fn validate(shard: &Shard) -> (ok: bool)
    ensures
        ok == intact(shard@),
{
    let digest = content_checksum(shard.data.as_slice());
    same_bytes(&digest, &shard.checksum)
}

/// Like `validate`, with the failure as an error that names the shard.
pub fn verify(shard: &Shard) -> (r: Result<(), ErasureError>)
    ensures
        intact(shard@) ==> r is Ok,
        !intact(shard@) ==> r == Err::<(), ErasureError>(
            ErasureError::CorruptShard { index: shard.index },
        ),
{
    if validate(shard) {
        Ok(())
    } else {
        Err(ErasureError::CorruptShard { index: shard.index })
    }
}

/// Why a slot holds no usable shard.
#[derive(Clone, Copy, Debug, PartialEq, Eq, Structural)]
pub enum UnusableReason {
    /// The slot is empty.
    Absent,
    /// The shard in the slot does not match its checksum.
    ChecksumMismatch,
}

/// A slot without a usable shard.
#[derive(Clone, Copy, Debug, PartialEq, Eq, Structural)]
pub struct UnusableShard {
    /// The position of the slot.
    pub index: usize,
    pub reason: UnusableReason,
}

/// The slots of a reconstruction, sorted into usable and unusable ones.
#[derive(Clone, Debug, PartialEq, Eq)]
pub struct Classification {
    /// The positions of the slots that hold an intact shard, in rising order.
    pub usable: Vec<usize>,
    /// The other slots, in rising order, each with the reason.
    pub unusable: Vec<UnusableShard>,
}

/// What is wrong with a slot, if anything.
pub open spec fn defect(slot: Option<ShardView>) -> Option<UnusableReason> {
    match slot {
        None => Some(UnusableReason::Absent),
        Some(shard) => if intact(shard) {
            None
        } else {
            Some(UnusableReason::ChecksumMismatch)
        },
    }
}

/// The positions among the first `n` slots that hold an intact shard, in rising order.
pub open spec fn usable_positions(slots: Seq<Option<ShardView>>, n: nat) -> Seq<usize>
    decreases n,
{
    if n == 0 {
        Seq::empty()
    } else if defect(slots[n - 1]) is None {
        usable_positions(slots, (n - 1) as nat).push((n - 1) as usize)
    } else {
        usable_positions(slots, (n - 1) as nat)
    }
}

/// Those among the first `n` slots that hold no intact shard, in rising order.
pub open spec fn unusable_entries(slots: Seq<Option<ShardView>>, n: nat) -> Seq<UnusableShard>
    decreases n,
{
    if n == 0 {
        Seq::empty()
    } else if defect(slots[n - 1]) is Some {
        unusable_entries(slots, (n - 1) as nat).push(
            UnusableShard { index: (n - 1) as usize, reason: defect(slots[n - 1])->Some_0 },
        )
    } else {
        unusable_entries(slots, (n - 1) as nat)
    }
}

/// Each of the first `n` slots is in exactly one of the two lists, and the usable ones
/// are as many as reconstruction counts.
pub proof fn lemma_classes_partition(slots: Seq<Option<ShardView>>, n: nat)
    requires
        n <= slots.len(),
    ensures
        usable_positions(slots, n).len() + unusable_entries(slots, n).len() == n,
        usable_positions(slots, n).len() == usable_count(slots.take(n as int)),
    decreases n,
{
    if n > 0 {
        lemma_classes_partition(slots, (n - 1) as nat);
        let front = slots.take(n as int);
        assert(usable_bytes(front).drop_last() =~= usable_bytes(slots.take(n - 1)));
    }
}

/// Sorts the slots into those that hold an intact shard and those that do not. Nothing
/// is refused here: a damaged shard is reported, and counts as absent from then on.
pub fn classify(slots: &Vec<Option<Shard>>) -> (c: Classification)
    ensures
        c.usable@ == usable_positions(slots.deep_view(), slots@.len()),
        c.unusable@ == unusable_entries(slots.deep_view(), slots@.len()),
        c.usable@.len() == usable_count(slots.deep_view()),
        c.usable@.len() + c.unusable@.len() == slots@.len(),
{
    let ghost all = slots.deep_view();
    let mut usable: Vec<usize> = Vec::new();
    let mut unusable: Vec<UnusableShard> = Vec::new();
    let mut i: usize = 0;
    while i < slots.len()
        invariant
            i <= slots@.len(),
            all == slots.deep_view(),
            usable@ == usable_positions(all, i as nat),
            unusable@ == unusable_entries(all, i as nat),
        decreases slots@.len() - i,
    {
        assert(all[i as int] == slots@[i as int].deep_view());
        match &slots[i] {
            Some(shard) => {
                if validate(shard) {
                    usable.push(i);
                } else {
                    unusable.push(
                        UnusableShard { index: i, reason: UnusableReason::ChecksumMismatch },
                    );
                }
            },
            None => {
                unusable.push(UnusableShard { index: i, reason: UnusableReason::Absent });
            },
        }
        i += 1;
    }
    proof {
        lemma_classes_partition(all, slots@.len() as nat);
        assert(all.take(slots@.len() as int) =~= all);
    }
    Classification { usable, unusable }
}

/// Whether two byte strings are equal.
pub fn same_bytes(a: &Vec<u8>, b: &Vec<u8>) -> (equal: bool)
    ensures
        equal == (a@ == b@),
{
    if a.len() != b.len() {
        return false;
    }
    let mut i: usize = 0;
    while i < a.len()
        invariant
            a@.len() == b@.len(),
            i <= a@.len(),
            forall|j: int| 0 <= j < i ==> a@[j] == b@[j],
        decreases a@.len() - i,
    {
        if a[i] != b[i] {
            return false;
        }
        i += 1;
    }
    assert(a@ =~= b@);
    true
}

} // verus!
