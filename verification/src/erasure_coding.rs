//! Shards, the errors of the coder, and the coder itself.
use crate::blocks::{
    block_bytes, cut_block, holds, join_blocks, lemma_blocks_deep_view,
    lemma_present_count_bound, lemma_present_count_step, lemma_slots_deep_view, shard_len,
    slot_bytes,
};
use crate::integrity::{content_checksum, content_hash, intact, validate};
use crate::layout::{
    data_shards_of, joined, lemma_joined_data_shards, lemma_position_in_range,
    lemma_shard_size_bounds, shard_size,
};
use crate::reed_solomon::{
    all_present, codec_data_shards, codec_encode, codec_parity_shards, codec_reconstruct,
    codeword, drawn_from, encodable_data, new_codec, present_count, rs_recovered,
    uniform_present, Codec,
};
use vstd::pervasive::VecAdditionalExecFns;
use vstd::prelude::*;

verus! {

/// Whether a shard carries a slice of the payload or redundancy computed from it.
#[derive(Clone, Copy, Debug, PartialEq, Eq, Structural)]
pub enum ShardType {
    Data,
    Parity,
}

/// One fragment of an encoded payload.
#[derive(Clone, Debug, PartialEq, Eq)]
pub struct Shard {
    /// The position of the shard in its set, from 0.
    pub index: usize,
    /// The bytes of the shard.
    pub data: Vec<u8>,
    /// The hash of `data`, taken when the shard was made.
    pub checksum: Vec<u8>,
    pub shard_type: ShardType,
}

/// What a shard is, as plain values.
pub struct ShardView {
    pub index: nat,
    pub data: Seq<u8>,
    pub checksum: Seq<u8>,
    pub shard_type: ShardType,
}

impl View for Shard {
    type V = ShardView;

    open spec fn view(&self) -> ShardView {
        ShardView {
            index: self.index as nat,
            data: self.data@,
            checksum: self.checksum@,
            shard_type: self.shard_type,
        }
    }
}

impl DeepView for Shard {
    type V = ShardView;

    open spec fn deep_view(&self) -> ShardView {
        self@
    }
}

/// The shards of one encoding, with the length of the payload they encode. The length is
/// needed to reconstruct: the last data shard may end in padding.
#[derive(Clone, Debug, PartialEq, Eq)]
pub struct ShardSet {
    pub shards: Vec<Shard>,
    pub payload_len: usize,
}

/// What a shard set is, as plain values.
pub struct ShardSetView {
    pub shards: Seq<ShardView>,
    pub payload_len: nat,
}

impl View for ShardSet {
    type V = ShardSetView;

    open spec fn view(&self) -> ShardSetView {
        ShardSetView { shards: self.shards.deep_view(), payload_len: self.payload_len as nat }
    }
}

/// Why the coder refused a request.
#[derive(Clone, Copy, Debug, PartialEq, Eq, Structural)]
pub enum ErasureError {
    /// The shard counts are out of range, or the payload is empty.
    InvalidInput,
    /// Fewer usable shards than data shards.
    InsufficientShards { available: usize, required: usize },
    /// The shard at `index` does not match its checksum.
    CorruptShard { index: usize },
    /// The shards do not fit the shard counts and payload length they were given with.
    ParameterMismatch,
    /// The codec failed on input that it should have accepted.
    EncodingFailure,
}

/// The shard counts that a coder can be made for.
pub open spec fn valid_parameters(k: nat, m: nat) -> bool {
    1 <= k && k + m <= 255
}

/// The kind of the shard at position `index` in a set with `k` data shards.
pub open spec fn kind_at(index: int, k: nat) -> ShardType {
    if index < k {
        ShardType::Data
    } else {
        ShardType::Parity
    }
}

/// The bytes of all `k + m` shards of a payload.
pub open spec fn encoded_bytes(payload: Seq<u8>, k: nat, m: nat) -> Seq<Seq<u8>> {
    codeword(data_shards_of(payload, k), m)
}

/// Shard `i` of the encoding of a payload.
pub open spec fn encoded_shard(payload: Seq<u8>, k: nat, m: nat, i: int) -> ShardView {
    ShardView {
        index: i as nat,
        data: encoded_bytes(payload, k, m)[i],
        checksum: content_hash(encoded_bytes(payload, k, m)[i]),
        shard_type: kind_at(i, k),
    }
}

/// The encoding of a payload with `k` data shards and `m` parity shards.
pub open spec fn encoded_set(payload: Seq<u8>, k: nat, m: nat) -> ShardSetView {
    ShardSetView {
        shards: Seq::new(k + m, |i: int| encoded_shard(payload, k, m, i)),
        payload_len: payload.len(),
    }
}

/// A slot holds a usable shard: one that is present and matches its checksum.
pub open spec fn usable(slot: Option<ShardView>) -> bool {
    slot is Some && intact(slot->Some_0)
}

/// The bytes of the usable shards, each at its position; every other position is empty.
pub open spec fn usable_bytes(slots: Seq<Option<ShardView>>) -> Seq<Option<Seq<u8>>> {
    Seq::new(
        slots.len(),
        |i: int|
            if usable(slots[i]) {
                Some(slots[i]->Some_0.data)
            } else {
                None
            },
    )
}

/// The number of usable shards.
pub open spec fn usable_count(slots: Seq<Option<ShardView>>) -> nat {
    present_count(usable_bytes(slots))
}

/// The shard is what position `i` of a set with `k` data shards and shards of `size`
/// bytes can hold.
pub open spec fn fits(shard: ShardView, i: int, k: nat, size: nat) -> bool {
    shard.index == i && shard.shard_type == kind_at(i, k) && shard.data.len() == size
}

/// There is one slot for each of the `k + m` shards, and every usable shard fits its
/// position and the size that the payload length implies.
pub open spec fn consistent(
    slots: Seq<Option<ShardView>>,
    k: nat,
    m: nat,
    payload_len: nat,
) -> bool {
    &&& slots.len() == k + m
    &&& forall|i: int|
        0 <= i < slots.len() && usable(#[trigger] slots[i]) ==> fits(
            slots[i]->Some_0,
            i,
            k,
            shard_size(payload_len, k),
        )
}

/// The bytes of every shard after recovery: those of a usable shard as they are, those
/// of any other as the codec recovers them from the usable ones.
pub open spec fn recovered_bytes(slots: Seq<Option<ShardView>>, k: nat) -> Seq<Seq<u8>> {
    Seq::new(
        slots.len(),
        |i: int|
            match usable_bytes(slots)[i] {
                Some(bytes) => bytes,
                None => rs_recovered(usable_bytes(slots), k)[i],
            },
    )
}

/// What reconstruction returns for the given slots, shard counts and payload length.
pub open spec fn reconstruct_outcome(
    slots: Seq<Option<ShardView>>,
    k: nat,
    m: nat,
    payload_len: nat,
) -> Result<Seq<u8>, ErasureError> {
    if payload_len == 0 {
        Err(ErasureError::InvalidInput)
    } else if !consistent(slots, k, m, payload_len) {
        Err(ErasureError::ParameterMismatch)
    } else if usable_count(slots) < k {
        Err(
            ErasureError::InsufficientShards {
                available: usable_count(slots) as usize,
                required: k as usize,
            },
        )
    } else {
        Ok(joined(recovered_bytes(slots, k), shard_size(payload_len, k), payload_len))
    }
}

/// Every usable shard in the slots is the shard of the encoding of `payload` at its
/// position: the slots are that encoding with some shards lost or damaged.
pub open spec fn drawn_from_encoding(
    slots: Seq<Option<ShardView>>,
    payload: Seq<u8>,
    k: nat,
    m: nat,
) -> bool {
    &&& slots.len() == k + m
    &&& forall|i: int|
        0 <= i < slots.len() && usable(#[trigger] slots[i]) ==> slots[i] == Some(
            encoded_shard(payload, k, m, i),
        )
}

/// The result of a reconstruction, as plain values.
pub open spec fn outcome_of(r: Result<Vec<u8>, ErasureError>) -> Result<Seq<u8>, ErasureError> {
    match r {
        Ok(bytes) => Ok(bytes@),
        Err(e) => Err(e),
    }
}

/// Each shard of an encoding fits its position and matches its checksum.
pub proof fn lemma_encoded_shard_fits(payload: Seq<u8>, k: nat, m: nat, i: int)
    requires
        k >= 1,
        0 <= i < k + m,
    ensures
        fits(encoded_shard(payload, k, m, i), i, k, shard_size(payload.len(), k)),
        intact(encoded_shard(payload, k, m, i)),
{
}

/// Slots that hold nothing but shards of an encoding are consistent with its shard
/// counts and payload length.
pub proof fn lemma_drawn_is_consistent(
    slots: Seq<Option<ShardView>>,
    payload: Seq<u8>,
    k: nat,
    m: nat,
)
    requires
        k >= 1,
        drawn_from_encoding(slots, payload, k, m),
    ensures
        consistent(slots, k, m, payload.len()),
{
    assert forall|i: int| 0 <= i < slots.len() && usable(#[trigger] slots[i]) implies fits(
        slots[i]->Some_0,
        i,
        k,
        shard_size(payload.len(), k),
    ) by {
        lemma_encoded_shard_fits(payload, k, m, i);
    }
}

/// The number of bytes of a checksum.
pub const CHECKSUM_LEN: usize = 32;

/// Every checksum in the set has the length of a checksum.
pub open spec fn checksums_sized(shards: Seq<ShardView>) -> bool {
    forall|i: int| 0 <= i < shards.len() ==> (#[trigger] shards[i]).checksum.len() == CHECKSUM_LEN
}

/// An encoder and decoder for one pair of shard counts.
pub struct ErasureCoder {
    data_shards: usize,
    parity_shards: usize,
    encoder: Option<Codec>,
}

impl ErasureCoder {
    #[verifier::type_invariant]
    spec fn well_formed(&self) -> bool {
        &&& valid_parameters(self.data_shards as nat, self.parity_shards as nat)
        &&& self.encoder is Some <==> self.parity_shards >= 1
        &&& self.encoder is Some ==> codec_data_shards(self.encoder->Some_0) == self.data_shards
        &&& self.encoder is Some ==> codec_parity_shards(self.encoder->Some_0)
            == self.parity_shards
    }

    /// The number of data shards, `k`.
    pub closed spec fn k(&self) -> nat {
        self.data_shards as nat
    }

    /// The number of parity shards, `m`.
    pub closed spec fn m(&self) -> nat {
        self.parity_shards as nat
    }

    /// Makes a coder for `data_shards` data shards and `parity_shards` parity shards.
    pub fn new(data_shards: usize, parity_shards: usize) -> (r: Result<Self, ErasureError>)
        ensures
            r is Ok <==> valid_parameters(data_shards as nat, parity_shards as nat),
            r is Ok ==> r->Ok_0.k() == data_shards && r->Ok_0.m() == parity_shards,
            r is Err ==> r->Err_0 == ErasureError::InvalidInput,
    {
        if data_shards == 0 || data_shards > 255 || parity_shards > 255 - data_shards {
            return Err(ErasureError::InvalidInput);
        }
        if parity_shards == 0 {
            return Ok(ErasureCoder { data_shards, parity_shards, encoder: None });
        }
        match new_codec(data_shards, parity_shards) {
            Ok(codec) => Ok(ErasureCoder { data_shards, parity_shards, encoder: Some(codec) }),
            Err(_) => Err(ErasureError::InvalidInput),
        }
    }

    /// Splits the payload into `k` data shards, adds `m` parity shards, and gives each its
    /// index, kind and checksum. An empty payload is refused.
    pub fn encode_backup(&self, data: &[u8]) -> (r: Result<ShardSet, ErasureError>)
        ensures
            data@.len() == 0 ==> r is Err && r->Err_0 == ErasureError::InvalidInput,
            data@.len() >= 1 ==> r is Ok && r->Ok_0@ == encoded_set(data@, self.k(), self.m()),
            r is Ok ==> checksums_sized(r->Ok_0@.shards),
    {
        proof {
            use_type_invariant(self);
        }
        let k = self.data_shards;
        let m = self.parity_shards;
        let n = k + m;
        let len = data.len();
        if len == 0 {
            return Err(ErasureError::InvalidInput);
        }
        let size = shard_len(len, k);
        proof {
            lemma_shard_size_bounds(len as nat, k as nat);
        }
        let ghost payload = data@;
        let ghost blocks_of = data_shards_of(payload, k as nat);
        let mut blocks: Vec<Vec<u8>> = Vec::new();
        let mut offset: usize = 0;
        let mut i: usize = 0;
        while i < k
            invariant
                i <= k,
                k >= 1,
                payload == data@,
                len == data@.len(),
                size == shard_size(len as nat, k as nat),
                offset <= len,
                offset as int == if i * size <= len {
                    i * size
                } else {
                    len as int
                },
                blocks@.len() == i,
                forall|b: int| 0 <= b < i ==> (#[trigger] blocks@[b])@ == blocks_of[b],
                blocks_of == data_shards_of(payload, k as nat),
            decreases k - i,
        {
            let block = cut_block(data, k, size, i, offset);
            let take = if size <= len - offset {
                size
            } else {
                len - offset
            };
            proof {
                assert((i + 1) * size == i * size + size) by (nonlinear_arith);
            }
            blocks.push(block);
            offset += take;
            i += 1;
        }
        let mut j: usize = 0;
        while j < m
            invariant
                j <= m,
                k + m == n,
                n <= 255,
                blocks@.len() == k + j,
                blocks_of == data_shards_of(payload, k as nat),
                size == shard_size(len as nat, k as nat),
                payload.len() == len,
                forall|b: int| 0 <= b < k ==> (#[trigger] blocks@[b])@ == blocks_of[b],
                forall|b: int| k <= b < k + j ==> (#[trigger] blocks@[b])@.len() == size,
            decreases m - j,
        {
            let zeros: Vec<u8> = vec![0u8; size];
            blocks.push(zeros);
            j += 1;
        }
        let ghost bytes_of = encoded_bytes(payload, k as nat, m as nat);
        proof {
            lemma_blocks_deep_view(blocks);
            assert(block_bytes(blocks@).take(k as int) =~= blocks_of);
        }
        if m > 0 {
            match &self.encoder {
                Some(codec) => {
                    match codec_encode(codec, &mut blocks) {
                        Ok(()) => {},
                        Err(_) => {
                            return Err(ErasureError::EncodingFailure);
                        },
                    }
                },
                None => {
                    return Err(ErasureError::EncodingFailure);
                },
            }
        }
        proof {
            lemma_blocks_deep_view(blocks);
            assert forall|b: int| 0 <= b < n implies block_bytes(blocks@)[b] =~= bytes_of[b] by {
                if b >= k {
                    assert(block_bytes(blocks@)[b].len() == size);
                    assert(blocks_of[0].len() == size);
                }
            }
            assert(block_bytes(blocks@) =~= bytes_of);
        }
        let mut shards: Vec<Shard> = Vec::new();
        let mut i: usize = 0;
        while i < n
            invariant
                i <= n,
                n == k + m,
                blocks@.len() == n,
                bytes_of == encoded_bytes(payload, k as nat, m as nat),
                forall|b: int| i <= b < n ==> (#[trigger] blocks@[b])@ == bytes_of[b],
                shards@.len() == i,
                forall|b: int|
                    0 <= b < i ==> (#[trigger] shards@[b])@ == encoded_shard(
                        payload,
                        k as nat,
                        m as nat,
                        b,
                    ),
                forall|b: int| 0 <= b < i ==> (#[trigger] shards@[b]).checksum@.len() == CHECKSUM_LEN,
            decreases n - i,
        {
            let mut bytes: Vec<u8> = Vec::new();
            blocks.set_and_swap(i, &mut bytes);
            let checksum = content_checksum(bytes.as_slice());
            let shard_type = if i < k {
                ShardType::Data
            } else {
                ShardType::Parity
            };
            shards.push(Shard { index: i, data: bytes, checksum, shard_type });
            i += 1;
        }
        let set = ShardSet { shards, payload_len: len };
        assert(set@.shards =~= encoded_set(payload, k as nat, m as nat).shards);
        assert forall|b: int| 0 <= b < set@.shards.len() implies (#[trigger] set@.shards[b]).checksum.len()
            == CHECKSUM_LEN by {
            assert(set@.shards[b] == set.shards@[b]@);
        }
        Ok(set)
    }

    /// Rebuilds the payload of `payload_len` bytes from the shards that are left of its
    /// encoding, one slot per shard position.
    ///
    /// A shard that does not match its checksum counts as absent. The call fails with
    /// `InvalidInput` for a payload length of zero, with `ParameterMismatch` where the
    /// number of slots, or the index, kind or size of a usable shard, does not fit the
    /// shard counts and the payload length, and with `InsufficientShards` where fewer than
    /// `k` shards are usable. Otherwise it returns the payload that the codec recovers,
    /// which is the encoded payload whenever the usable shards come from one encoding.
    pub fn reconstruct_backup(
        &self,
        available_shards: Vec<Option<Shard>>,
        payload_len: usize,
    ) -> (r: Result<Vec<u8>, ErasureError>)
        ensures
            outcome_of(r) == reconstruct_outcome(
                available_shards.deep_view(),
                self.k(),
                self.m(),
                payload_len as nat,
            ),
            forall|payload: Seq<u8>|
                payload.len() == payload_len && payload.len() >= 1 && #[trigger] drawn_from_encoding(
                    available_shards.deep_view(),
                    payload,
                    self.k(),
                    self.m(),
                ) && usable_count(available_shards.deep_view()) >= self.k() ==> outcome_of(r)
                    == Ok::<Seq<u8>, ErasureError>(payload),
    {
        proof {
            use_type_invariant(self);
        }
        let ghost slots = available_shards.deep_view();
        let r = self.recover(available_shards, payload_len);
        proof {
            assert forall|payload: Seq<u8>|
                payload.len() == payload_len && payload.len() >= 1 && #[trigger] drawn_from_encoding(
                    slots,
                    payload,
                    self.k(),
                    self.m(),
                ) && usable_count(slots) >= self.k() implies outcome_of(r) == Ok::<
                Seq<u8>,
                ErasureError,
            >(payload) by {
                lemma_drawn_is_consistent(slots, payload, self.k(), self.m());
            }
        }
        r
    }

    fn recover(&self, available_shards: Vec<Option<Shard>>, payload_len: usize) -> (r: Result<
        Vec<u8>,
        ErasureError,
    >)
        ensures
            outcome_of(r) == reconstruct_outcome(
                available_shards.deep_view(),
                self.k(),
                self.m(),
                payload_len as nat,
            ),
            r is Ok ==> forall|payload: Seq<u8>|
                payload.len() == payload_len && #[trigger] drawn_from_encoding(
                    available_shards.deep_view(),
                    payload,
                    self.k(),
                    self.m(),
                ) ==> r->Ok_0@ == payload,
    {
        proof {
            use_type_invariant(self);
        }
        let k = self.data_shards;
        let m = self.parity_shards;
        let n = k + m;
        let ghost slots = available_shards.deep_view();
        let ghost wanted = usable_bytes(slots);
        if payload_len == 0 {
            return Err(ErasureError::InvalidInput);
        }
        if available_shards.len() != n {
            return Err(ErasureError::ParameterMismatch);
        }
        let size = shard_len(payload_len, k);
        proof {
            lemma_shard_size_bounds(payload_len as nat, k as nat);
        }
        let mut pending = available_shards;
        let mut have: Vec<Option<Vec<u8>>> = Vec::new();
        let mut count: usize = 0;
        let mut i: usize = 0;
        while i < n
            invariant
                i <= n,
                n == k + m,
                n <= 255,
                slots.len() == n,
                k == self.k(),
                m == self.m(),
                payload_len >= 1,
                wanted == usable_bytes(slots),
                size == shard_size(payload_len as nat, k as nat),
                slots == available_shards.deep_view(),
                pending@.len() == n,
                forall|b: int| i <= b < n ==> (#[trigger] pending@[b]).deep_view() == slots[b],
                have@.len() == i,
                forall|b: int| 0 <= b < i ==> holds(#[trigger] have@[b], wanted[b]),
                count == present_count(wanted.take(i as int)),
                count <= i,
                forall|b: int|
                    0 <= b < i && usable(#[trigger] slots[b]) ==> fits(
                        slots[b]->Some_0,
                        b,
                        k as nat,
                        size as nat,
                    ),
            decreases n - i,
        {
            let mut slot: Option<Shard> = None;
            pending.set_and_swap(i, &mut slot);
            assert(slot.deep_view() == slots[i as int]);
            proof {
                lemma_present_count_step(wanted, i as int);
            }
            match slot {
                Some(shard) => {
                    if validate(&shard) {
                        let kind = if i < k {
                            ShardType::Data
                        } else {
                            ShardType::Parity
                        };
                        if shard.index != i || shard.shard_type != kind || shard.data.len()
                            != size {
                            proof {
                                assert(usable(slots[i as int]));
                                assert(!fits(
                                    slots[i as int]->Some_0,
                                    i as int,
                                    k as nat,
                                    size as nat,
                                ));
                            }
                            return Err(ErasureError::ParameterMismatch);
                        }
                        have.push(Some(shard.data));
                        count += 1;
                    } else {
                        have.push(None);
                    }
                },
                None => {
                    have.push(None);
                },
            }
            i += 1;
        }
        proof {
            assert(wanted.take(n as int) =~= wanted);
            assert forall|b: int| 0 <= b < n implies slot_bytes(have@)[b] == wanted[b] by {
                assert(holds(have@[b], wanted[b]));
            }
            assert(slot_bytes(have@) =~= wanted);
            lemma_slots_deep_view(have);
            lemma_present_count_bound(wanted);
        }
        if count < k {
            return Err(ErasureError::InsufficientShards { available: count, required: k });
        }
        if m > 0 {
            match &self.encoder {
                Some(codec) => {
                    proof {
                        assert(uniform_present(wanted, size as nat));
                    }
                    match codec_reconstruct(codec, &mut have) {
                        Ok(()) => {},
                        Err(_) => {
                            return Err(ErasureError::EncodingFailure);
                        },
                    }
                },
                None => {
                    return Err(ErasureError::EncodingFailure);
                },
            }
        }
        let ghost filled = slot_bytes(have@);
        proof {
            lemma_slots_deep_view(have);
            assert(filled.len() == n);
            assert(have@.len() == n);
            assert forall|b: int| 0 <= b < n implies (#[trigger] filled[b]) == Some(
                recovered_bytes(slots, k as nat)[b],
            ) && filled[b]->Some_0.len() == size by {
                if m > 0 {
                    assert(uniform_present(wanted, size as nat));
                    assert(uniform_present(filled, size as nat));
                    assert(filled[b] is Some);
                } else {
                    assert(wanted[b] is Some);
                    assert(usable(slots[b]));
                }
            }
            assert forall|b: int| 0 <= b < k implies (#[trigger] have@[b]) is Some
                && have@[b]->Some_0@.len() == size by {
                assert(filled[b] is Some);
            }
            assert(payload_len <= k * size);
        }
        let out = join_blocks(&have, k, size, payload_len);
        proof {
            let blocks = Seq::new(k as nat, |b: int| have@[b]->Some_0@);
            let all = recovered_bytes(slots, k as nat);
            assert forall|b: int| 0 <= b < k implies blocks[b] == all[b] by {
                assert(filled[b] == Some(all[b]));
            }
            assert forall|p: int| 0 <= p < payload_len implies joined(
                blocks,
                size as nat,
                payload_len as nat,
            )[p] == joined(all, size as nat, payload_len as nat)[p] by {
                lemma_position_in_range(size as nat, k as nat, p);
            }
            assert(out@ =~= joined(all, size as nat, payload_len as nat));
            assert forall|payload: Seq<u8>|
                payload.len() == payload_len && #[trigger] drawn_from_encoding(
                    slots,
                    payload,
                    k as nat,
                    m as nat,
                ) implies out@ == payload by {
                let data = data_shards_of(payload, k as nat);
                let word = codeword(data, m as nat);
                assert(encodable_data(data));
                assert(drawn_from(wanted, word)) by {
                    assert forall|b: int| 0 <= b < wanted.len() && (#[trigger] wanted[b]) is Some
                        implies wanted[b] == Some(word[b]) by {
                        assert(usable(slots[b]));
                    }
                }
                assert forall|b: int| 0 <= b < k implies blocks[b] == data[b] by {
                    if m > 0 {
                        assert(drawn_from(wanted, codeword(data, (wanted.len() - k) as nat)));
                        assert(filled == all_present(word));
                        assert(filled[b] == Some(word[b]));
                    } else {
                        assert(wanted[b] is Some);
                        assert(usable(slots[b]));
                        assert(filled[b] == Some(word[b]));
                    }
                    assert(word[b] == data[b]);
                }
                assert forall|p: int| 0 <= p < payload_len implies joined(
                    blocks,
                    size as nat,
                    payload_len as nat,
                )[p] == joined(data, size as nat, payload_len as nat)[p] by {
                    lemma_position_in_range(size as nat, k as nat, p);
                }
                assert(out@ =~= joined(data, size as nat, payload_len as nat));
                lemma_joined_data_shards(payload, k as nat);
            }
        }
        Ok(out)
    }
}

} // verus!
