//! The request and response boundary of the shard coder.
//!
//! A request arrives as plain values, is checked, handed to the coder, and answered with
//! plain values or with a status that says what was wrong.
use crate::erasure_coding::{
    checksums_sized, encoded_set, reconstruct_outcome, valid_parameters, ErasureCoder,
    ErasureError, Shard, ShardType, ShardView, CHECKSUM_LEN,
};
use crate::guarantees::{all_slots, round_trip};
use vstd::pervasive::VecAdditionalExecFns;
use vstd::prelude::*;

verus! {

/// A shard as it travels: the index and the kind as numbers, the kind 0 for data and 1
/// for parity.
#[derive(Clone, Debug, PartialEq, Eq)]
pub struct WireShard {
    pub index: u32,
    pub data: Vec<u8>,
    pub checksum: Vec<u8>,
    pub kind: u32,
}

/// What a travelling shard is, as plain values.
pub struct WireShardView {
    pub index: nat,
    pub data: Seq<u8>,
    pub checksum: Seq<u8>,
    pub kind: nat,
}

impl View for WireShard {
    type V = WireShardView;

    open spec fn view(&self) -> WireShardView {
        WireShardView {
            index: self.index as nat,
            data: self.data@,
            checksum: self.checksum@,
            kind: self.kind as nat,
        }
    }
}

impl DeepView for WireShard {
    type V = WireShardView;

    open spec fn deep_view(&self) -> WireShardView {
        self@
    }
}

/// A request to encode `data` with the given shard counts.
#[derive(Clone, Debug, PartialEq, Eq)]
pub struct EncodeRequest {
    pub data: Vec<u8>,
    pub data_shards: u32,
    pub parity_shards: u32,
}

/// The shards of an encoding, and the payload length to hand back when reconstructing.
#[derive(Clone, Debug, PartialEq, Eq)]
pub struct EncodeResponse {
    pub shards: Vec<WireShard>,
    pub payload_len: u64,
}

/// What an encode response is, as plain values.
pub struct EncodeResponseView {
    pub shards: Seq<WireShardView>,
    pub payload_len: nat,
}

impl View for EncodeResponse {
    type V = EncodeResponseView;

    open spec fn view(&self) -> EncodeResponseView {
        EncodeResponseView {
            shards: self.shards.deep_view(),
            payload_len: self.payload_len as nat,
        }
    }
}

/// A request to reconstruct a payload of `payload_len` bytes from the shards that could
/// be fetched. A shard that is not in the list is absent.
#[derive(Clone, Debug, PartialEq, Eq)]
pub struct ReconstructRequest {
    pub data_shards: u32,
    pub parity_shards: u32,
    pub shards: Vec<WireShard>,
    pub payload_len: u64,
}

/// The reconstructed payload.
#[derive(Clone, Debug, PartialEq, Eq)]
pub struct ReconstructResponse {
    pub data: Vec<u8>,
}

/// The two ways a request can fail.
#[derive(Clone, Copy, Debug, PartialEq, Eq, Structural)]
pub enum StatusCode {
    /// The request itself is wrong: bad shard counts, an empty payload, a malformed
    /// shard list.
    InvalidArgument,
    /// The request is in order, and the payload cannot be had from it.
    Internal,
}

/// A refusal: its kind, and a sentence for the caller.
#[derive(Clone, Debug, PartialEq, Eq)]
pub struct Status {
    pub code: StatusCode,
    pub message: String,
}

/// What a status is, as plain values.
pub struct StatusView {
    pub code: StatusCode,
    pub message: Seq<char>,
}

impl View for Status {
    type V = StatusView;

    open spec fn view(&self) -> StatusView {
        StatusView { code: self.code, message: self.message@ }
    }
}

/// The kind number of a shard on the wire.
pub open spec fn kind_number(kind: ShardType) -> nat {
    match kind {
        ShardType::Data => 0,
        ShardType::Parity => 1,
    }
}

/// A shard as it is sent.
pub open spec fn to_wire(shard: ShardView) -> WireShardView {
    WireShardView {
        index: shard.index,
        data: shard.data,
        checksum: shard.checksum,
        kind: kind_number(shard.shard_type),
    }
}

/// A shard as it is received. The kind number is 0 or 1.
pub open spec fn from_wire(shard: WireShardView) -> ShardView {
    ShardView {
        index: shard.index,
        data: shard.data,
        checksum: shard.checksum,
        shard_type: if shard.kind == 0 {
            ShardType::Data
        } else {
            ShardType::Parity
        },
    }
}

/// The status that stands for an error of the coder.
pub open spec fn status_of(error: ErasureError) -> StatusView {
    match error {
        ErasureError::InvalidInput => StatusView {
            code: StatusCode::InvalidArgument,
            message: "invalid shard counts or empty payload"@,
        },
        ErasureError::ParameterMismatch => StatusView {
            code: StatusCode::InvalidArgument,
            message: "shards do not fit the shard counts and payload length"@,
        },
        ErasureError::InsufficientShards { .. } => StatusView {
            code: StatusCode::Internal,
            message: "too few usable shards to reconstruct the payload"@,
        },
        ErasureError::CorruptShard { .. } => StatusView {
            code: StatusCode::Internal,
            message: "a shard does not match its checksum"@,
        },
        ErasureError::EncodingFailure => StatusView {
            code: StatusCode::Internal,
            message: "the codec failed"@,
        },
    }
}

/// The status for a shard list that cannot be laid out over the slots.
pub open spec fn malformed_list() -> StatusView {
    StatusView { code: StatusCode::InvalidArgument, message: "malformed shard list"@ }
}

/// The slots after the listed shards have been put in one by one, each at its index.
pub open spec fn placed(shards: Seq<WireShardView>, n: nat) -> Seq<Option<ShardView>>
    decreases shards.len(),
{
    if shards.len() == 0 {
        Seq::new(n, |i: int| None)
    } else {
        placed(shards.drop_last(), n).update(
            shards.last().index as int,
            Some(from_wire(shards.last())),
        )
    }
}

/// The list can be laid out over `n` slots: every index is below `n`, no index occurs
/// twice, and every kind number is 0 or 1.
pub open spec fn placeable(shards: Seq<WireShardView>, n: nat) -> bool
    decreases shards.len(),
{
    shards.len() == 0 || {
        &&& placeable(shards.drop_last(), n)
        &&& shards.last().index < n
        &&& shards.last().kind <= 1
        &&& placed(shards.drop_last(), n)[shards.last().index as int] is None
    }
}

/// The shards of a set as they are sent, in the order of the set.
pub open spec fn wire_list(shards: Seq<ShardView>) -> Seq<WireShardView> {
    Seq::new(shards.len(), |i: int| to_wire(shards[i]))
}

/// What the service answers to an encode request.
pub open spec fn encode_answer(data: Seq<u8>, k: nat, m: nat) -> Result<
    EncodeResponseView,
    StatusView,
> {
    if !valid_parameters(k, m) || data.len() == 0 {
        Err(status_of(ErasureError::InvalidInput))
    } else {
        Ok(
            EncodeResponseView {
                shards: wire_list(encoded_set(data, k, m).shards),
                payload_len: data.len(),
            },
        )
    }
}

/// What the service answers to a reconstruct request.
pub open spec fn reconstruct_answer(
    shards: Seq<WireShardView>,
    k: nat,
    m: nat,
    payload_len: nat,
) -> Result<Seq<u8>, StatusView> {
    if !valid_parameters(k, m) || payload_len > usize::MAX {
        Err(status_of(ErasureError::InvalidInput))
    } else if !placeable(shards, k + m) {
        Err(malformed_list())
    } else {
        match reconstruct_outcome(placed(shards, k + m), k, m, payload_len) {
            Ok(payload) => Ok(payload),
            Err(error) => Err(status_of(error)),
        }
    }
}

/// The answer to an encode request, as plain values.
pub open spec fn encode_result(r: Result<EncodeResponse, Status>) -> Result<
    EncodeResponseView,
    StatusView,
> {
    match r {
        Ok(response) => Ok(response@),
        Err(status) => Err(status@),
    }
}

/// The answer to a reconstruct request, as plain values.
pub open spec fn reconstruct_result(r: Result<ReconstructResponse, Status>) -> Result<
    Seq<u8>,
    StatusView,
> {
    match r {
        Ok(response) => Ok(response.data@),
        Err(status) => Err(status@),
    }
}

/// The status that stands for an error of the coder.
pub fn status_for(error: ErasureError) -> (status: Status)
    ensures
        status@ == status_of(error),
{
    match error {
        ErasureError::InvalidInput => Status {
            code: StatusCode::InvalidArgument,
            message: "invalid shard counts or empty payload".to_owned(),
        },
        ErasureError::ParameterMismatch => Status {
            code: StatusCode::InvalidArgument,
            message: "shards do not fit the shard counts and payload length".to_owned(),
        },
        ErasureError::InsufficientShards { .. } => Status {
            code: StatusCode::Internal,
            message: "too few usable shards to reconstruct the payload".to_owned(),
        },
        ErasureError::CorruptShard { .. } => Status {
            code: StatusCode::Internal,
            message: "a shard does not match its checksum".to_owned(),
        },
        ErasureError::EncodingFailure => Status {
            code: StatusCode::Internal,
            message: "the codec failed".to_owned(),
        },
    }
}

/// Lays the listed shards out over `n` slots, each at its index, or says that the list
/// is malformed.
pub fn place_shards(shards: Vec<WireShard>, n: usize) -> (r: Result<Vec<Option<Shard>>, Status>)
    ensures
        placeable(shards.deep_view(), n as nat) ==> r is Ok && r->Ok_0.deep_view() == placed(
            shards.deep_view(),
            n as nat,
        ),
        !placeable(shards.deep_view(), n as nat) ==> r is Err && r->Err_0@ == malformed_list(),
{
    let ghost list = shards.deep_view();
    let mut slots: Vec<Option<Shard>> = Vec::new();
    let mut j: usize = 0;
    while j < n
        invariant
            j <= n,
            slots@.len() == j,
            forall|b: int| 0 <= b < j ==> (#[trigger] slots@[b]) is None,
        decreases n - j,
    {
        slots.push(None);
        j += 1;
    }
    assert(slots.deep_view() =~= placed(list.take(0), n as nat));
    let mut pending = shards;
    let count = pending.len();
    let mut i: usize = 0;
    while i < count
        invariant
            i <= count,
            count == list.len(),
            list == shards.deep_view(),
            pending@.len() == count,
            forall|b: int| i <= b < count ==> (#[trigger] pending@[b])@ == list[b],
            slots@.len() == n,
            placeable(list.take(i as int), n as nat),
            slots.deep_view() == placed(list.take(i as int), n as nat),
        decreases count - i,
    {
        let mut shard = WireShard { index: 0, data: Vec::new(), checksum: Vec::new(), kind: 0 };
        pending.set_and_swap(i, &mut shard);
        assert(shard@ == list[i as int]);
        proof {
            assert(list.take(i + 1).drop_last() =~= list.take(i as int));
            assert(list.take(i + 1).last() == list[i as int]);
        }
        let at = shard.index as usize;
        let free = at < n && slots[at].is_none();
        assert(free <==> (shard.index < n && placed(list.take(i as int), n as nat)[at as int]
            is None)) by {
            if at < n {
                assert(slots.deep_view()[at as int] == slots@[at as int].deep_view());
            }
        }
        if !free || shard.kind > 1 {
            proof {
                assert(!placeable(list.take(i + 1), n as nat));
                lemma_unplaceable_prefix(list, n as nat, i + 1);
            }
            return Err(
                Status { code: StatusCode::InvalidArgument, message: "malformed shard list".to_owned() },
            );
        }
        let shard_type = if shard.kind == 0 {
            ShardType::Data
        } else {
            ShardType::Parity
        };
        let ghost before = slots.deep_view();
        slots.set(
            at,
            Some(Shard { index: at, data: shard.data, checksum: shard.checksum, shard_type }),
        );
        assert(slots.deep_view() =~= before.update(at as int, Some(from_wire(list[i as int]))));
        i += 1;
    }
    assert(list.take(count as int) =~= list);
    Ok(slots)
}

/// A list with a prefix that cannot be laid out cannot be laid out.
pub proof fn lemma_unplaceable_prefix(shards: Seq<WireShardView>, n: nat, i: int)
    requires
        0 <= i <= shards.len(),
        !placeable(shards.take(i), n),
    ensures
        !placeable(shards, n),
    decreases shards.len() - i,
{
    if i < shards.len() {
        assert(shards.take(i + 1).drop_last() =~= shards.take(i));
        lemma_unplaceable_prefix(shards, n, i + 1);
    } else {
        assert(shards.take(i) =~= shards);
    }
}

/// A shard that is sent and received again is the shard that was sent.
pub proof fn wire_keeps_shards(shard: ShardView)
    ensures
        from_wire(to_wire(shard)) == shard,
{
}

/// The first `i` shards of a set, sent in order, can be laid out, and fill the first `i`
/// slots with themselves.
pub proof fn lemma_placed_in_order(shards: Seq<ShardView>, i: nat)
    requires
        i <= shards.len(),
        forall|j: int| 0 <= j < shards.len() ==> (#[trigger] shards[j]).index == j,
    ensures
        placeable(wire_list(shards).take(i as int), shards.len()),
        placed(wire_list(shards).take(i as int), shards.len()) == Seq::new(
            shards.len(),
            |j: int|
                if j < i {
                    Some(shards[j])
                } else {
                    None
                },
        ),
    decreases i,
{
    let n = shards.len();
    let list = wire_list(shards).take(i as int);
    let want = Seq::new(
        n,
        |j: int|
            if j < i {
                Some(shards[j])
            } else {
                None
            },
    );
    if i > 0 {
        lemma_placed_in_order(shards, (i - 1) as nat);
        assert(list.drop_last() =~= wire_list(shards).take(i - 1));
        assert(list.last() == to_wire(shards[i - 1]));
        wire_keeps_shards(shards[i - 1]);
    }
    assert(placed(list, n) =~= want);
}

/// What the service answers to an encode request, handed back whole in a reconstruct
/// request, is answered with the payload.
pub proof fn boundary_round_trip(payload: Seq<u8>, k: nat, m: nat)
    requires
        valid_parameters(k, m),
        1 <= payload.len() <= usize::MAX,
    ensures
        encode_answer(payload, k, m) is Ok,
        reconstruct_answer(
            encode_answer(payload, k, m)->Ok_0.shards,
            k,
            m,
            encode_answer(payload, k, m)->Ok_0.payload_len,
        ) == Ok::<Seq<u8>, StatusView>(payload),
{
    let shards = encoded_set(payload, k, m).shards;
    lemma_placed_in_order(shards, k + m);
    assert(wire_list(shards).take((k + m) as int) =~= wire_list(shards));
    assert(placed(wire_list(shards), k + m) =~= all_slots(shards));
    round_trip(payload, k, m);
}

/// The service that encodes payloads into shards and reconstructs payloads from shards.
#[derive(Clone, Copy, Debug, Default)]
pub struct StorageHalService {}

impl StorageHalService {
    /// Encodes the payload of the request. The shard counts must be valid and the
    /// payload not empty; the answer then holds every shard of the encoding, in order,
    /// and the payload length.
    pub fn encode(&self, request: EncodeRequest) -> (r: Result<EncodeResponse, Status>)
        ensures
            encode_result(r) == encode_answer(
                request.data@,
                request.data_shards as nat,
                request.parity_shards as nat,
            ),
            r is Ok ==> forall|i: int|
                0 <= i < r->Ok_0.shards@.len() ==> (#[trigger] r->Ok_0.shards@[i]).checksum@.len()
                    == CHECKSUM_LEN,
    {
        let coder = match ErasureCoder::new(
            request.data_shards as usize,
            request.parity_shards as usize,
        ) {
            Ok(coder) => coder,
            Err(error) => {
                return Err(status_for(error));
            },
        };
        let set = match coder.encode_backup(request.data.as_slice()) {
            Ok(set) => set,
            Err(error) => {
                return Err(status_for(error));
            },
        };
        let ghost want = encoded_set(
            request.data@,
            request.data_shards as nat,
            request.parity_shards as nat,
        );
        let payload_len = set.payload_len;
        proof {
            assert(set@.shards.len() == set.shards@.len());
            assert(checksums_sized(set@.shards));
            assert forall|b: int| 0 <= b < set.shards@.len() implies (#[trigger] set.shards@[b])@
                == want.shards[b] && set.shards@[b].checksum@.len() == CHECKSUM_LEN by {
                assert(set@.shards[b] == set.shards@[b]@);
            }
        }
        let mut pending = set.shards;
        let count = pending.len();
        let mut shards: Vec<WireShard> = Vec::new();
        let mut i: usize = 0;
        while i < count
            invariant
                i <= count,
                count == want.shards.len(),
                count <= 255,
                pending@.len() == count,
                request.data_shards >= 1,
                forall|b: int| i <= b < count ==> (#[trigger] pending@[b])@ == want.shards[b],
                forall|b: int|
                    i <= b < count ==> (#[trigger] pending@[b]).checksum@.len() == CHECKSUM_LEN,
                forall|b: int| 0 <= b < i ==> (#[trigger] shards@[b]).checksum@.len() == CHECKSUM_LEN,
                forall|b: int| 0 <= b < count ==> (#[trigger] want.shards[b]).index == b,
                shards@.len() == i,
                forall|b: int| 0 <= b < i ==> (#[trigger] shards@[b])@ == to_wire(want.shards[b]),
            decreases count - i,
        {
            let mut shard = Shard {
                index: 0,
                data: Vec::new(),
                checksum: Vec::new(),
                shard_type: ShardType::Data,
            };
            pending.set_and_swap(i, &mut shard);
            assert(shard@ == want.shards[i as int]);
            let kind: u32 = match shard.shard_type {
                ShardType::Data => 0,
                ShardType::Parity => 1,
            };
            shards.push(
                WireShard {
                    index: shard.index as u32,
                    data: shard.data,
                    checksum: shard.checksum,
                    kind,
                },
            );
            i += 1;
        }
        let response = EncodeResponse { shards, payload_len: payload_len as u64 };
        assert(response@.shards =~= wire_list(want.shards));
        Ok(response)
    }

    /// Reconstructs the payload of the request from the listed shards. The shard counts
    /// must be valid, the list must be well formed, and enough listed shards must be
    /// intact; the answer is then the payload that the coder reconstructs.
    pub fn reconstruct(&self, request: ReconstructRequest) -> (r: Result<
        ReconstructResponse,
        Status,
    >)
        ensures
            reconstruct_result(r) == reconstruct_answer(
                request.shards.deep_view(),
                request.data_shards as nat,
                request.parity_shards as nat,
                request.payload_len as nat,
            ),
    {
        let coder = match ErasureCoder::new(
            request.data_shards as usize,
            request.parity_shards as usize,
        ) {
            Ok(coder) => coder,
            Err(error) => {
                return Err(status_for(error));
            },
        };
        if request.payload_len > usize::MAX as u64 {
            return Err(status_for(ErasureError::InvalidInput));
        }
        let n = request.data_shards as usize + request.parity_shards as usize;
        let slots = match place_shards(request.shards, n) {
            Ok(slots) => slots,
            Err(status) => {
                return Err(status);
            },
        };
        match coder.reconstruct_backup(slots, request.payload_len as usize) {
            Ok(data) => Ok(ReconstructResponse { data }),
            Err(error) => Err(status_for(error)),
        }
    }
}

} // verus!
