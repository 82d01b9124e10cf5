//! The Reed-Solomon codec that the shard coder rests on.
//!
//! The linear algebra over GF(256) is done by the `reed-solomon-erasure` crate. Nothing in
//! this module is proved: it states, as contracts, what that crate's `ReedSolomon::new`,
//! `encode` and `reconstruct` do, and gives names to the bytes they compute. Everything the
//! rest of the library proves about parity and recovery is derived from these statements.
use reed_solomon_erasure::galois_8::ReedSolomon;
use vstd::prelude::*;

verus! {

/// The error of the outside codec. It is carried to the caller of a wrapper and never read.
#[verifier::external_type_specification]
#[verifier::external_body]
pub struct ExCodecError(reed_solomon_erasure::Error);

/// A `reed_solomon_erasure::galois_8::ReedSolomon` for one fixed pair of shard counts.
///
/// The outside type is generic over a field trait, so it is held here behind a struct whose
/// inside Verus does not read. What is known of a value is what `new_codec` says of it.
#[verifier::external_body]
pub struct Codec {
    inner: ReedSolomon,
}

/// The number of data shards that a codec was made for.
pub uninterp spec fn codec_data_shards(codec: Codec) -> nat;

/// The number of parity shards that a codec was made for.
pub uninterp spec fn codec_parity_shards(codec: Codec) -> nat;

/// The parity shards that `ReedSolomon::encode` writes for the given data shards: a
/// function of the data shards and of the number of parity shards alone.
pub uninterp spec fn rs_parity(data: Seq<Seq<u8>>, parity_shards: nat) -> Seq<Seq<u8>>;

/// The shards that `ReedSolomon::reconstruct` leaves behind, absent ones filled in, for the
/// given slots and number of data shards.
pub uninterp spec fn rs_recovered(slots: Seq<Option<Seq<u8>>>, data_shards: nat) -> Seq<
    Seq<u8>,
>;

/// The shard counts that the codec can be made for: at least one shard of each kind, and no
/// more shards than GF(256) has elements.
pub open spec fn codec_accepts(data_shards: nat, parity_shards: nat) -> bool {
    1 <= data_shards && 1 <= parity_shards && data_shards + parity_shards <= 256
}

/// Every shard has `size` bytes.
pub open spec fn uniform(shards: Seq<Seq<u8>>, size: nat) -> bool {
    forall|i: int| 0 <= i < shards.len() ==> (#[trigger] shards[i]).len() == size
}

/// `data` can be the data shards of an encoding: there is at least one, none is empty, and
/// all have one size.
pub open spec fn encodable_data(data: Seq<Seq<u8>>) -> bool {
    data.len() >= 1 && data[0].len() >= 1 && uniform(data, data[0].len())
}

/// The shards that `encode` accepts: as many as the codec has, none empty, all of one size.
pub open spec fn encodable(shards: Seq<Seq<u8>>, data_shards: nat, parity_shards: nat) -> bool {
    shards.len() == data_shards + parity_shards && encodable_data(shards)
}

/// The full set of shards of an encoding: the data shards, followed by their parity
/// shards, each as long as a data shard.
pub open spec fn codeword(data: Seq<Seq<u8>>, parity_shards: nat) -> Seq<Seq<u8>> {
    Seq::new(
        data.len() + parity_shards,
        |i: int|
            if i < data.len() {
                data[i]
            } else {
                Seq::new(
                    data[0].len(),
                    |b: int| rs_parity(data, parity_shards)[i - data.len()][b],
                )
            },
    )
}

/// The shards after a successful `encode`: the data shards in front, the parity shards
/// behind them, all of the size of the first.
pub open spec fn encoded_in_place(
    after: Seq<Seq<u8>>,
    data: Seq<Seq<u8>>,
    parity: Seq<Seq<u8>>,
    parity_shards: nat,
) -> bool {
    &&& after == data + parity
    &&& parity.len() == parity_shards
    &&& uniform(after, data[0].len())
}

/// Every present shard has `size` bytes.
pub open spec fn uniform_present(slots: Seq<Option<Seq<u8>>>, size: nat) -> bool {
    forall|i: int|
        0 <= i < slots.len() && (#[trigger] slots[i]) is Some ==> slots[i].unwrap().len() == size
}

/// The number of present shards.
pub open spec fn present_count(slots: Seq<Option<Seq<u8>>>) -> nat
    decreases slots.len(),
{
    if slots.len() == 0 {
        0
    } else {
        present_count(slots.drop_last()) + if slots.last() is Some {
            1nat
        } else {
            0nat
        }
    }
}

/// The slots that `reconstruct` accepts: one per shard of the codec, the present shards
/// non-empty and of one size, and at least as many present as there are data shards.
pub open spec fn recoverable(
    slots: Seq<Option<Seq<u8>>>,
    data_shards: nat,
    parity_shards: nat,
) -> bool {
    &&& slots.len() == data_shards + parity_shards
    &&& exists|size: nat| size >= 1 && #[trigger] uniform_present(slots, size)
    &&& present_count(slots) >= data_shards
}

/// The slots after a successful `reconstruct`: present shards as they were, absent ones
/// taken from `recovered`.
pub open spec fn completed(slots: Seq<Option<Seq<u8>>>, recovered: Seq<Seq<u8>>) -> Seq<
    Option<Seq<u8>>,
> {
    Seq::new(
        slots.len(),
        |i: int|
            Some(
                match slots[i] {
                    Some(shard) => shard,
                    None => recovered[i],
                },
            ),
    )
}

/// Whatever size the present shards of `before` have, the present shards of `after` have.
pub open spec fn keeps_size(before: Seq<Option<Seq<u8>>>, after: Seq<Option<Seq<u8>>>) -> bool {
    forall|size: nat| #[trigger] uniform_present(before, size) ==> uniform_present(after, size)
}

/// Each present shard is the shard of `word` at its position.
pub open spec fn drawn_from(slots: Seq<Option<Seq<u8>>>, word: Seq<Seq<u8>>) -> bool {
    &&& slots.len() == word.len()
    &&& forall|i: int|
        0 <= i < slots.len() && (#[trigger] slots[i]) is Some ==> slots[i] == Some(word[i])
}

/// All shards of `word`, each present.
pub open spec fn all_present(word: Seq<Seq<u8>>) -> Seq<Option<Seq<u8>>> {
    Seq::new(word.len(), |i: int| Some(word[i]))
}

/// The property that makes the code an erasure code: if the shards in `before` were drawn
/// from the encoding of some data shards, then `after` is that whole encoding.
pub open spec fn restores(
    before: Seq<Option<Seq<u8>>>,
    after: Seq<Option<Seq<u8>>>,
    data_shards: nat,
) -> bool {
    forall|data: Seq<Seq<u8>>|
        data.len() == data_shards && encodable_data(data) && #[trigger] drawn_from(
            before,
            codeword(data, (before.len() - data_shards) as nat),
        ) ==> after == all_present(codeword(data, (before.len() - data_shards) as nat))
}

/// Calls `ReedSolomon::new`.
///
/// The outside function refuses a count of zero data shards, of zero parity shards, and a
/// total above 256, and otherwise builds the codec for exactly the counts it was given.
#[verifier::external_body]
pub(crate) fn new_codec(data_shards: usize, parity_shards: usize) -> (r: Result<Codec, reed_solomon_erasure::Error>)
    requires
        data_shards + parity_shards <= usize::MAX,
    ensures
        r is Ok <==> codec_accepts(data_shards as nat, parity_shards as nat),
        r is Ok ==> codec_data_shards(r->Ok_0) == data_shards,
        r is Ok ==> codec_parity_shards(r->Ok_0) == parity_shards,
{
    match ReedSolomon::new(data_shards, parity_shards) {
        Ok(inner) => Ok(Codec { inner }),
        Err(e) => Err(e),
    }
}

/// Calls `ReedSolomon::encode` on the shards in place.
///
/// The outside function succeeds exactly when it is given as many shards as the codec
/// has, none empty and all of one size. It then leaves the data shards as they are and
/// overwrites each parity shard, keeping its length.
#[verifier::external_body]
pub(crate) fn codec_encode(codec: &Codec, shards: &mut Vec<Vec<u8>>) -> (r: Result<(), reed_solomon_erasure::Error>)
    ensures
        r is Ok <==> encodable(
            old(shards).deep_view(),
            codec_data_shards(*codec),
            codec_parity_shards(*codec),
        ),
        r is Ok ==> encoded_in_place(
            final(shards).deep_view(),
            old(shards).deep_view().take(codec_data_shards(*codec) as int),
            rs_parity(
                old(shards).deep_view().take(codec_data_shards(*codec) as int),
                codec_parity_shards(*codec),
            ),
            codec_parity_shards(*codec),
        ),
{
    codec.inner.encode(shards)
}

/// Calls `ReedSolomon::reconstruct` on the slots in place.
///
/// The outside function succeeds exactly when it is given one slot per shard of the
/// codec, with the present shards non-empty and of one size, and at least as many of them
/// as there are data shards. It then leaves the present shards as they are and fills each
/// absent one with a shard of the same size. Where the present shards come from one
/// encoding, the filled-in shards are the missing shards of that encoding: the codec's
/// matrix is a Vandermonde matrix over distinct field elements, multiplied so that its top
/// is the identity, so any `data_shards` of its rows can be inverted, and the outside
/// function inverts the rows of the first `data_shards` present shards to get the data
/// shards back, then encodes the missing parity shards from them.
#[verifier::external_body]
pub(crate) fn codec_reconstruct(codec: &Codec, slots: &mut Vec<Option<Vec<u8>>>) -> (r: Result<(), reed_solomon_erasure::Error>)
    ensures
        r is Ok <==> recoverable(
            old(slots).deep_view(),
            codec_data_shards(*codec),
            codec_parity_shards(*codec),
        ),
        r is Ok ==> final(slots).deep_view() == completed(
            old(slots).deep_view(),
            rs_recovered(old(slots).deep_view(), codec_data_shards(*codec)),
        ),
        r is Ok ==> keeps_size(old(slots).deep_view(), final(slots).deep_view()),
        r is Ok ==> restores(
            old(slots).deep_view(),
            final(slots).deep_view(),
            codec_data_shards(*codec),
        ),
{
    codec.inner.reconstruct(slots)
}

} // verus!
