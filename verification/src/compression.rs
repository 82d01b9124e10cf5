//! Compression of a buffer with one of five algorithms, and the choice of the algorithm
//! that makes a buffer smallest.
use crate::codecs::{
    brotli_decoded, brotli_encoded, brotli_read, brotli_write, gzip_decoded, gzip_encoded,
    gzip_read, gzip_write, lowercase, lowercased, lz4_block_compress, lz4_block_decompress,
    lz4_decoded, lz4_encoded, xz_decoded, xz_encoded, xz_read, xz_write, zstd_decode_all,
    zstd_decoded, zstd_encode_all, zstd_encoded,
};
use vstd::prelude::*;

verus! {

/// The algorithms a buffer can be compressed with.
#[derive(Clone, Copy, Debug, PartialEq, Eq, Structural)]
pub enum CompressionType {
    Zstd,
    Lz4,
    Brotli,
    Gzip,
    Xz,
}

/// Why a compression call failed.
#[derive(Debug)]
pub enum CompressionError {
    /// The name stands for no algorithm.
    UnknownType { name: String },
    /// The codec of the algorithm reported an error.
    Codec { algorithm: CompressionType, source: std::io::Error },
}

/// The lower-case name of an algorithm.
pub open spec fn name_of(compression_type: CompressionType) -> Seq<char> {
    match compression_type {
        CompressionType::Zstd => "zstd"@,
        CompressionType::Lz4 => "lz4"@,
        CompressionType::Brotli => "brotli"@,
        CompressionType::Gzip => "gzip"@,
        CompressionType::Xz => "xz"@,
    }
}

/// The algorithm that a lower-case name stands for.
pub open spec fn type_named(name: Seq<char>) -> Option<CompressionType> {
    if name == "zstd"@ {
        Some(CompressionType::Zstd)
    } else if name == "lz4"@ {
        Some(CompressionType::Lz4)
    } else if name == "brotli"@ {
        Some(CompressionType::Brotli)
    } else if name == "gzip"@ {
        Some(CompressionType::Gzip)
    } else if name == "xz"@ {
        Some(CompressionType::Xz)
    } else {
        None
    }
}

/// The level that zstd compresses at.
pub const ZSTD_LEVEL: i32 = 3;

/// The level that LZ4 compresses at, in its high-compression mode.
pub const LZ4_LEVEL: i32 = 9;

/// The size of the buffer that Brotli streams through.
pub const BROTLI_BUFFER: usize = 4096;

/// The quality that Brotli compresses at.
pub const BROTLI_QUALITY: u32 = 6;

/// The binary logarithm of the window that Brotli compresses with.
pub const BROTLI_WINDOW: u32 = 22;

/// The level that gzip compresses at.
pub const GZIP_LEVEL: u32 = 6;

/// The level that xz compresses at.
pub const XZ_LEVEL: u32 = 6;

/// The bytes that compressing `data` with an algorithm gives.
pub open spec fn compressed(compression_type: CompressionType, data: Seq<u8>) -> Seq<u8> {
    match compression_type {
        CompressionType::Zstd => zstd_encoded(data, ZSTD_LEVEL as int),
        CompressionType::Lz4 => lz4_encoded(data, LZ4_LEVEL as int, true),
        CompressionType::Brotli => brotli_encoded(
            data,
            BROTLI_BUFFER as nat,
            BROTLI_QUALITY as nat,
            BROTLI_WINDOW as nat,
        ),
        CompressionType::Gzip => gzip_encoded(data, GZIP_LEVEL as nat),
        CompressionType::Xz => xz_encoded(data, XZ_LEVEL as nat),
    }
}

/// The bytes that decompressing `data` with an algorithm gives.
pub open spec fn decompressed(compression_type: CompressionType, data: Seq<u8>) -> Seq<u8> {
    match compression_type {
        CompressionType::Zstd => zstd_decoded(data),
        CompressionType::Lz4 => lz4_decoded(data, None),
        CompressionType::Brotli => brotli_decoded(data, BROTLI_BUFFER as nat),
        CompressionType::Gzip => gzip_decoded(data),
        CompressionType::Xz => xz_decoded(data),
    }
}

/// The call gave the named bytes, or the codec of this algorithm failed.
pub open spec fn gave(
    r: Result<Vec<u8>, CompressionError>,
    bytes: Seq<u8>,
    algorithm: CompressionType,
) -> bool {
    match r {
        Ok(out) => out@ == bytes,
        Err(e) => e matches CompressionError::Codec { algorithm: a, .. } && a == algorithm,
    }
}

impl CompressionType {
    /// The algorithm that a name stands for, upper and lower case taken alike.
    pub fn from_str(s: &str) -> (r: Result<CompressionType, CompressionError>)
        ensures
            r is Ok <==> type_named(lowercased(s@)) is Some,
            r is Ok ==> Some(r->Ok_0) == type_named(lowercased(s@)),
            r is Err ==> r->Err_0 is UnknownType && r->Err_0->name@ == s@,
    {
        let lower = lowercase(s);
        match CompressionType::from_lowercase(lower.as_str()) {
            Some(compression_type) => Ok(compression_type),
            None => Err(CompressionError::UnknownType { name: s.to_owned() }),
        }
    }

    /// The algorithm that a lower-case name stands for.
    pub fn from_lowercase(name: &str) -> (r: Option<CompressionType>)
        ensures
            r == type_named(name@),
    {
        if name.eq("zstd") {
            Some(CompressionType::Zstd)
        } else if name.eq("lz4") {
            Some(CompressionType::Lz4)
        } else if name.eq("brotli") {
            Some(CompressionType::Brotli)
        } else if name.eq("gzip") {
            Some(CompressionType::Gzip)
        } else if name.eq("xz") {
            Some(CompressionType::Xz)
        } else {
            None
        }
    }

    /// The lower-case name of the algorithm.
    pub fn as_str(&self) -> (name: &'static str)
        ensures
            name@ == name_of(*self),
    {
        match self {
            CompressionType::Zstd => "zstd",
            CompressionType::Lz4 => "lz4",
            CompressionType::Brotli => "brotli",
            CompressionType::Gzip => "gzip",
            CompressionType::Xz => "xz",
        }
    }
}

/// The name of an algorithm stands for that algorithm.
pub proof fn name_stands_for_type(compression_type: CompressionType)
    ensures
        type_named(name_of(compression_type)) == Some(compression_type),
{
    reveal_strlit("zstd");
    reveal_strlit("lz4");
    reveal_strlit("brotli");
    reveal_strlit("gzip");
    reveal_strlit("xz");
    assert("zstd"@.len() == 4 && "lz4"@.len() == 3 && "brotli"@.len() == 6 && "gzip"@.len() == 4
        && "xz"@.len() == 2);
    assert("zstd"@[0] == 'z' && "gzip"@[0] == 'g');
}

/// Compresses the data with the given algorithm.
pub fn compress_data(data: &[u8], compression_type: CompressionType) -> (r: Result<
    Vec<u8>,
    CompressionError,
>)
    ensures
        gave(r, compressed(compression_type, data@), compression_type),
{
    match compression_type {
        CompressionType::Zstd => compress_zstd(data),
        CompressionType::Lz4 => compress_lz4(data),
        CompressionType::Brotli => compress_brotli(data),
        CompressionType::Gzip => compress_gzip(data),
        CompressionType::Xz => compress_xz(data),
    }
}

/// Decompresses the data with the given algorithm.
pub fn decompress_data(data: &[u8], compression_type: CompressionType) -> (r: Result<
    Vec<u8>,
    CompressionError,
>)
    ensures
        gave(r, decompressed(compression_type, data@), compression_type),
{
    match compression_type {
        CompressionType::Zstd => decompress_zstd(data),
        CompressionType::Lz4 => decompress_lz4(data),
        CompressionType::Brotli => decompress_brotli(data),
        CompressionType::Gzip => decompress_gzip(data),
        CompressionType::Xz => decompress_xz(data),
    }
}

/// The algorithms that the best is chosen from, in the order in which they are tried.
pub open spec fn contenders() -> Seq<CompressionType> {
    seq![
        CompressionType::Zstd,
        CompressionType::Lz4,
        CompressionType::Brotli,
        CompressionType::Gzip,
    ]
}

/// A challenger replaces the best so far when it is strictly smaller. Of an empty
/// input nothing is saved, so nothing replaces the first.
pub open spec fn improves(data_len: nat, challenger_len: nat, best_len: nat) -> bool {
    data_len > 0 && challenger_len < best_len
}

/// Contender `w` is the choice among the first `upto`: the first of least compressed
/// size, or the first of all where the data is empty.
pub open spec fn is_choice(data: Seq<u8>, w: int, upto: int) -> bool {
    &&& 0 <= w < upto <= contenders().len()
    &&& data.len() == 0 ==> w == 0
    &&& data.len() > 0 ==> forall|i: int|
        0 <= i < upto ==> compressed(contenders()[w], data).len() <= compressed(
            #[trigger] contenders()[i],
            data,
        ).len()
    &&& data.len() > 0 ==> forall|i: int|
        0 <= i < w ==> compressed(contenders()[w], data).len() < compressed(
            #[trigger] contenders()[i],
            data,
        ).len()
}

/// Of the best output so far and a challenger, keeps the challenger if it is strictly
/// smaller and the input is not empty, and the best otherwise.
pub fn keep_better(
    data_len: usize,
    best: (CompressionType, Vec<u8>),
    challenger: (CompressionType, Vec<u8>),
) -> (kept: (CompressionType, Vec<u8>))
    ensures
        kept == if improves(data_len as nat, challenger.1@.len(), best.1@.len()) {
            challenger
        } else {
            best
        },
{
    if data_len > 0 && challenger.1.len() < best.1.len() {
        challenger
    } else {
        best
    }
}

/// Compresses the data with zstd, LZ4, Brotli and gzip, and returns the smallest output
/// with its algorithm; among outputs of one size the algorithm that was tried first
/// wins. The first codec that fails ends the call with its error.
pub fn choose_best_compression(data: &[u8]) -> (r: Result<
    (CompressionType, Vec<u8>),
    CompressionError,
>)
    ensures
        r is Ok ==> exists|w: int|
            #![trigger contenders()[w]]
            is_choice(data@, w, 4) && r->Ok_0.0 == contenders()[w] && r->Ok_0.1@ == compressed(
                contenders()[w],
                data@,
            ),
        r is Err ==> r->Err_0 is Codec,
{
    let types = [
        CompressionType::Zstd,
        CompressionType::Lz4,
        CompressionType::Brotli,
        CompressionType::Gzip,
    ];
    assert(types@ =~= contenders());
    let first = match compress_data(data, types[0]) {
        Ok(bytes) => bytes,
        Err(e) => {
            return Err(e);
        },
    };
    let mut best = (types[0], first);
    let ghost mut w: int = 0;
    let mut i: usize = 1;
    while i < 4
        invariant
            1 <= i <= 4,
            types@ == contenders(),
            is_choice(data@, w, i as int),
            best.0 == contenders()[w],
            best.1@ == compressed(contenders()[w], data@),
        decreases 4 - i,
    {
        let compression_type = types[i];
        let bytes = match compress_data(data, compression_type) {
            Ok(bytes) => bytes,
            Err(e) => {
                return Err(e);
            },
        };
        proof {
            let before = w;
            if improves(data@.len(), bytes@.len(), best.1@.len()) {
                w = i as int;
            }
            if data@.len() > 0 {
                assert forall|j: int| 0 <= j < i + 1 implies compressed(
                    contenders()[w],
                    data@,
                ).len() <= compressed(#[trigger] contenders()[j], data@).len() by {
                    if j < i {
                        assert(compressed(contenders()[before], data@).len() <= compressed(
                            contenders()[j],
                            data@,
                        ).len());
                    }
                }
                assert forall|j: int| 0 <= j < w implies compressed(contenders()[w], data@).len()
                    < compressed(#[trigger] contenders()[j], data@).len() by {
                    if w == i {
                        assert(compressed(contenders()[before], data@).len() <= compressed(
                            contenders()[j],
                            data@,
                        ).len());
                    }
                }
            }
        }
        best = keep_better(data.len(), best, (compression_type, bytes));
        i += 1;
    }
    Ok(best)
}

/// The result of a codec, with its error marked with the algorithm.
fn codec_result(r: Result<Vec<u8>, std::io::Error>, algorithm: CompressionType) -> (out: Result<
    Vec<u8>,
    CompressionError,
>)
    ensures
        r is Ok ==> out is Ok && out->Ok_0 == r->Ok_0,
        r is Err ==> out is Err && out->Err_0 == (CompressionError::Codec {
            algorithm,
            source: r->Err_0,
        }),
{
    match r {
        Ok(bytes) => Ok(bytes),
        Err(source) => Err(CompressionError::Codec { algorithm, source }),
    }
}

pub fn compress_zstd(data: &[u8]) -> (r: Result<Vec<u8>, CompressionError>)
    ensures
        gave(r, compressed(CompressionType::Zstd, data@), CompressionType::Zstd),
{
    codec_result(zstd_encode_all(data, ZSTD_LEVEL), CompressionType::Zstd)
}

pub fn decompress_zstd(data: &[u8]) -> (r: Result<Vec<u8>, CompressionError>)
    ensures
        gave(r, decompressed(CompressionType::Zstd, data@), CompressionType::Zstd),
{
    codec_result(zstd_decode_all(data), CompressionType::Zstd)
}

pub fn compress_lz4(data: &[u8]) -> (r: Result<Vec<u8>, CompressionError>)
    ensures
        gave(r, compressed(CompressionType::Lz4, data@), CompressionType::Lz4),
{
    codec_result(lz4_block_compress(data, LZ4_LEVEL, true), CompressionType::Lz4)
}

pub fn decompress_lz4(data: &[u8]) -> (r: Result<Vec<u8>, CompressionError>)
    ensures
        gave(r, decompressed(CompressionType::Lz4, data@), CompressionType::Lz4),
{
    codec_result(lz4_block_decompress(data, None), CompressionType::Lz4)
}

pub fn compress_brotli(data: &[u8]) -> (r: Result<Vec<u8>, CompressionError>)
    ensures
        gave(r, compressed(CompressionType::Brotli, data@), CompressionType::Brotli),
{
    codec_result(
        brotli_write(data, BROTLI_BUFFER, BROTLI_QUALITY, BROTLI_WINDOW),
        CompressionType::Brotli,
    )
}

pub fn decompress_brotli(data: &[u8]) -> (r: Result<Vec<u8>, CompressionError>)
    ensures
        gave(r, decompressed(CompressionType::Brotli, data@), CompressionType::Brotli),
{
    codec_result(brotli_read(data, BROTLI_BUFFER), CompressionType::Brotli)
}

pub fn compress_gzip(data: &[u8]) -> (r: Result<Vec<u8>, CompressionError>)
    ensures
        gave(r, compressed(CompressionType::Gzip, data@), CompressionType::Gzip),
{
    codec_result(gzip_write(data, GZIP_LEVEL), CompressionType::Gzip)
}

pub fn decompress_gzip(data: &[u8]) -> (r: Result<Vec<u8>, CompressionError>)
    ensures
        gave(r, decompressed(CompressionType::Gzip, data@), CompressionType::Gzip),
{
    codec_result(gzip_read(data), CompressionType::Gzip)
}

pub fn compress_xz(data: &[u8]) -> (r: Result<Vec<u8>, CompressionError>)
    ensures
        gave(r, compressed(CompressionType::Xz, data@), CompressionType::Xz),
{
    codec_result(xz_write(data, XZ_LEVEL), CompressionType::Xz)
}

pub fn decompress_xz(data: &[u8]) -> (r: Result<Vec<u8>, CompressionError>)
    ensures
        gave(r, decompressed(CompressionType::Xz, data@), CompressionType::Xz),
{
    codec_result(xz_read(data), CompressionType::Xz)
}

} // verus!
