//! How a payload is laid out over data shards, and how it is read back from them.
use vstd::arithmetic::div_mod::{lemma_fundamental_div_mod, lemma_fundamental_div_mod_converse};
use vstd::prelude::*;

verus! {

/// The number of bytes of each shard of a payload of `payload_len` bytes split over `k`
/// data shards: the quotient, rounded up.
pub open spec fn shard_size(payload_len: nat, k: nat) -> nat {
    if k == 0 {
        0
    } else {
        ((payload_len + k - 1) / (k as int)) as nat
    }
}

/// Data shard `i` of a payload: its bytes from `i * size` on, `size` of them, with zeros
/// where the payload has ended.
pub open spec fn data_shard(payload: Seq<u8>, k: nat, i: int) -> Seq<u8> {
    let size = shard_size(payload.len(), k);
    Seq::new(
        size,
        |j: int|
            if i * size + j < payload.len() {
                payload[i * size + j]
            } else {
                0u8
            },
    )
}

/// The `k` data shards of a payload.
pub open spec fn data_shards_of(payload: Seq<u8>, k: nat) -> Seq<Seq<u8>> {
    Seq::new(k, |i: int| data_shard(payload, k, i))
}

/// The first `payload_len` bytes of the shards read one after the other, each shard
/// `size` bytes long.
pub open spec fn joined(shards: Seq<Seq<u8>>, size: nat, payload_len: nat) -> Seq<u8> {
    Seq::new(payload_len, |p: int| shards[p / (size as int)][p % (size as int)])
}

/// The rounded-up quotient is the least size with which `k` shards hold the payload.
pub proof fn lemma_shard_size_bounds(payload_len: nat, k: nat)
    requires
        k >= 1,
    ensures
        payload_len <= k * shard_size(payload_len, k),
        payload_len >= 1 ==> shard_size(payload_len, k) >= 1,
        payload_len >= 1 ==> k * (shard_size(payload_len, k) - 1) < payload_len,
        shard_size(payload_len, k) <= payload_len,
{
    let total = (payload_len + k - 1) as int;
    let d = k as int;
    let q = total / d;
    let r = total % d;
    lemma_fundamental_div_mod(total, d);
    assert(total == d * q + r);
    assert(0 <= r < d);
    assert(q >= 0) by {
        if q < 0 {
            assert(d * q <= d * (-1)) by (nonlinear_arith)
                requires
                    q <= -1,
                    d >= 1,
            ;
        }
    }
    assert(payload_len <= d * q) by {
        assert(d * q == total - r);
    }
    if payload_len >= 1 {
        if q == 0 {
            assert(d * q == 0) by (nonlinear_arith)
                requires
                    q == 0,
            ;
        }
        assert(d * (q - 1) == d * q - d) by (nonlinear_arith);
    }
    assert(q <= payload_len) by {
        if q > payload_len {
            assert(d * q >= q) by (nonlinear_arith)
                requires
                    d >= 1,
                    q >= 0,
            ;
            if payload_len == 0 {
                assert(d * q >= d) by (nonlinear_arith)
                    requires
                        d >= 1,
                        q >= 1,
                ;
            } else {
                assert(d * q >= d * (payload_len + 1)) by (nonlinear_arith)
                    requires
                        d >= 1,
                        q >= payload_len + 1,
                ;
                assert(d * (payload_len + 1) >= payload_len + d) by (nonlinear_arith)
                    requires
                        d >= 1,
                        payload_len >= 1,
                ;
            }
        }
    }
}

/// Position `i * size + j` lies in shard `i` at offset `j`.
pub proof fn lemma_position(size: nat, i: int, j: int)
    requires
        0 <= i,
        0 <= j < size,
    ensures
        (i * size + j) / (size as int) == i,
        (i * size + j) % (size as int) == j,
{
    assert(i * size == size * i) by (nonlinear_arith);
    lemma_fundamental_div_mod_converse(i * size + j, size as int, i, j);
}

/// A position of the payload lies in one of the first `k` shards.
pub proof fn lemma_position_in_range(size: nat, k: nat, p: int)
    requires
        0 <= p < k * size,
    ensures
        size >= 1,
        0 <= p / (size as int) < k,
        0 <= p % (size as int) < size,
        (p / (size as int)) * size + p % (size as int) == p,
{
    if size == 0 {
        assert(k * size == 0) by (nonlinear_arith)
            requires
                size == 0,
        ;
    }
    let s = size as int;
    let q = p / s;
    lemma_fundamental_div_mod(p, s);
    assert(q * s == s * q) by (nonlinear_arith);
    if q >= k {
        assert(s * q >= s * k) by (nonlinear_arith)
            requires
                q >= k,
                s >= 1,
        ;
        assert(s * k == k * size) by (nonlinear_arith)
            requires
                s == size,
        ;
    }
    if q < 0 {
        assert(s * q <= s * (-1)) by (nonlinear_arith)
            requires
                q <= -1,
                s >= 1,
        ;
    }
}

/// Reading a payload back from its own data shards gives the payload.
pub proof fn lemma_joined_data_shards(payload: Seq<u8>, k: nat)
    requires
        k >= 1,
    ensures
        joined(data_shards_of(payload, k), shard_size(payload.len(), k), payload.len())
            == payload,
{
    let size = shard_size(payload.len(), k);
    let shards = data_shards_of(payload, k);
    let back = joined(shards, size, payload.len());
    lemma_shard_size_bounds(payload.len(), k);
    assert forall|p: int| 0 <= p < payload.len() implies back[p] == payload[p] by {
        lemma_position_in_range(size, k, p);
    }
    assert(back =~= payload);
}

} // verus!
