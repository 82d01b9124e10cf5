use corestate::erasure_coding::{ErasureCoder, ErasureError, Shard, ShardSet, ShardType};
use corestate::integrity::{classify, same_bytes, validate, verify, UnusableReason, UnusableShard};

fn payload_of(len: usize) -> Vec<u8> {
    (0..len).map(|i| ((i * 7 + 3) % 251) as u8).collect()
}

fn slots_of(set: &ShardSet) -> Vec<Option<Shard>> {
    set.shards.iter().cloned().map(Some).collect()
}

fn coder(k: usize, m: usize) -> ErasureCoder {
    match ErasureCoder::new(k, m) {
        Ok(c) => c,
        Err(e) => panic!("no coder for ({}, {}): {:?}", k, m, e),
    }
}

#[test]
fn four_plus_two_survives_the_loss_of_two() {
    let payload = payload_of(10_000);
    let c = coder(4, 2);
    let set = c.encode_backup(&payload).unwrap();
    assert_eq!(set.shards.len(), 6);
    assert_eq!(set.payload_len, 10_000);
    for (i, shard) in set.shards.iter().enumerate() {
        assert_eq!(shard.index, i);
        assert_eq!(shard.data.len(), 2_500);
        assert_eq!(shard.checksum.len(), 32);
        let kind = if i < 4 { ShardType::Data } else { ShardType::Parity };
        assert_eq!(shard.shard_type, kind);
    }
    let mut slots = slots_of(&set);
    slots[1] = None;
    slots[4] = None;
    assert_eq!(c.reconstruct_backup(slots, set.payload_len), Ok(payload));
}

#[test]
fn one_plus_zero_is_the_payload_itself() {
    let payload = payload_of(777);
    let c = coder(1, 0);
    let set = c.encode_backup(&payload).unwrap();
    assert_eq!(set.shards.len(), 1);
    assert_eq!(set.shards[0].data, payload);
    assert_eq!(set.shards[0].index, 0);
    assert_eq!(set.shards[0].shard_type, ShardType::Data);
    assert_eq!(c.reconstruct_backup(slots_of(&set), set.payload_len), Ok(payload));
}

#[test]
fn four_plus_two_fails_on_the_loss_of_any_three() {
    let payload = payload_of(10_000);
    let c = coder(4, 2);
    let set = c.encode_backup(&payload).unwrap();
    let mut tried = 0;
    for a in 0..6 {
        for b in (a + 1)..6 {
            for d in (b + 1)..6 {
                let mut slots = slots_of(&set);
                slots[a] = None;
                slots[b] = None;
                slots[d] = None;
                assert_eq!(
                    c.reconstruct_backup(slots, set.payload_len),
                    Err(ErasureError::InsufficientShards { available: 3, required: 4 })
                );
                tried += 1;
            }
        }
    }
    assert_eq!(tried, 20);
}

#[test]
fn any_two_of_six_may_be_lost() {
    let payload = payload_of(4_321);
    let c = coder(4, 2);
    let set = c.encode_backup(&payload).unwrap();
    for a in 0..6 {
        for b in (a + 1)..6 {
            let mut slots = slots_of(&set);
            slots[a] = None;
            slots[b] = None;
            assert_eq!(c.reconstruct_backup(slots, set.payload_len), Ok(payload.clone()));
        }
    }
}

#[test]
fn round_trip_for_many_shapes() {
    for (k, m, len) in [
        (1usize, 0usize, 1usize),
        (1, 1, 5),
        (2, 0, 7),
        (3, 2, 1),
        (3, 2, 2),
        (3, 2, 3),
        (4, 2, 9_999),
        (5, 3, 1_000),
        (10, 4, 12_345),
        (17, 0, 100),
        (200, 55, 1_000),
        (255, 0, 255),
        (1, 254, 3),
    ] {
        let payload = payload_of(len);
        let c = coder(k, m);
        let set = c.encode_backup(&payload).unwrap();
        assert_eq!(set.shards.len(), k + m);
        assert_eq!(set.payload_len, len);
        let size = (len + k - 1) / k;
        for shard in &set.shards {
            assert_eq!(shard.data.len(), size);
        }
        assert_eq!(c.reconstruct_backup(slots_of(&set), set.payload_len), Ok(payload));
    }
}

#[test]
fn data_shards_are_the_payload_cut_and_padded() {
    let payload: Vec<u8> = vec![1, 2, 3, 4, 5, 6, 7, 8, 9, 10];
    let set = coder(4, 2).encode_backup(&payload).unwrap();
    assert_eq!(set.shards[0].data, vec![1, 2, 3]);
    assert_eq!(set.shards[1].data, vec![4, 5, 6]);
    assert_eq!(set.shards[2].data, vec![7, 8, 9]);
    assert_eq!(set.shards[3].data, vec![10, 0, 0]);
    assert_eq!(set.shards[4].data.len(), 3);
    assert_eq!(set.shards[5].data.len(), 3);
}

#[test]
fn a_short_payload_leaves_whole_shards_of_padding() {
    let payload: Vec<u8> = vec![9, 8, 7, 6, 5];
    let c = coder(4, 1);
    let set = c.encode_backup(&payload).unwrap();
    assert_eq!(set.shards[0].data, vec![9, 8]);
    assert_eq!(set.shards[1].data, vec![7, 6]);
    assert_eq!(set.shards[2].data, vec![5, 0]);
    assert_eq!(set.shards[3].data, vec![0, 0]);
    let mut slots = slots_of(&set);
    slots[2] = None;
    assert_eq!(c.reconstruct_backup(slots, 5), Ok(payload));
}

#[test]
fn a_payload_that_ends_in_zeros_comes_back_whole() {
    let payload: Vec<u8> = vec![5, 0, 0, 0, 0, 0, 0];
    let c = coder(3, 2);
    let set = c.encode_backup(&payload).unwrap();
    let mut slots = slots_of(&set);
    slots[0] = None;
    slots[2] = None;
    assert_eq!(c.reconstruct_backup(slots, set.payload_len), Ok(payload));
}

#[test]
fn parity_of_a_single_data_shard_repeats_it() {
    let payload = payload_of(64);
    let set = coder(1, 2).encode_backup(&payload).unwrap();
    assert_eq!(set.shards[0].data, payload);
    assert_eq!(set.shards[1].data, payload);
    assert_eq!(set.shards[2].data, payload);
    assert_eq!(set.shards[1].shard_type, ShardType::Parity);
}

#[test]
fn parity_is_computed_not_left_blank() {
    let payload = payload_of(600);
    let set = coder(3, 2).encode_backup(&payload).unwrap();
    assert_ne!(set.shards[3].data, vec![0u8; 200]);
    assert_ne!(set.shards[4].data, vec![0u8; 200]);
    assert_ne!(set.shards[3].data, set.shards[4].data);
}

#[test]
fn a_lost_data_shard_is_rebuilt_from_parity() {
    let c = coder(2, 1);
    let set = c.encode_backup(&[1, 0, 0, 1]).unwrap();
    assert_eq!(set.shards[0].data, vec![1, 0]);
    assert_eq!(set.shards[1].data, vec![0, 1]);
    assert_ne!(set.shards[2].data, vec![0u8, 0]);
    let slots = vec![None, Some(set.shards[1].clone()), Some(set.shards[2].clone())];
    assert_eq!(c.reconstruct_backup(slots, 4), Ok(vec![1, 0, 0, 1]));
    let slots = vec![Some(set.shards[0].clone()), None, Some(set.shards[2].clone())];
    assert_eq!(c.reconstruct_backup(slots, 4), Ok(vec![1, 0, 0, 1]));
}

#[test]
fn encoding_twice_gives_the_same_shards() {
    let payload = payload_of(5_000);
    let first = coder(6, 3).encode_backup(&payload).unwrap();
    let second = coder(6, 3).encode_backup(&payload).unwrap();
    assert_eq!(first, second);
    for (a, b) in first.shards.iter().zip(second.shards.iter()) {
        assert_eq!(a.data, b.data);
        assert_eq!(a.checksum, b.checksum);
    }
}

#[test]
fn a_damaged_shard_counts_as_absent() {
    let payload = payload_of(10_000);
    let c = coder(4, 2);
    let set = c.encode_backup(&payload).unwrap();
    for victim in 0..6 {
        let mut damaged = slots_of(&set);
        if let Some(shard) = damaged[victim].as_mut() {
            shard.data[17] ^= 0x40;
        }
        let mut absent = slots_of(&set);
        absent[victim] = None;
        assert_eq!(
            c.reconstruct_backup(damaged.clone(), set.payload_len),
            c.reconstruct_backup(absent.clone(), set.payload_len)
        );
        assert_eq!(c.reconstruct_backup(damaged.clone(), set.payload_len), Ok(payload.clone()));

        // With two more gone, both fail alike.
        let others: Vec<usize> = (0..6).filter(|i| *i != victim).take(2).collect();
        for o in others {
            damaged[o] = None;
            absent[o] = None;
        }
        assert_eq!(
            c.reconstruct_backup(damaged, set.payload_len),
            Err(ErasureError::InsufficientShards { available: 3, required: 4 })
        );
        assert_eq!(
            c.reconstruct_backup(absent, set.payload_len),
            Err(ErasureError::InsufficientShards { available: 3, required: 4 })
        );
    }
}

#[test]
fn a_damaged_checksum_counts_as_absent() {
    let payload = payload_of(300);
    let c = coder(3, 1);
    let set = c.encode_backup(&payload).unwrap();
    let mut slots = slots_of(&set);
    if let Some(shard) = slots[1].as_mut() {
        shard.checksum[0] ^= 1;
    }
    assert_eq!(c.reconstruct_backup(slots.clone(), 300), Ok(payload));
    slots[0] = None;
    assert_eq!(
        c.reconstruct_backup(slots, 300),
        Err(ErasureError::InsufficientShards { available: 2, required: 3 })
    );
}

#[test]
fn shard_counts_are_checked() {
    assert_eq!(ErasureCoder::new(0, 1).err(), Some(ErasureError::InvalidInput));
    assert_eq!(ErasureCoder::new(0, 0).err(), Some(ErasureError::InvalidInput));
    assert_eq!(ErasureCoder::new(200, 56).err(), Some(ErasureError::InvalidInput));
    assert_eq!(ErasureCoder::new(256, 0).err(), Some(ErasureError::InvalidInput));
    assert_eq!(ErasureCoder::new(1, 255).err(), Some(ErasureError::InvalidInput));
    assert_eq!(ErasureCoder::new(usize::MAX, usize::MAX).err(), Some(ErasureError::InvalidInput));
    assert!(ErasureCoder::new(1, 0).is_ok());
    assert!(ErasureCoder::new(255, 0).is_ok());
    assert!(ErasureCoder::new(1, 254).is_ok());
    assert!(ErasureCoder::new(200, 55).is_ok());
}

#[test]
fn an_empty_payload_is_refused() {
    assert_eq!(coder(4, 2).encode_backup(&[]).err(), Some(ErasureError::InvalidInput));
    assert_eq!(coder(1, 0).encode_backup(&[]).err(), Some(ErasureError::InvalidInput));
}

#[test]
fn a_payload_length_of_zero_is_refused() {
    let c = coder(2, 1);
    let set = c.encode_backup(&[1, 2, 3, 4]).unwrap();
    assert_eq!(c.reconstruct_backup(slots_of(&set), 0), Err(ErasureError::InvalidInput));
}

#[test]
fn the_number_of_slots_has_to_fit() {
    let c = coder(2, 1);
    let set = c.encode_backup(&[1, 2, 3, 4]).unwrap();
    let mut short = slots_of(&set);
    short.pop();
    assert_eq!(c.reconstruct_backup(short, 4), Err(ErasureError::ParameterMismatch));
    let mut long = slots_of(&set);
    long.push(None);
    assert_eq!(c.reconstruct_backup(long, 4), Err(ErasureError::ParameterMismatch));
    assert_eq!(c.reconstruct_backup(Vec::new(), 4), Err(ErasureError::ParameterMismatch));
}

#[test]
fn a_shard_has_to_sit_at_its_index() {
    let c = coder(2, 1);
    let set = c.encode_backup(&[1, 2, 3, 4]).unwrap();
    let mut slots = slots_of(&set);
    slots.swap(0, 1);
    assert_eq!(c.reconstruct_backup(slots, 4), Err(ErasureError::ParameterMismatch));
}

#[test]
fn a_shard_has_to_be_of_the_kind_of_its_position() {
    let c = coder(2, 1);
    let set = c.encode_backup(&[1, 2, 3, 4]).unwrap();
    let mut slots = slots_of(&set);
    if let Some(shard) = slots[2].as_mut() {
        shard.shard_type = ShardType::Data;
    }
    assert_eq!(c.reconstruct_backup(slots, 4), Err(ErasureError::ParameterMismatch));
}

#[test]
fn the_payload_length_has_to_fit_the_shard_size() {
    let c = coder(4, 2);
    let payload = payload_of(10_000);
    let set = c.encode_backup(&payload).unwrap();
    assert_eq!(
        c.reconstruct_backup(slots_of(&set), 10_001),
        Err(ErasureError::ParameterMismatch)
    );
    assert_eq!(
        c.reconstruct_backup(slots_of(&set), 9_996),
        Err(ErasureError::ParameterMismatch)
    );
    // Any length that gives the same shard size is taken, and trims to that length.
    assert_eq!(
        c.reconstruct_backup(slots_of(&set), 9_997),
        Ok(payload[..9_997].to_vec())
    );
}

#[test]
fn shards_of_another_coder_do_not_fit() {
    let payload = payload_of(1_200);
    let set = coder(4, 2).encode_backup(&payload).unwrap();
    assert_eq!(
        coder(3, 3).reconstruct_backup(slots_of(&set), 1_200),
        Err(ErasureError::ParameterMismatch)
    );
}

#[test]
fn a_mismatch_among_damaged_shards_is_not_seen() {
    let c = coder(2, 2);
    let payload = payload_of(100);
    let set = c.encode_backup(&payload).unwrap();
    let mut slots = slots_of(&set);
    if let Some(shard) = slots[0].as_mut() {
        shard.index = 3;
        shard.data[0] ^= 0xff;
    }
    assert_eq!(c.reconstruct_backup(slots, 100), Ok(payload));
}

#[test]
fn too_few_shards_without_parity() {
    let c = coder(3, 0);
    let set = c.encode_backup(&[1, 2, 3, 4, 5, 6]).unwrap();
    let mut slots = slots_of(&set);
    slots[1] = None;
    assert_eq!(
        c.reconstruct_backup(slots, 6),
        Err(ErasureError::InsufficientShards { available: 2, required: 3 })
    );
    let none: Vec<Option<Shard>> = vec![None, None, None];
    assert_eq!(
        c.reconstruct_backup(none, 6),
        Err(ErasureError::InsufficientShards { available: 0, required: 3 })
    );
}

#[test]
fn checksums_are_blake3() {
    let empty = Shard {
        index: 0,
        data: Vec::new(),
        checksum: vec![
            0xaf, 0x13, 0x49, 0xb9, 0xf5, 0xf9, 0xa1, 0xa6, 0xa0, 0x40, 0x4d, 0xea, 0x36, 0xdc,
            0xc9, 0x49, 0x9b, 0xcb, 0x25, 0xc9, 0xad, 0xc1, 0x12, 0xb7, 0xcc, 0x9a, 0x93, 0xca,
            0xe4, 0x1f, 0x32, 0x62,
        ],
        shard_type: ShardType::Data,
    };
    assert!(validate(&empty));
    let set = coder(1, 0).encode_backup(b"abc").unwrap();
    assert_eq!(set.shards[0].checksum, blake3::hash(b"abc").as_bytes().to_vec());
    assert_ne!(set.shards[0].checksum, set.shards[0].data);
}

#[test]
fn validate_sees_any_change() {
    let set = coder(2, 1).encode_backup(&payload_of(50)).unwrap();
    for shard in &set.shards {
        assert!(validate(shard));
        assert_eq!(verify(shard), Ok(()));
        let mut data_changed = shard.clone();
        data_changed.data[3] ^= 1;
        assert!(!validate(&data_changed));
        assert_eq!(
            verify(&data_changed),
            Err(ErasureError::CorruptShard { index: shard.index })
        );
        let mut sum_changed = shard.clone();
        sum_changed.checksum[31] ^= 0x80;
        assert!(!validate(&sum_changed));
        let mut sum_short = shard.clone();
        sum_short.checksum.pop();
        assert!(!validate(&sum_short));
        let mut grown = shard.clone();
        grown.data.push(0);
        assert!(!validate(&grown));
    }
}

#[test]
fn classify_sorts_the_slots() {
    let set = coder(3, 2).encode_backup(&payload_of(90)).unwrap();
    let mut slots = slots_of(&set);
    slots[0] = None;
    if let Some(shard) = slots[2].as_mut() {
        shard.data[0] ^= 1;
    }
    slots[4] = None;
    let c = classify(&slots);
    assert_eq!(c.usable, vec![1, 3]);
    assert_eq!(
        c.unusable,
        vec![
            UnusableShard { index: 0, reason: UnusableReason::Absent },
            UnusableShard { index: 2, reason: UnusableReason::ChecksumMismatch },
            UnusableShard { index: 4, reason: UnusableReason::Absent },
        ]
    );
    let all = classify(&slots_of(&set));
    assert_eq!(all.usable, vec![0, 1, 2, 3, 4]);
    assert!(all.unusable.is_empty());
    let nothing = classify(&Vec::new());
    assert!(nothing.usable.is_empty());
    assert!(nothing.unusable.is_empty());
}

#[test]
fn same_bytes_compares_length_and_content() {
    assert!(same_bytes(&vec![], &vec![]));
    assert!(same_bytes(&vec![1, 2, 3], &vec![1, 2, 3]));
    assert!(!same_bytes(&vec![1, 2, 3], &vec![1, 2]));
    assert!(!same_bytes(&vec![1, 2, 3], &vec![1, 2, 4]));
    assert!(!same_bytes(&vec![0], &vec![]));
}
