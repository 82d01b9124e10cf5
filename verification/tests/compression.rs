use corestate::compression::{
    choose_best_compression, compress_brotli, compress_data, compress_gzip, compress_lz4,
    compress_xz, compress_zstd, decompress_brotli, decompress_data, decompress_gzip,
    decompress_lz4, decompress_xz, decompress_zstd, keep_better, CompressionError,
    CompressionType,
};

#[test]
fn test_zstd_compression() {
    let data = b"Hello, World! This is a test string for compression.";
    let compressed = compress_zstd(data).unwrap();
    let decompressed = decompress_zstd(&compressed).unwrap();
    assert_eq!(data, decompressed.as_slice());
}

#[test]
fn test_all_compression_types() {
    let data = b"The quick brown fox jumps over the lazy dog. ".repeat(100);

    for compression_type in [
        CompressionType::Zstd,
        CompressionType::Lz4,
        CompressionType::Brotli,
        CompressionType::Gzip,
        CompressionType::Xz,
    ] {
        let compressed = compress_data(&data, compression_type).unwrap();
        let decompressed = decompress_data(&compressed, compression_type).unwrap();
        assert_eq!(data, decompressed);
        assert!(compressed.len() < data.len()); // Should compress well
    }
}

#[test]
fn test_best_compression_choice() {
    let data = b"This is a repetitive string. ".repeat(50);
    let (best_type, compressed) = choose_best_compression(&data).unwrap();
    let decompressed = decompress_data(&compressed, best_type).unwrap();
    assert_eq!(data, decompressed.as_slice());
}

#[test]
fn best_choice_is_the_first_smallest_of_the_four() {
    let data = b"abcabcabcabc, and then something that does not repeat: 0123456789".repeat(40);
    let (best_type, compressed) = choose_best_compression(&data).unwrap();
    let order = [
        CompressionType::Zstd,
        CompressionType::Lz4,
        CompressionType::Brotli,
        CompressionType::Gzip,
    ];
    let mut expected = order[0];
    let mut smallest = compress_data(&data, order[0]).unwrap();
    for t in &order[1..] {
        let out = compress_data(&data, *t).unwrap();
        if out.len() < smallest.len() {
            expected = *t;
            smallest = out;
        }
    }
    assert_eq!(best_type, expected);
    assert_eq!(compressed, smallest);
    assert_ne!(best_type, CompressionType::Xz);
}

#[test]
fn best_choice_of_empty_data_is_zstd() {
    let (best_type, compressed) = choose_best_compression(&[]).unwrap();
    assert_eq!(best_type, CompressionType::Zstd);
    assert_eq!(compressed, compress_zstd(&[]).unwrap());
    assert_eq!(decompress_zstd(&compressed).unwrap(), Vec::<u8>::new());
}

#[test]
fn keep_better_takes_the_strictly_smaller() {
    let best = (CompressionType::Zstd, vec![1u8, 2, 3]);
    let smaller = (CompressionType::Lz4, vec![9u8, 9]);
    let equal = (CompressionType::Brotli, vec![7u8, 7, 7]);
    let larger = (CompressionType::Gzip, vec![5u8, 5, 5, 5]);
    assert_eq!(keep_better(10, best.clone(), smaller.clone()), smaller);
    assert_eq!(keep_better(10, best.clone(), equal), best);
    assert_eq!(keep_better(10, best.clone(), larger), best);
    assert_eq!(keep_better(0, best.clone(), smaller), best);
}

#[test]
fn each_codec_round_trips_and_changes_the_bytes() {
    let data = b"round and round and round and round and round the data goes".repeat(20);
    let zstd = compress_zstd(&data).unwrap();
    assert_ne!(zstd, data);
    assert_eq!(decompress_zstd(&zstd).unwrap(), data);
    let lz4 = compress_lz4(&data).unwrap();
    assert_ne!(lz4, data);
    assert_eq!(decompress_lz4(&lz4).unwrap(), data);
    let brotli = compress_brotli(&data).unwrap();
    assert_ne!(brotli, data);
    assert_eq!(decompress_brotli(&brotli).unwrap(), data);
    let gzip = compress_gzip(&data).unwrap();
    assert_ne!(gzip, data);
    assert_eq!(decompress_gzip(&gzip).unwrap(), data);
    let xz = compress_xz(&data).unwrap();
    assert_ne!(xz, data);
    assert_eq!(decompress_xz(&xz).unwrap(), data);
}

#[test]
fn codecs_write_their_own_formats() {
    let data = b"format".repeat(10);
    assert_eq!(&compress_zstd(&data).unwrap()[..4], &[0x28, 0xb5, 0x2f, 0xfd]);
    assert_eq!(&compress_gzip(&data).unwrap()[..3], &[0x1f, 0x8b, 0x08]);
    assert_eq!(&compress_xz(&data).unwrap()[..6], &[0xfd, b'7', b'z', b'X', b'Z', 0x00]);
    // LZ4 blocks carry the length of the data in front, least byte first.
    assert_eq!(&compress_lz4(&data).unwrap()[..4], &[60, 0, 0, 0]);
}

#[test]
fn compression_is_repeatable() {
    let data = b"the same bytes in, the same bytes out. ".repeat(30);
    for t in [
        CompressionType::Zstd,
        CompressionType::Lz4,
        CompressionType::Brotli,
        CompressionType::Gzip,
        CompressionType::Xz,
    ] {
        assert_eq!(compress_data(&data, t).unwrap(), compress_data(&data, t).unwrap());
    }
}

#[test]
fn decompressing_garbage_fails_with_the_algorithm() {
    let garbage = [0x13u8, 0x37, 0x00, 0xff, 0x10, 0x20, 0x30, 0x40, 0x50];
    for t in [CompressionType::Zstd, CompressionType::Gzip, CompressionType::Xz] {
        match decompress_data(&garbage, t) {
            Err(CompressionError::Codec { algorithm, .. }) => assert_eq!(algorithm, t),
            other => panic!("expected a codec error, got {:?}", other),
        }
    }
}

#[test]
fn names_are_read_in_any_case() {
    assert_eq!(CompressionType::from_str("zstd").unwrap(), CompressionType::Zstd);
    assert_eq!(CompressionType::from_str("ZSTD").unwrap(), CompressionType::Zstd);
    assert_eq!(CompressionType::from_str("Lz4").unwrap(), CompressionType::Lz4);
    assert_eq!(CompressionType::from_str("BrOtLi").unwrap(), CompressionType::Brotli);
    assert_eq!(CompressionType::from_str("GZIP").unwrap(), CompressionType::Gzip);
    assert_eq!(CompressionType::from_str("xz").unwrap(), CompressionType::Xz);
}

#[test]
fn unknown_names_are_refused_with_the_name() {
    match CompressionType::from_str("Snappy") {
        Err(CompressionError::UnknownType { name }) => assert_eq!(name, "Snappy"),
        other => panic!("expected an unknown type, got {:?}", other),
    }
    assert!(CompressionType::from_str("").is_err());
    assert!(CompressionType::from_str(" zstd").is_err());
    assert!(CompressionType::from_str("zstd1").is_err());
}

#[test]
fn lower_case_names_only() {
    assert_eq!(CompressionType::from_lowercase("gzip"), Some(CompressionType::Gzip));
    assert_eq!(CompressionType::from_lowercase("GZIP"), None);
}

#[test]
fn every_name_stands_for_its_type() {
    for t in [
        CompressionType::Zstd,
        CompressionType::Lz4,
        CompressionType::Brotli,
        CompressionType::Gzip,
        CompressionType::Xz,
    ] {
        assert_eq!(CompressionType::from_str(t.as_str()).unwrap(), t);
    }
    assert_eq!(CompressionType::Zstd.as_str(), "zstd");
    assert_eq!(CompressionType::Lz4.as_str(), "lz4");
    assert_eq!(CompressionType::Brotli.as_str(), "brotli");
    assert_eq!(CompressionType::Gzip.as_str(), "gzip");
    assert_eq!(CompressionType::Xz.as_str(), "xz");
}
