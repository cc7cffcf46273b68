use btrfs_core::compress::{
    compress, compress_lzo, compress_zlib, compress_zstd, compression_round_trip, decompress,
    decompress_lzo, decompress_zlib, decompress_zstd, CompressionType,
};

#[test]
fn test_compression_type() {
    assert_eq!(
        CompressionType::from_u8(0).unwrap(),
        CompressionType::NoCompression
    );
    assert_eq!(CompressionType::from_u8(1).unwrap(), CompressionType::Zlib);
    assert_eq!(CompressionType::from_u8(2).unwrap(), CompressionType::Lzo);
    assert_eq!(CompressionType::from_u8(3).unwrap(), CompressionType::Zstd);
    assert!(CompressionType::from_u8(255).is_err());
}

#[test]
fn test_compression_type_to_u8() {
    assert_eq!(CompressionType::NoCompression.to_u8(), 0);
    assert_eq!(CompressionType::Zlib.to_u8(), 1);
    assert_eq!(CompressionType::Lzo.to_u8(), 2);
    assert_eq!(CompressionType::Zstd.to_u8(), 3);
}

#[test]
fn test_zlib_roundtrip() {
    let data = b"Hello, BTRFS compression!";
    let compressed = compress_zlib(data, 6).unwrap();
    let decompressed = decompress_zlib(&compressed, data.len()).unwrap();
    assert_eq!(&decompressed, data);
}

#[test]
fn test_zstd_roundtrip() {
    let data = b"Hello, BTRFS compression!";
    let compressed = compress_zstd(data, 3).unwrap();
    let decompressed = decompress_zstd(&compressed, data.len()).unwrap();
    assert_eq!(&decompressed, data);
}

#[test]
fn test_lzo_roundtrip() {
    let data = b"Hello, BTRFS segmented compression!";
    let compressed = compress_lzo(data).unwrap();
    let decompressed = decompress_lzo(&compressed, data.len()).unwrap();
    assert_eq!(&decompressed, data);
}

#[test]
fn test_decompress_none() {
    let data = b"uncompressed data";
    let result = decompress(CompressionType::NoCompression, data, data.len()).unwrap();
    assert_eq!(result, data);
}

#[test]
fn test_compress_none() {
    let data = b"uncompressed data";
    let result = compress(CompressionType::NoCompression, data, 0).unwrap();
    assert_eq!(result, data);
}

#[test]
fn test_compress_zlib_via_generic() {
    let data = b"test data for compression";
    let compressed = compress(CompressionType::Zlib, data, 6).unwrap();
    let decompressed = decompress(CompressionType::Zlib, &compressed, data.len()).unwrap();
    assert_eq!(decompressed, data);
}

#[test]
fn test_compress_zstd_via_generic() {
    let data = b"test data for compression";
    let compressed = compress(CompressionType::Zstd, data, 3).unwrap();
    let decompressed = decompress(CompressionType::Zstd, &compressed, data.len()).unwrap();
    assert_eq!(decompressed, data);
}

#[test]
fn test_zlib_various_sizes() {
    for size in [0, 1, 100, 1000, 10000] {
        let data: Vec<u8> = (0..size).map(|i| (i % 256) as u8).collect();
        let compressed = compress_zlib(&data, 6).unwrap();
        let decompressed = decompress_zlib(&compressed, data.len()).unwrap();
        assert_eq!(decompressed, data);
    }
}

#[test]
fn test_zstd_various_sizes() {
    for size in [0, 1, 100, 1000, 10000] {
        let data: Vec<u8> = (0..size).map(|i| (i % 256) as u8).collect();
        let compressed = compress_zstd(&data, 3).unwrap();
        let decompressed = decompress_zstd(&compressed, data.len()).unwrap();
        assert_eq!(decompressed, data);
    }
}

#[test]
fn test_lzo_various_sizes() {
    for size in [1, 100, 1000, 10000] {
        let data: Vec<u8> = (0..size).map(|i| (i % 256) as u8).collect();
        let compressed = compress_lzo(&data).unwrap();
        let decompressed = decompress_lzo(&compressed, data.len()).unwrap();
        assert_eq!(decompressed, data);
    }
}

#[test]
fn test_zlib_compression_levels() {
    let data = b"test data for various compression levels";
    for level in [1, 3, 6, 9] {
        let compressed = compress_zlib(data, level).unwrap();
        let decompressed = decompress_zlib(&compressed, data.len()).unwrap();
        assert_eq!(&decompressed[..], &data[..]);
    }
}

#[test]
fn test_zstd_compression_levels() {
    let data = b"test data for various compression levels";
    for level in [1, 3, 10, 19] {
        let compressed = compress_zstd(data, level).unwrap();
        let decompressed = decompress_zstd(&compressed, data.len()).unwrap();
        assert_eq!(&decompressed[..], &data[..]);
    }
}

#[test]
fn test_round_trip_all_algorithms() {
    // The round-trip law, through the one function whose contract
    // states it, for every algorithm and a spread of inputs.
    let algos = [
        CompressionType::NoCompression,
        CompressionType::Zlib,
        CompressionType::Lzo,
        CompressionType::Zstd,
    ];
    for algo in algos {
        for size in [1usize, 17, 4096, 100_000] {
            let data: Vec<u8> = (0..size).map(|i| ((i * 31 + 7) % 251) as u8).collect();
            let back = compression_round_trip(algo, &data, 3).unwrap();
            assert_eq!(back, data);
        }
    }
}

#[test]
fn test_zstd_zeros_compress_small() {
    // A 10000-byte zero run compresses to no more than a tenth of its
    // size and decompresses back exactly, at level 3.
    let data = vec![0u8; 10000];
    let compressed = compress_zstd(&data, 3).unwrap();
    assert!(compressed.len() <= 1000);
    let decompressed = decompress_zstd(&compressed, data.len()).unwrap();
    assert_eq!(decompressed, data);
}

#[test]
fn test_compression_actually_compresses() {
    // The encoders hand back an encoding, never the input unchanged.
    let data = vec![7u8; 4096];
    let zl = compress_zlib(&data, 6).unwrap();
    assert_ne!(zl, data);
    let zs = compress_zstd(&data, 3).unwrap();
    assert_ne!(zs, data);
    let lz = compress_lzo(&data).unwrap();
    assert_ne!(lz, data);
}

#[test]
fn test_decompress_garbage_fails() {
    let garbage = b"\xff\xfe\xfd\xfc this is not a compressed stream";
    assert!(decompress_zlib(garbage, 64).is_err());
    assert!(decompress_zstd(garbage, 64).is_err());
}

#[test]
fn test_compression_type_debug() {
    let ct = CompressionType::Zstd;
    let debug_str = format!("{:?}", ct);
    assert!(debug_str.contains("Zstd"));
}

#[test]
fn test_compression_type_clone() {
    let ct1 = CompressionType::Zlib;
    let ct2 = ct1.clone();
    assert_eq!(ct1, ct2);
}

#[test]
fn test_compression_type_copy() {
    let ct1 = CompressionType::Lzo;
    let ct2 = ct1;
    assert_eq!(ct1, ct2);
}

#[test]
fn test_highly_compressible_data() {
    // Data with lots of repetition should compress well
    let data = vec![0u8; 10000];

    let zlib_compressed = compress_zlib(&data, 6).unwrap();
    assert!(zlib_compressed.len() < data.len() / 10);

    let zstd_compressed = compress_zstd(&data, 3).unwrap();
    assert!(zstd_compressed.len() < data.len() / 10);
}

#[test]
fn test_incompressible_data() {
    // Random-ish data shouldn't compress much
    let data: Vec<u8> = (0..1000).map(|i| ((i * 17 + 31) % 256) as u8).collect();

    let compressed = compress_zlib(&data, 6).unwrap();
    // Might actually be larger due to headers
    let decompressed = decompress_zlib(&compressed, data.len()).unwrap();
    assert_eq!(decompressed, data);
}
