use mq_bridge::codec::{compress_if_needed, decompress_if_needed, CodecError, MAX_HTTP_BODY_BYTES};
use mq_bridge::models::Compression;

#[test]
fn test_compress_decompress_round_trip_lz4_and_zstd() {
    for (method, token) in [(Compression::Lz4, "lz4"), (Compression::Zstd, "zstd")] {
        let data = vec![b'x'; 4096];
        let (compressed, encoding) = compress_if_needed(data.clone(), method, 16).unwrap();
        assert_eq!(encoding, Some(token));
        assert!(compressed.len() < data.len());
        let restored = decompress_if_needed(compressed, Some(token)).unwrap();
        assert_eq!(restored, data, "method {method:?}");
    }
}

#[test]
fn test_compress_decompress_round_trip_gzip_reuses_encoder() {
    for _ in 0..3 {
        for len in [1024usize, 4096, 200_000] {
            let data: Vec<u8> = (0..len).map(|i| (i % 251) as u8).collect();
            let (compressed, encoding) =
                compress_if_needed(data.clone(), Compression::Gzip, 16).unwrap();
            assert_eq!(encoding, Some("gzip"), "len {len}");
            let restored = decompress_if_needed(compressed, Some("gzip")).unwrap();
            assert_eq!(restored, data, "len {len}");
        }
    }
}

#[test]
fn small_bodies_and_the_identity_are_left_alone() {
    let data = vec![b'y'; 100];
    let (out, token) = compress_if_needed(data.clone(), Compression::Gzip, 101).unwrap();
    assert_eq!(out, data);
    assert_eq!(token, None);
    let (out, token) = compress_if_needed(data.clone(), Compression::Identity, 0).unwrap();
    assert_eq!(out, data);
    assert_eq!(token, None);
}

#[test]
fn a_body_that_does_not_shrink_is_sent_as_it_is() {
    let data = vec![7u8; 3];
    let (out, token) = compress_if_needed(data.clone(), Compression::Zstd, 0).unwrap();
    assert_eq!(out, data);
    assert_eq!(token, None);
}

#[test]
fn an_encoding_is_recognised_in_any_case_and_unknown_ones_pass() {
    let data = vec![b'z'; 2048];
    let (compressed, _) = compress_if_needed(data.clone(), Compression::Gzip, 0).unwrap();
    assert_eq!(decompress_if_needed(compressed.clone(), Some("x-GZIP")).unwrap(), data);
    assert_eq!(decompress_if_needed(compressed.clone(), Some("br")).unwrap(), compressed);
    assert_eq!(decompress_if_needed(compressed.clone(), None).unwrap(), compressed);
}

#[test]
fn a_malformed_body_is_a_decode_error() {
    let garbage = b"not compressed at all".to_vec();
    for (token, codec) in [("gzip", Compression::Gzip), ("zstd", Compression::Zstd), ("lz4", Compression::Lz4)] {
        match decompress_if_needed(garbage.clone(), Some(token)) {
            Err(e) => {
                assert!(matches!(&e, CodecError::Decode(c, text) if *c == codec && !text.is_empty()));
                // The decoder's own words are what the failure says.
                match &e {
                    CodecError::Decode(_, text) => assert_eq!(&e.message(), text),
                    _ => unreachable!(),
                }
            }
            Ok(_) => panic!("a malformed {token} body was accepted"),
        }
    }
}

#[test]
fn a_body_decoding_past_the_limit_is_refused() {
    let data = vec![0u8; MAX_HTTP_BODY_BYTES as usize + 1];
    let (compressed, token) = compress_if_needed(data, Compression::Zstd, 0).unwrap();
    assert_eq!(token, Some("zstd"));
    assert_eq!(
        decompress_if_needed(compressed, Some("zstd")),
        Err(CodecError::DecompressedTooLarge)
    );
    assert_eq!(
        CodecError::DecompressedTooLarge.message(),
        "decompressed body exceeds maximum allowed size of 268435456 bytes"
    );
}
