use crashlab_core::artifact_compress::{compress_artifact_json, decompress_artifact_json};

#[test]
fn compressed_json_round_trips() {
    let json = br#"{"schema":2,"seed":{"id":42,"payload":[1,2,3]}}"#.to_vec();
    let compressed = compress_artifact_json(&json).expect("compress");
    assert_ne!(compressed, json);
    assert_eq!(&compressed[..2], &[0x1f, 0x8b]);
    let restored = decompress_artifact_json(&compressed).expect("decompress");
    assert_eq!(restored, json);
}

#[test]
fn compression_shrinks_repetitive_json() {
    let json = vec![b'x'; 4096];
    let compressed = compress_artifact_json(&json).expect("compress");
    assert!(compressed.len() < json.len());
}

#[test]
fn corrupt_bytes_return_error() {
    assert!(decompress_artifact_json(b"not-gzip-data").is_err());
}

#[test]
fn compression_of_empty_input_succeeds_and_round_trips() {
    let compressed = compress_artifact_json(&[]).expect("compress");
    assert_eq!(&compressed[..2], &[0x1f, 0x8b]);
    assert_eq!(decompress_artifact_json(&compressed).expect("decompress"), Vec::<u8>::new());
}
