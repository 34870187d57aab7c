use base64::engine::general_purpose::STANDARD;
use base64::Engine;
use clipman::codec::{
    chunk_data, chunk_progress, compress_data, count_chunks, decode_chunk, decode_chunks,
    detect_mime_type, encode_chunk, file_content, recorded_mime, CHUNK_SIZE,
    COMPRESSION_THRESHOLD,
};
use clipman::error::ClipboardError;
use clipman::model::{ChunkedContent, ClipboardFormat};
use flate2::read::GzDecoder;
use std::io::Read;

fn pattern(len: usize) -> Vec<u8> {
    let mut data = Vec::with_capacity(len);
    let mut x: u32 = 12345;
    for _ in 0..len {
        x = x.wrapping_mul(1103515245).wrapping_add(12345);
        data.push((x >> 16) as u8);
    }
    data
}

fn raw_chunk(index: usize, total: usize, bytes: &[u8]) -> ChunkedContent {
    ChunkedContent {
        chunk_index: index,
        total_chunks: total,
        data: STANDARD.encode(bytes),
        complete: index + 1 == total,
        compressed: false,
    }
}

#[test]
fn constants_are_canonical() {
    assert_eq!(CHUNK_SIZE, 1024 * 1024);
    assert_eq!(COMPRESSION_THRESHOLD, 100 * 1024);
}

#[test]
fn count_chunks_rounds_up() {
    assert_eq!(count_chunks(0), 0);
    assert_eq!(count_chunks(1), 1);
    assert_eq!(count_chunks(CHUNK_SIZE), 1);
    assert_eq!(count_chunks(CHUNK_SIZE + 1), 2);
    assert_eq!(count_chunks(5 * CHUNK_SIZE / 2), 3);
}

#[test]
fn roundtrip_empty() {
    let chunks = chunk_data(&[]);
    assert!(chunks.is_empty());
    assert_eq!(decode_chunks(&chunks), Ok(Vec::new()));
}

#[test]
fn roundtrip_small() {
    let data = b"hello world".to_vec();
    let chunks = chunk_data(&data);
    assert_eq!(chunks.len(), 1);
    assert_eq!(decode_chunks(&chunks), Ok(data));
}

#[test]
fn roundtrip_exactly_one_chunk() {
    let data = pattern(CHUNK_SIZE);
    let chunks = chunk_data(&data);
    assert_eq!(chunks.len(), 1);
    assert!(chunks[0].complete);
    assert_eq!(decode_chunks(&chunks), Ok(data));
}

#[test]
fn roundtrip_one_byte_over_a_chunk() {
    let data = pattern(CHUNK_SIZE + 1);
    let chunks = chunk_data(&data);
    assert_eq!(chunks.len(), 2);
    assert!(chunks[0].compressed);
    assert!(!chunks[1].compressed);
    assert!(!chunks[0].complete);
    assert!(chunks[1].complete);
    assert_eq!(chunks[1].data, STANDARD.encode(&data[CHUNK_SIZE..]));
    assert_eq!(decode_chunks(&chunks), Ok(data));
}

#[test]
fn two_and_a_half_mebibytes_give_three_compressed_chunks() {
    let data = pattern(5 * CHUNK_SIZE / 2);
    let chunks = chunk_data(&data);
    assert_eq!(chunks.len(), 3);
    for (i, chunk) in chunks.iter().enumerate() {
        assert_eq!(chunk.chunk_index, i);
        assert_eq!(chunk.total_chunks, 3);
        assert!(chunk.compressed);
        assert_eq!(chunk.complete, i == 2);
    }
    assert_eq!(decode_chunks(&chunks), Ok(data));
}

#[test]
fn small_chunk_is_plain_base64() {
    let chunks = chunk_data(b"hello world");
    assert_eq!(chunks[0].data, "aGVsbG8gd29ybGQ=");
    assert_eq!(chunks[0].chunk_index, 0);
    assert_eq!(chunks[0].total_chunks, 1);
    assert!(chunks[0].complete);
    assert!(!chunks[0].compressed);
}

#[test]
fn threshold_is_exclusive() {
    let at = vec![7u8; COMPRESSION_THRESHOLD];
    let over = vec![7u8; COMPRESSION_THRESHOLD + 1];
    let at_chunks = chunk_data(&at);
    let over_chunks = chunk_data(&over);
    assert!(!at_chunks[0].compressed);
    assert_eq!(at_chunks[0].data, STANDARD.encode(&at));
    assert!(over_chunks[0].compressed);
    assert_ne!(over_chunks[0].data, STANDARD.encode(&over));
    assert_eq!(decode_chunks(&at_chunks), Ok(at));
    assert_eq!(decode_chunks(&over_chunks), Ok(over));
}

#[test]
fn compressed_chunk_is_a_gzip_stream_in_base64() {
    let data = vec![42u8; COMPRESSION_THRESHOLD + 10];
    let chunk = encode_chunk(&data, 0);
    assert!(chunk.compressed);
    let stored = STANDARD.decode(&chunk.data).unwrap();
    assert_eq!(&stored[..2], &[0x1f, 0x8b]);
    assert!(stored.len() < data.len());
    let mut plain = Vec::new();
    GzDecoder::new(&stored[..]).read_to_end(&mut plain).unwrap();
    assert_eq!(plain, data);
}

#[test]
fn compress_data_gives_a_gzip_stream() {
    let data = vec![9u8; 4096];
    let packed = compress_data(&data);
    assert_ne!(packed, data);
    assert_eq!(&packed[..2], &[0x1f, 0x8b]);
    let chunk = ChunkedContent {
        chunk_index: 0,
        total_chunks: 1,
        data: STANDARD.encode(&packed),
        complete: true,
        compressed: true,
    };
    assert_eq!(decode_chunk(&chunk), Some(data));
}

#[test]
fn compressed_data_decompresses_to_the_same_bytes() {
    for data in [Vec::new(), vec![0u8; 1], pattern(70_000), vec![5u8; 300_000]] {
        let packed = compress_data(&data);
        let chunk = ChunkedContent {
            chunk_index: 0,
            total_chunks: 1,
            data: STANDARD.encode(&packed),
            complete: true,
            compressed: true,
        };
        assert_eq!(decode_chunks(&vec![chunk]), Ok(data));
    }
}

#[test]
fn decode_chunk_reads_plain_and_refuses_bad_text() {
    assert_eq!(decode_chunk(&raw_chunk(0, 1, b"abc")), Some(b"abc".to_vec()));
    let mut bad = raw_chunk(0, 1, b"abc");
    bad.data = "not base64!".to_string();
    assert_eq!(decode_chunk(&bad), None);
}

#[test]
fn damaged_stream_decodes_to_what_was_read() {
    let chunk = ChunkedContent {
        chunk_index: 0,
        total_chunks: 1,
        data: STANDARD.encode(b"this is no gzip stream"),
        complete: true,
        compressed: true,
    };
    assert_eq!(decode_chunks(&vec![chunk]), Ok(Vec::new()));
}

#[test]
fn chunks_in_any_order_decode_in_index_order() {
    let chunks = vec![raw_chunk(2, 3, b"!"), raw_chunk(0, 3, b"hello "), raw_chunk(1, 3, b"world")];
    assert_eq!(decode_chunks(&chunks), Ok(b"hello world!".to_vec()));
}

#[test]
fn duplicated_index_is_malformed() {
    let chunks = vec![raw_chunk(0, 2, b"a"), raw_chunk(0, 2, b"b")];
    assert_eq!(decode_chunks(&chunks), Err(ClipboardError::MalformedChunkSequence));
}

#[test]
fn missing_index_is_malformed() {
    let chunks = vec![raw_chunk(0, 3, b"a"), raw_chunk(2, 3, b"c")];
    assert_eq!(decode_chunks(&chunks), Err(ClipboardError::MalformedChunkSequence));
    let gap = vec![raw_chunk(0, 2, b"a"), raw_chunk(2, 2, b"c")];
    assert_eq!(decode_chunks(&gap), Err(ClipboardError::MalformedChunkSequence));
}

#[test]
fn final_marker_must_stand_once_on_the_last() {
    let mut none = vec![raw_chunk(0, 2, b"a"), raw_chunk(1, 2, b"b")];
    none[1].complete = false;
    assert_eq!(decode_chunks(&none), Err(ClipboardError::MalformedChunkSequence));
    let mut two = vec![raw_chunk(0, 2, b"a"), raw_chunk(1, 2, b"b")];
    two[0].complete = true;
    assert_eq!(decode_chunks(&two), Err(ClipboardError::MalformedChunkSequence));
    let mut wrong = vec![raw_chunk(0, 2, b"a"), raw_chunk(1, 2, b"b")];
    wrong[0].complete = true;
    wrong[1].complete = false;
    assert_eq!(decode_chunks(&wrong), Err(ClipboardError::MalformedChunkSequence));
}

#[test]
fn wrong_total_is_malformed() {
    let chunks = vec![raw_chunk(0, 1, b"a"), raw_chunk(1, 2, b"b")];
    assert_eq!(decode_chunks(&chunks), Err(ClipboardError::MalformedChunkSequence));
}

#[test]
fn text_that_is_not_base64_is_malformed() {
    let mut chunks = vec![raw_chunk(0, 1, b"abc")];
    chunks[0].data = "***".to_string();
    assert_eq!(decode_chunks(&chunks), Err(ClipboardError::MalformedChunkSequence));
}

#[test]
fn only_the_last_chunk_is_complete() {
    let data = pattern(3 * CHUNK_SIZE + 5);
    let chunks = chunk_data(&data);
    assert_eq!(chunks.len(), 4);
    let marked: Vec<usize> =
        chunks.iter().filter(|c| c.complete).map(|c| c.chunk_index).collect();
    assert_eq!(marked, vec![3]);
}

#[test]
fn encode_chunk_agrees_with_chunk_data() {
    let data = pattern(CHUNK_SIZE + 100);
    let chunks = chunk_data(&data);
    for i in 0..chunks.len() {
        assert!(encode_chunk(&data, i).same_as(&chunks[i]));
    }
}

#[test]
fn progress_counts_chunks_and_bytes() {
    let total = 5 * CHUNK_SIZE / 2;
    let first = chunk_progress(0, total);
    assert_eq!(first.operation, "Chunking");
    assert_eq!(first.completed_chunks, 1);
    assert_eq!(first.total_chunks, 3);
    assert_eq!(first.bytes_processed, CHUNK_SIZE);
    assert_eq!(first.total_bytes, total);
    let last = chunk_progress(2, total);
    assert_eq!(last.completed_chunks, 3);
    assert_eq!(last.bytes_processed, total);
}

#[test]
fn mime_type_is_always_given() {
    assert!(detect_mime_type(b"plain words").is_some());
    assert!(detect_mime_type(&[]).is_some());
}

#[test]
fn file_content_records_size_chunks_and_path() {
    let data = pattern(COMPRESSION_THRESHOLD + 1);
    match file_content(&data, Some("/tmp/blob.bin".to_string())) {
        ClipboardFormat::FileContent { chunks, original_path, mime_type, total_size, compressed } => {
            assert_eq!(chunks.len(), 1);
            assert_eq!(original_path.as_deref(), Some("/tmp/blob.bin"));
            assert!(mime_type.is_some());
            assert_eq!(total_size, data.len());
            assert!(compressed);
            assert_eq!(decode_chunks(&chunks), Ok(data));
        }
        other => panic!("not a file content: {:?}", other),
    }
    match file_content(b"tiny", None) {
        ClipboardFormat::FileContent { compressed, total_size, original_path, .. } => {
            assert!(!compressed);
            assert_eq!(total_size, 4);
            assert!(original_path.is_none());
        }
        other => panic!("not a file content: {:?}", other),
    }
}

#[test]
fn judgement_is_recorded_as_it_is() {
    assert_eq!(recorded_mime("image/gif".to_string()), Some("image/gif".to_string()));
    assert_eq!(recorded_mime(String::new()), Some(String::new()));
}
