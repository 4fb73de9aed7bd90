use rq_library::file_io::{BufferReader, FileReader};
use rq_library::codec::BlockDecoder;
use rq_library::hash::get_hash_as_b58;
use rq_library::layout::{block_order, layout_to_json, BlockLayout, RaptorQLayout};
use rq_library::text::{join_path, text_with_number};

fn block(id: usize, symbols: Vec<&str>, hash: &str) -> BlockLayout {
    BlockLayout {
        block_id: id,
        encoder_parameters: vec![0, 0, 0, 4, 0, 0, 3, 232, 1, 0, 1, 1],
        original_offset: 1024 * id as u64,
        size: 1024,
        symbols: symbols.into_iter().map(|s| s.to_string()).collect(),
        hash: hash.to_string(),
    }
}

#[test]
fn manifest_text_is_exact() {
    let layout = RaptorQLayout { blocks: vec![block(0, vec!["a", "b\"c"], "h")] };
    let expected = "{\n  \"blocks\": [\n    {\n      \"block_id\": 0,\n      \"encoder_parameters\": [0, 0, 0, 4, 0, 0, 3, 232, 1, 0, 1, 1],\n      \"original_offset\": 0,\n      \"size\": 1024,\n      \"symbols\": [\"a\", \"b\\\"c\"],\n      \"hash\": \"h\"\n    }\n  ]\n}\n";
    assert_eq!(layout_to_json(&layout), expected);
}

#[test]
fn manifest_text_is_valid_json() {
    let layout = RaptorQLayout {
        blocks: vec![block(0, vec!["x\\y", "tab\there"], ""), block(1, vec![], "z")],
    };
    let text = layout_to_json(&layout);
    let v: serde_json::Value = serde_json::from_str(&text).unwrap();
    let blocks = v["blocks"].as_array().unwrap();
    assert_eq!(blocks.len(), 2);
    assert_eq!(blocks[0]["symbols"][0].as_str().unwrap(), "x\\y");
    assert_eq!(blocks[0]["symbols"][1].as_str().unwrap(), "tab\there");
    assert_eq!(blocks[1]["original_offset"].as_u64().unwrap(), 1024);
    assert_eq!(blocks[1]["symbols"].as_array().unwrap().len(), 0);
    assert_eq!(blocks[0]["encoder_parameters"][7].as_u64().unwrap(), 232);
}

#[test]
fn empty_manifest_text() {
    let layout = RaptorQLayout { blocks: vec![] };
    assert_eq!(layout_to_json(&layout), "{\n  \"blocks\": [\n\n  ]\n}\n");
}

#[test]
fn blocks_are_visited_by_id() {
    let blocks = vec![block(2, vec![], ""), block(0, vec![], ""), block(1, vec![], ""), block(0, vec![], "second")];
    assert_eq!(block_order(&blocks), vec![1, 3, 2, 0]);
    assert_eq!(block_order(&vec![]), Vec::<usize>::new());
}

#[test]
fn content_identifiers_are_base58_digests() {
    let a = get_hash_as_b58(b"hello");
    let b = get_hash_as_b58(b"hellp");
    assert_ne!(a, b);
    assert_eq!(a, get_hash_as_b58(b"hello"));
    assert!(a.len() >= 40 && a.len() <= 44);
    assert!(a.chars().all(|c| c.is_ascii_alphanumeric() && !"0OIl".contains(c)));
    let expected = bs58::encode(blake3::hash(b"hello").as_bytes()).into_string();
    assert_eq!(a, expected);
    assert_ne!(get_hash_as_b58(b""), "");
}

#[test]
fn paths_are_joined_with_one_separator() {
    assert_eq!(join_path("a/b", "c"), "a/b/c");
    assert_eq!(join_path("a/b/", "c"), "a/b/c");
    assert_eq!(join_path("", "c"), "c");
    assert_eq!(text_with_number("block_", 12), "block_12");
    assert_eq!(text_with_number("n", 0), "n0");
}

#[test]
fn decoder_accepts_only_encoder_parameters() {
    let params = raptorq::ObjectTransmissionInformation::with_defaults(1024, 128).serialize();
    assert!(BlockDecoder::new(&params).is_some());
    assert!(BlockDecoder::new(&[255u8; 12]).is_none());
    assert!(BlockDecoder::new(&params[..11]).is_none());
    let mut zero_len = params;
    zero_len[0..5].copy_from_slice(&[0, 0, 0, 0, 0]);
    assert!(BlockDecoder::new(&zero_len).is_none());
}

#[test]
fn decoder_skips_misshapen_packets() {
    let data: Vec<u8> = (0..1000u32).map(|i| (i % 251) as u8).collect();
    let encoder = raptorq::Encoder::with_defaults(&data, 100);
    let params = encoder.get_config().serialize();
    let mut decoder = BlockDecoder::new(&params).unwrap();
    assert!(decoder.decode(&[1, 2, 3]).is_none());
    assert!(decoder.decode(&vec![42u8; 104]).is_none());
    let mut result = None;
    for p in encoder.get_encoded_packets(2) {
        if let Some(r) = decoder.decode(&p.serialize()) {
            result = Some(r);
            break;
        }
    }
    assert_eq!(result.unwrap(), data);
}

#[test]
fn buffer_reader_reads_at_offsets() {
    let mut reader = BufferReader::new(b"abcdefghijklmnopqrstuvwxyz".to_vec());
    assert_eq!(reader.file_size().unwrap(), 26);
    let mut buf = vec![0u8; 5];
    assert_eq!(reader.read_chunk(0, &mut buf).unwrap(), 5);
    assert_eq!(&buf, b"abcde");
    assert_eq!(reader.read_chunk(5, &mut buf).unwrap(), 5);
    assert_eq!(&buf, b"fghij");
    assert_eq!(reader.read_chunk(25, &mut buf).unwrap(), 1);
    assert_eq!(&buf[..1], b"z");
    assert_eq!(reader.read_chunk(30, &mut buf).unwrap(), 0);
}
