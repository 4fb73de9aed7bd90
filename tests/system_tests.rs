use std::cell::RefCell;
use std::collections::{BTreeMap, BTreeSet};
use std::rc::Rc;

use rand::{Rng, SeedableRng};
use rand::rngs::StdRng;
use raptorq::{Encoder, ObjectTransmissionInformation};
use rq_library::config::ProcessorConfig;
use rq_library::file_io::{BufferReader, DirManager, FileSystem, FileWriter};
use rq_library::hash::get_hash_as_b58;
use rq_library::layout::layout_to_json;
use rq_library::processor::{BlockLayout, ProcessError, ProcessResult, RaptorQLayout, RaptorQProcessor};

// ---- an in-memory storage back end ----

#[derive(Default)]
struct Store {
    files: BTreeMap<String, Vec<u8>>,
    dirs: BTreeSet<String>,
}

#[derive(Clone, Default)]
struct MemFs {
    inner: Rc<RefCell<Store>>,
}

fn parent(path: &str) -> String {
    match path.rfind('/') {
        Some(i) => path[..i].to_string(),
        None => String::new(),
    }
}

fn join(dir: &str, name: &str) -> String {
    format!("{}/{}", dir, name)
}

impl MemFs {
    fn put(&self, path: &str, data: &[u8]) {
        self.inner.borrow_mut().files.insert(path.to_string(), data.to_vec());
    }
    fn get(&self, path: &str) -> Option<Vec<u8>> {
        self.inner.borrow().files.get(path).cloned()
    }
    fn remove(&self, path: &str) {
        self.inner.borrow_mut().files.remove(path);
    }
    fn has(&self, path: &str) -> bool {
        let st = self.inner.borrow();
        st.files.contains_key(path) || st.dirs.contains(path)
    }
    fn mkdir(&self, path: &str) {
        self.dirs().create_dir_all(path).unwrap();
    }
    fn files_in(&self, dir: &str) -> Vec<String> {
        self.inner.borrow().files.keys().filter(|k| parent(k) == dir).cloned().collect()
    }
}

struct MemWriter {
    fs: MemFs,
    path: String,
}

impl FileWriter for MemWriter {
    fn write_chunk(&mut self, offset: usize, data: &[u8]) -> Result<(), String> {
        let mut st = self.fs.inner.borrow_mut();
        let file = st.files.entry(self.path.clone()).or_default();
        if file.len() < offset + data.len() {
            file.resize(offset + data.len(), 0);
        }
        file[offset..offset + data.len()].copy_from_slice(data);
        Ok(())
    }
    fn flush(&mut self) -> Result<(), String> {
        Ok(())
    }
}

struct MemDirs {
    fs: MemFs,
}

impl DirManager for MemDirs {
    fn create_dir_all(&self, path: &str) -> Result<(), String> {
        let mut p = path.trim_end_matches('/').to_string();
        let mut st = self.fs.inner.borrow_mut();
        while !p.is_empty() {
            st.dirs.insert(p.clone());
            p = parent(&p);
        }
        Ok(())
    }
    fn dir_exists(&self, path: &str) -> Result<bool, String> {
        Ok(self.fs.inner.borrow().dirs.contains(path.trim_end_matches('/')))
    }
    fn count_files(&self, path: &str) -> Result<usize, String> {
        Ok(self.fs.files_in(path.trim_end_matches('/')).len())
    }
}

impl FileSystem for MemFs {
    type Reader = BufferReader;
    type Writer = MemWriter;
    type Dirs = MemDirs;

    fn open_reader(&self, path: &str) -> Result<BufferReader, String> {
        self.get(path).map(BufferReader::new).ok_or_else(|| format!("No such file: {}", path))
    }
    fn open_writer(&self, path: &str) -> Result<MemWriter, String> {
        let dir = parent(path);
        if !dir.is_empty() && !self.inner.borrow().dirs.contains(&dir) {
            return Err(format!("No such directory: {}", dir));
        }
        self.put(path, &[]);
        Ok(MemWriter { fs: self.clone(), path: path.to_string() })
    }
    fn dirs(&self) -> MemDirs {
        MemDirs { fs: self.clone() }
    }
}

// ---- helpers ----

fn new_fs() -> MemFs {
    let fs = MemFs::default();
    fs.mkdir("tmp");
    fs
}

fn generate_test_data(size: usize) -> Vec<u8> {
    (0..size).map(|i| (i % 256) as u8).collect()
}

fn encode_test_data(data: &[u8], symbol_size: u16, repair_symbols: u64) -> (Vec<u8>, Vec<Vec<u8>>) {
    let config = ObjectTransmissionInformation::with_defaults(data.len() as u64, symbol_size);
    let encoder = Encoder::new(data, config);
    let packets = encoder.get_encoded_packets(repair_symbols as u32);
    let serialized: Vec<Vec<u8>> = packets.iter().map(|p| p.serialize()).collect();
    (encoder.get_config().serialize().to_vec(), serialized)
}

fn create_symbol_files(fs: &MemFs, dir: &str, packets: &[Vec<u8>]) {
    for (i, packet) in packets.iter().enumerate() {
        fs.put(&join(dir, &format!("symbol_{}.bin", i)), packet);
    }
}

fn create_block_layout(original_data: &[u8], encoder_params: Vec<u8>, packets: &[Vec<u8>]) -> BlockLayout {
    BlockLayout {
        block_id: 0,
        encoder_parameters: encoder_params,
        original_offset: 0,
        size: original_data.len() as u64,
        symbols: (0..packets.len()).map(|i| format!("symbol_{}.bin", i)).collect(),
        hash: get_hash_as_b58(original_data),
    }
}

fn parse_layout(text: &str) -> Result<RaptorQLayout, String> {
    let v: serde_json::Value = serde_json::from_str(text).map_err(|e| e.to_string())?;
    let blocks = v.get("blocks").and_then(|b| b.as_array()).ok_or("missing blocks")?;
    let mut out = Vec::new();
    for b in blocks {
        let num = |k: &str| b.get(k).and_then(|x| x.as_u64()).ok_or(format!("missing {}", k));
        out.push(BlockLayout {
            block_id: num("block_id")? as usize,
            encoder_parameters: b["encoder_parameters"]
                .as_array()
                .ok_or("missing encoder_parameters")?
                .iter()
                .map(|x| x.as_u64().unwrap_or(0) as u8)
                .collect(),
            original_offset: num("original_offset")?,
            size: num("size")?,
            symbols: b["symbols"]
                .as_array()
                .ok_or("missing symbols")?
                .iter()
                .map(|x| x.as_str().unwrap_or("").to_string())
                .collect(),
            hash: b["hash"].as_str().ok_or("missing hash")?.to_string(),
        });
    }
    Ok(RaptorQLayout { blocks: out })
}

fn write_layout(fs: &MemFs, path: &str, layout: &RaptorQLayout) {
    fs.put(path, layout_to_json(layout).as_bytes());
}

fn decode_symbols(
    processor: &RaptorQProcessor,
    fs: &MemFs,
    symbols_dir: &str,
    output_path: &str,
    layout_path: &str,
) -> Result<(), ProcessError> {
    let bytes = processor.read_layout_file(fs, layout_path)?;
    let text = String::from_utf8(bytes).map_err(|e| ProcessError::DecodingFailed(e.to_string()))?;
    let layout = parse_layout(&text).map_err(ProcessError::DecodingFailed)?;
    processor.decode_symbols_with_layout(fs, symbols_dir, output_path, &layout)
}


fn random_data(size: usize) -> Vec<u8> {
    let mut rng = StdRng::from_seed([42u8; 32]);
    let mut data = vec![0u8; size];
    rng.fill(&mut data[..]);
    data
}

struct TestContext {
    fs: MemFs,
    data: Vec<u8>,
}

impl TestContext {
    fn new(size: usize) -> Self {
        Self::with_data(random_data(size))
    }
    fn with_data(data: Vec<u8>) -> Self {
        let fs = new_fs();
        fs.put("tmp/input.bin", &data);
        TestContext { fs, data }
    }
    fn layout_path(&self) -> String {
        "tmp/symbols/_raptorq_layout.json".to_string()
    }
    fn verify_files_match(&self) -> bool {
        self.fs.get("tmp/output.bin") == Some(self.data.clone())
    }
    fn manifest(&self, path: &str) -> RaptorQLayout {
        parse_layout(&String::from_utf8(self.fs.get(path).unwrap()).unwrap()).unwrap()
    }
    // Keeps, per block, the symbols the manifest lists first (the source
    // symbols) and `keep_repair(i)` of the others.
    fn prune_symbols(&self, result: &ProcessResult, mut keep_repair: impl FnMut(usize) -> bool) {
        let layout = self.manifest(&self.layout_path());
        let infos = result.blocks.as_ref().unwrap();
        for (block, info) in layout.blocks.iter().zip(infos.iter()) {
            for (i, id) in block.symbols.iter().enumerate() {
                if i >= info.source_symbols_count as usize && !keep_repair(i) {
                    self.fs.remove(&format!("tmp/symbols/block_{}/{}", block.block_id, id));
                }
            }
        }
    }
}

fn test_encode_decode(size: usize, processor: &RaptorQProcessor, block_size: usize) -> bool {
    let ctx = TestContext::new(size);
    processor.encode_file(&ctx.fs, "tmp/input.bin", "tmp/symbols", block_size, false).expect("Failed to encode file");
    decode_symbols(processor, &ctx.fs, "tmp/symbols", "tmp/output.bin", &ctx.layout_path()).expect("Failed to decode symbols");
    ctx.verify_files_match()
}

#[test]
fn test_sys_encode_decode_small_file() {
    let mut config = ProcessorConfig::default();
    config.redundancy_factor = 2;
    let processor = RaptorQProcessor::new(config);
    assert!(test_encode_decode(1024, &processor, 0), "Decoded file does not match original");
}

#[test]
fn test_sys_encode_decode_medium_file() {
    let processor = RaptorQProcessor::new(ProcessorConfig::default());
    assert!(test_encode_decode(10 * 1024 * 1024, &processor, 0), "Decoded file does not match original");
}

#[test]
fn test_sys_decode_minimum_symbols() {
    let processor = RaptorQProcessor::new(ProcessorConfig::default());
    let ctx = TestContext::new(5 * 1024 * 1024);
    let result = processor.encode_file(&ctx.fs, "tmp/input.bin", "tmp/symbols", 0, false).expect("Failed to encode file");
    ctx.prune_symbols(&result, |_| false);
    decode_symbols(&processor, &ctx.fs, "tmp/symbols", "tmp/output.bin", &ctx.layout_path())
        .expect("Failed to decode with only source symbols");
    assert!(ctx.verify_files_match(), "Decoded file does not match original");
}

#[test]
fn test_sys_decode_redundant_symbols() {
    let processor = RaptorQProcessor::new(ProcessorConfig::default());
    let ctx = TestContext::new(5 * 1024 * 1024);
    processor.encode_file(&ctx.fs, "tmp/input.bin", "tmp/symbols", 0, false).expect("Failed to encode file");
    decode_symbols(&processor, &ctx.fs, "tmp/symbols", "tmp/output.bin", &ctx.layout_path())
        .expect("Failed to decode with all symbols");
    assert!(ctx.verify_files_match(), "Decoded file does not match original");
}

#[test]
fn test_sys_decode_random_subset() {
    let processor = RaptorQProcessor::new(ProcessorConfig::default());
    let ctx = TestContext::new(5 * 1024 * 1024);
    let result = processor.encode_file(&ctx.fs, "tmp/input.bin", "tmp/symbols", 0, false).expect("Failed to encode file");
    let mut rng = StdRng::seed_from_u64(7);
    ctx.prune_symbols(&result, |_| rng.gen_bool(0.5));
    decode_symbols(&processor, &ctx.fs, "tmp/symbols", "tmp/output.bin", &ctx.layout_path())
        .expect("Failed to decode with random subset of symbols");
    assert!(ctx.verify_files_match(), "Decoded file does not match original");
}

#[test]
fn test_sys_error_handling_encode() {
    let processor = RaptorQProcessor::new(ProcessorConfig::default());
    let ctx = TestContext::new(1024);
    let result = processor.encode_file(&ctx.fs, "tmp/does_not_exist.bin", "tmp/symbols", 0, false);
    assert!(result.is_err(), "Expected encoding to fail with non-existent file");
    match result {
        Err(err) => assert!(err.to_string().contains("not found"), "Error message should indicate file not found"),
        _ => panic!("Expected FileNotFound error"),
    }
}

#[test]
fn test_sys_error_handling_decode() {
    let processor = RaptorQProcessor::new(ProcessorConfig::default());
    let ctx = TestContext::new(1024);
    let result = decode_symbols(&processor, &ctx.fs, "tmp/non_existent_symbols", "tmp/output.bin", "tmp/non_existent_layout.json");
    assert!(result.is_err(), "Expected decoding to fail with non-existent symbols dir");
    match result {
        Err(err) => assert!(err.to_string().contains("not found"), "Error message should indicate directory not found"),
        _ => panic!("Expected FileNotFound error"),
    }
}

fn test_create_metadata(size: usize, processor: &RaptorQProcessor, block_size: usize, return_layout: bool) -> bool {
    let ctx = TestContext::new(size);
    let result = processor.create_metadata(&ctx.fs, "tmp/input.bin", "tmp", block_size, return_layout).expect("Failed to create metadata");
    assert!(!result.layout_file_path.is_empty(), "Layout file path should not be empty");
    if return_layout {
        assert!(result.layout_content.is_some());
        assert!(!ctx.fs.has(&result.layout_file_path));
    } else {
        assert!(result.layout_content.is_none());
        assert!(ctx.fs.has(&result.layout_file_path));
    }
    assert!(!ctx.fs.has("tmp/block_0"), "Block directories should NOT be created");
    let layout_path = if return_layout {
        let path = "tmp/_raptorq_layout.json".to_string();
        ctx.fs.put(&path, result.layout_content.as_ref().unwrap().as_bytes());
        path
    } else {
        result.layout_file_path.clone()
    };
    processor.encode_file(&ctx.fs, "tmp/input.bin", "tmp/symbols", block_size, false).expect("Failed to encode file");
    decode_symbols(processor, &ctx.fs, "tmp/symbols", "tmp/output.bin", &layout_path)
        .expect("Failed to decode symbols with metadata layout");
    ctx.verify_files_match()
}

#[test]
fn test_sys_create_metadata_small_file() {
    let mut config = ProcessorConfig::default();
    config.redundancy_factor = 2;
    let processor = RaptorQProcessor::new(config);
    assert!(test_create_metadata(1024, &processor, 0, false), "Verification of metadata creation failed");
}

#[test]
fn test_sys_create_metadata_return_layout() {
    let processor = RaptorQProcessor::new(ProcessorConfig::default());
    assert!(test_create_metadata(5 * 1024, &processor, 0, true));
}

#[test]
fn test_sys_create_metadata_medium_file_auto_chunk() {
    let processor = RaptorQProcessor::new(ProcessorConfig {
        symbol_size: 1024,
        redundancy_factor: 6,
        max_memory_mb: 1,
        concurrency_limit: 4,
    });
    assert!(test_create_metadata(10 * 1024, &processor, 0, false));
}

#[test]
fn test_sys_create_metadata_medium_file_manual_chunk() {
    let processor = RaptorQProcessor::new(ProcessorConfig::default());
    assert!(test_create_metadata(50 * 1024, &processor, 10 * 1024, false));
}

#[test]
fn test_sys_error_handling_create_metadata() {
    let processor = RaptorQProcessor::new(ProcessorConfig::default());
    let ctx = TestContext::new(1024);
    let result = processor.create_metadata(&ctx.fs, "tmp/does_not_exist.bin", "tmp", 0, false);
    assert!(result.is_err());
    match result {
        Err(err) => assert!(err.to_string().contains("not found")),
        _ => panic!("Expected FileNotFound error"),
    }
}

// ---- end-to-end scenarios ----

fn pattern(n: usize) -> Vec<u8> {
    (0..n).map(|i| (i % 256) as u8).collect()
}

#[test]
fn tiny_round_trip() {
    let processor = RaptorQProcessor::new(ProcessorConfig { symbol_size: 65535, redundancy_factor: 2, max_memory_mb: 1024, concurrency_limit: 4 });
    let ctx = TestContext::with_data(pattern(1024));
    let result = processor.encode_file(&ctx.fs, "tmp/input.bin", "tmp/symbols", 0, false).unwrap();
    let blocks = result.blocks.as_ref().unwrap();
    assert_eq!(blocks.len(), 1);
    assert_eq!((blocks[0].block_id, blocks[0].original_offset, blocks[0].size), (0, 0, 1024));
    assert!(ctx.fs.has(&ctx.layout_path()));
    decode_symbols(&processor, &ctx.fs, "tmp/symbols", "tmp/output.bin", &ctx.layout_path()).unwrap();
    assert!(ctx.verify_files_match());
}

#[test]
fn multi_block_split() {
    let processor = RaptorQProcessor::new(ProcessorConfig { symbol_size: 65535, redundancy_factor: 4, max_memory_mb: 1, concurrency_limit: 4 });
    let ctx = TestContext::with_data(pattern(3 * 1048576));
    let recommended = processor.get_recommended_block_size(3 * 1048576) as u64;
    let result = processor.encode_file(&ctx.fs, "tmp/input.bin", "tmp/symbols", 0, false).unwrap();
    let blocks = result.blocks.as_ref().unwrap();
    assert!(blocks.len() >= 3);
    assert!(blocks.iter().all(|b| b.size <= recommended));
    decode_symbols(&processor, &ctx.fs, "tmp/symbols", "tmp/output.bin", &ctx.layout_path()).unwrap();
    assert!(ctx.verify_files_match());
}

#[test]
fn manual_block_size_three_blocks() {
    let processor = RaptorQProcessor::new(ProcessorConfig::default());
    let ctx = TestContext::with_data(pattern(3 * 1048576));
    let result = processor.encode_file(&ctx.fs, "tmp/input.bin", "tmp/symbols", 1048576, false).unwrap();
    let blocks = result.blocks.as_ref().unwrap();
    assert_eq!(blocks.len(), 3);
    assert!(blocks.iter().all(|b| b.size == 1048576));
    decode_symbols(&processor, &ctx.fs, "tmp/symbols", "tmp/output.bin", &ctx.layout_path()).unwrap();
    assert!(ctx.verify_files_match());
}

#[test]
fn corrupt_symbol_tolerance() {
    let processor = RaptorQProcessor::new(ProcessorConfig::default());
    let ctx = TestContext::with_data(pattern(100 * 1024));
    processor.encode_file(&ctx.fs, "tmp/input.bin", "tmp/symbols", 0, false).unwrap();
    let files = ctx.fs.files_in("tmp/symbols/block_0");
    let mut rng = StdRng::seed_from_u64(11);
    for _ in 0..5 {
        let path = &files[rng.gen_range(0..files.len())];
        let len = ctx.fs.get(path).unwrap().len();
        ctx.fs.put(path, &vec![0x2A; len]);
    }
    decode_symbols(&processor, &ctx.fs, "tmp/symbols", "tmp/output.bin", &ctx.layout_path()).unwrap();
    assert!(ctx.verify_files_match());
}

#[test]
fn missing_manifest() {
    let processor = RaptorQProcessor::new(ProcessorConfig::default());
    let ctx = TestContext::with_data(pattern(4096));
    processor.encode_file(&ctx.fs, "tmp/input.bin", "tmp/symbols", 0, false).unwrap();
    ctx.fs.remove(&ctx.layout_path());
    let result = decode_symbols(&processor, &ctx.fs, "tmp/symbols", "tmp/output.bin", &ctx.layout_path());
    assert!(matches!(result, Err(ProcessError::FileNotFound(_)) | Err(ProcessError::DecodingFailed(_))));
}

#[test]
fn admission_clash() {
    let processor = RaptorQProcessor::new(ProcessorConfig { symbol_size: 65535, redundancy_factor: 2, max_memory_mb: 1024, concurrency_limit: 1 });
    let ctx = TestContext::with_data(pattern(4096));
    assert!(processor.can_start_task());
    let result = processor.encode_file(&ctx.fs, "tmp/input.bin", "tmp/symbols", 0, false);
    assert!(matches!(result, Err(ProcessError::ConcurrencyLimitReached)));
    let meta = processor.create_metadata(&ctx.fs, "tmp/input.bin", "tmp", 0, true);
    assert!(matches!(meta, Err(ProcessError::ConcurrencyLimitReached)));
    processor.finish_task();
}

#[test]
fn admission_never_exceeds_limit() {
    let processor = RaptorQProcessor::new(ProcessorConfig { symbol_size: 1000, redundancy_factor: 2, max_memory_mb: 1, concurrency_limit: 2 });
    assert!(processor.can_start_task());
    assert!(processor.can_start_task());
    assert!(!processor.can_start_task());
    processor.finish_task();
    assert!(processor.can_start_task());
    assert!(!processor.can_start_task());
    processor.finish_task();
    processor.finish_task();
    let none = RaptorQProcessor::new(ProcessorConfig { symbol_size: 1000, redundancy_factor: 2, max_memory_mb: 1, concurrency_limit: 0 });
    assert!(!none.can_start_task());
}

#[test]
fn empty_input_fails_to_encode() {
    let processor = RaptorQProcessor::new(ProcessorConfig::default());
    let ctx = TestContext::with_data(vec![]);
    let result = processor.encode_file(&ctx.fs, "tmp/input.bin", "tmp/symbols", 0, false);
    assert!(matches!(result, Err(ProcessError::EncodingFailed(_))));
}

#[test]
fn manifest_without_blocks_fails_to_decode() {
    let processor = RaptorQProcessor::new(ProcessorConfig::default());
    let ctx = TestContext::with_data(pattern(10));
    ctx.fs.mkdir("tmp/symbols");
    ctx.fs.put("tmp/symbols/_raptorq_layout.json", b"{\"blocks\": []}");
    let result = decode_symbols(&processor, &ctx.fs, "tmp/symbols", "tmp/output.bin", &ctx.layout_path());
    assert!(matches!(result, Err(ProcessError::DecodingFailed(_))));
}

#[test]
fn oversized_request_gives_one_block() {
    let processor = RaptorQProcessor::new(ProcessorConfig::default());
    let ctx = TestContext::with_data(pattern(3000));
    let result = processor.encode_file(&ctx.fs, "tmp/input.bin", "tmp/symbols", 1 << 20, false).unwrap();
    let blocks = result.blocks.unwrap();
    assert_eq!(blocks.len(), 1);
    assert_eq!(blocks[0].size, 3000);
}

#[test]
fn planner_zero_gives_one_block() {
    let processor = RaptorQProcessor::new(ProcessorConfig::default());
    assert_eq!(processor.get_recommended_block_size(3000), 0);
    let ctx = TestContext::with_data(pattern(3000));
    let result = processor.encode_file(&ctx.fs, "tmp/input.bin", "tmp/symbols", 0, false).unwrap();
    assert_eq!(result.blocks.unwrap().len(), 1);
}

#[test]
fn forced_single_block_over_ceiling() {
    let processor = RaptorQProcessor::new(ProcessorConfig { symbol_size: 65535, redundancy_factor: 2, max_memory_mb: 2, concurrency_limit: 1 });
    let ctx = TestContext::with_data(pattern(2 * 1048576));
    match processor.encode_file(&ctx.fs, "tmp/input.bin", "tmp/symbols", 0, true) {
        Err(ProcessError::MemoryLimitExceeded { required, available }) => {
            assert_eq!(required, 5);
            assert_eq!(available, 2);
        }
        _ => panic!("expected MemoryLimitExceeded"),
    }
    assert!(processor.get_last_error().contains("Memory limit exceeded"));
}
