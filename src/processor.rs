//! The block processor: admission control, the encode pipeline (partition,
//! encode, store symbols, write the manifest) and the decode pipeline (visit
//! blocks by id, gather readable symbols, decode, check, write back).
use vstd::prelude::*;
use std::sync::atomic::{AtomicUsize, Ordering};
use crate::codec::{codec_limit, encodable, encoded_packets, encoder_config, block_limit, encode_block_packets, BlockDecoder, MAX_REPAIR_SYMBOLS};
pub use crate::config::ProcessorConfig;
pub use crate::error::ProcessError;
use crate::file_io::{open_file_reader, open_file_writer, get_dir_manager, DirManager, FileReader, FileSystem, FileWriter};
use crate::hash::{content_id, get_hash_as_b58};
pub use crate::layout::{BlockInfo, BlockLayout, ProcessResult, RaptorQLayout, BLOCK_DIR_PREFIX, LAYOUT_FILENAME};
use crate::layout::{block_order, layout_json, layout_to_json};
use crate::planner::{memory_estimate, block_count, block_len, calculate_repair_symbols, plan_blocks, recommended_block_size, recommended_block_size_for, repair_count, resolve_block_size, resolved_block_size};
use crate::text::{join_path, path_join, push_text, text_with_number};

verus! {

#[verifier::external_type_specification]
#[verifier::external_body]
#[verifier::reject_recursive_types(R)]
#[verifier::reject_recursive_types(T)]
pub struct ExLockMutex<R, T: ?Sized>(parking_lot::lock_api::Mutex<R, T>);

#[verifier::external_type_specification]
#[verifier::external_body]
pub struct ExRawMutex(parking_lot::RawMutex);

/// Relies on `parking_lot::Mutex::new`: a slot holding the empty string.
#[verifier::external_body]
fn new_error_slot() -> parking_lot::Mutex<String> {
    parking_lot::Mutex::new(String::new())
}

/// Relies on `parking_lot::Mutex::lock`: replaces the guarded message.
#[verifier::external_body]
fn store_error(slot: &parking_lot::Mutex<String>, message: String) {
    *slot.lock() = message;
}

/// Relies on `parking_lot::Mutex::lock`: a copy of the guarded message, which
/// other threads may replace at any time.
#[verifier::external_body]
fn load_error(slot: &parking_lot::Mutex<String>) -> String {
    slot.lock().clone()
}

/// `prefix` followed by `detail`.
fn message(prefix: &str, detail: &str) -> (r: String)
    ensures
        r@ == prefix@ + detail@,
{
    let mut s = String::new();
    push_text(&mut s, prefix);
    push_text(&mut s, detail);
    s
}

/// Whether an operation arriving when `active` are in flight is admitted.
pub open spec fn admits(active: int, limit: int) -> bool {
    active < limit
}

/// The symbol identifiers of a block: the identifier of each packet the
/// codec emits for it.
pub open spec fn block_symbol_ids(data: Seq<u8>, config: ProcessorConfig) -> Seq<Seq<char>> {
    encoded_packets(
        data,
        config.symbol_size,
        repair_count(data.len() as int, config.symbol_size as int, config.redundancy_factor as int) as u32,
    ).map_values(|p: Seq<u8>| content_id(p))
}

/// Name of the directory of block `id` (`block_<id>`).
pub open spec fn block_dir_name(id: nat) -> Seq<char> {
    BLOCK_DIR_PREFIX@ + crate::text::decimal(id)
}

/// Path of the manifest in `dir`.
pub open spec fn layout_path(dir: Seq<char>) -> Seq<char> {
    path_join(dir, LAYOUT_FILENAME@)
}

/// The bytes of block `i` when `data` is cut every `block_size` bytes.
pub open spec fn block_data(data: Seq<u8>, block_size: int, i: int) -> Seq<u8> {
    data.subrange(i * block_size, i * block_size + block_len(data.len() as int, block_size, i))
}

/// The block records of an encode agree with the plan for `data` cut every
/// `block_size` bytes: ids, offsets, sizes, encoder parameters, and the hash
/// of each block's bytes.
pub open spec fn infos_follow_plan(
    infos: Seq<BlockInfo>,
    data: Seq<u8>,
    block_size: int,
    config: ProcessorConfig,
) -> bool {
    &&& infos.len() == block_count(data.len() as int, block_size)
    &&& forall|i: int| 0 <= i < infos.len() ==> {
        let b = #[trigger] infos[i];
        &&& b.block_id == i
        &&& b.original_offset == i * block_size
        &&& b.size == block_len(data.len() as int, block_size, i)
        &&& b.encoder_parameters@ == encoder_config(b.size, config.symbol_size)
        &&& b.source_symbols_count + repair_count(b.size as int, config.symbol_size as int, config.redundancy_factor as int) == b.symbols_count
        &&& b.hash@ == content_id(block_data(data, block_size, i))
        &&& b.symbols_count == block_symbol_ids(block_data(data, block_size, i), config).len()
        &&& b.symbols_count == crate::codec::emitted_count(b.encoder_parameters@, b.size as int,
            repair_count(b.size as int, config.symbol_size as int, config.redundancy_factor as int))
    }
}

/// A block of `size` bytes is within what the codec can encode.
pub open spec fn block_fits(config: ProcessorConfig, size: int) -> bool {
    &&& size <= codec_limit(config.symbol_size as int)
    &&& repair_count(size, config.symbol_size as int, config.redundancy_factor as int) <= MAX_REPAIR_SYMBOLS
}

/// Every block of `data` cut every `block_size` bytes fits the codec.
pub open spec fn all_blocks_fit(data: Seq<u8>, block_size: int, config: ProcessorConfig) -> bool {
    forall|i: int| 0 <= i < block_count(data.len() as int, block_size)
        ==> block_fits(config, #[trigger] block_len(data.len() as int, block_size, i))
}

/// Number of packets the codec emits for the first `n` blocks.
pub open spec fn packets_before(data: Seq<u8>, block_size: int, config: ProcessorConfig, n: int) -> int
    decreases n,
{
    if n <= 0 {
        0
    } else {
        packets_before(data, block_size, config, n - 1)
            + block_symbol_ids(block_data(data, block_size, n - 1), config).len()
    }
}

/// Sum of the symbol counts of `infos`.
pub open spec fn symbols_total(infos: Seq<BlockInfo>) -> int
    decreases infos.len(),
{
    if infos.len() == 0 { 0 } else { symbols_total(infos.drop_last()) + infos.last().symbols_count }
}

/// Sum of the repair counts (symbols beyond the source ones) of `infos`.
pub open spec fn repair_total(infos: Seq<BlockInfo>) -> int
    decreases infos.len(),
{
    if infos.len() == 0 {
        0
    } else {
        repair_total(infos.drop_last()) + infos.last().symbols_count - infos.last().source_symbols_count
    }
}

/// One manifest record agrees with one reported block, and its symbol
/// identifiers and hash are those of the block's bytes `data`.
pub open spec fn record_matches(l: BlockLayout, b: BlockInfo, data: Seq<u8>, config: ProcessorConfig) -> bool {
    &&& l.block_id == b.block_id
    &&& l.encoder_parameters@ == b.encoder_parameters@
    &&& l.original_offset == b.original_offset
    &&& l.size == b.size
    &&& l.symbols@.len() == b.symbols_count
    &&& l.hash@ == b.hash@
    &&& l.symbols.deep_view() == block_symbol_ids(data, config)
    &&& l.hash@ == content_id(data)
}

/// The manifest records agree with the reported blocks of `data`, one for one.
pub open spec fn layout_matches(
    layout: RaptorQLayout,
    infos: Seq<BlockInfo>,
    data: Seq<u8>,
    block_size: int,
    config: ProcessorConfig,
) -> bool {
    &&& layout.blocks@.len() == infos.len()
    &&& forall|i: int| 0 <= i < infos.len()
        ==> record_matches(#[trigger] layout.blocks@[i], infos[i], block_data(data, block_size, i), config)
}

/// A processor: configuration, a count of operations in flight, and the
/// message of the most recent failure.
pub struct RaptorQProcessor {
    config: ProcessorConfig,
    active_tasks: AtomicUsize,
    last_error: parking_lot::Mutex<String>,
}

impl RaptorQProcessor {
    /// The configuration this processor was made with.
    pub closed spec fn config(&self) -> ProcessorConfig {
        self.config
    }

    /// A processor with `config`, nothing in flight and no error recorded.
    pub fn new(config: ProcessorConfig) -> (r: Self)
        ensures
            r.config() == config,
    {
        RaptorQProcessor {
            config,
            active_tasks: AtomicUsize::new(0),
            last_error: new_error_slot(),
        }
    }

    /// The message of the most recent failure (empty when none happened).
    pub fn get_last_error(&self) -> String {
        load_error(&self.last_error)
    }

    /// Records `error` as the most recent failure message.
    pub fn set_last_error(&self, error: String) {
        store_error(&self.last_error, error);
    }

    /// The configuration.
    pub fn get_config(&self) -> (r: &ProcessorConfig)
        ensures
            *r == self.config(),
    {
        &self.config
    }

    /// Recommended block size for a file of `file_size` bytes (0: do not split).
    pub fn get_recommended_block_size(&self, file_size: usize) -> (r: usize)
        requires
            self.config().symbol_size > 0,
        ensures
            r as int == recommended_block_size(self.config().max_memory_mb, self.config().symbol_size, file_size as int),
    {
        recommended_block_size_for(&self.config, file_size)
    }

    /// Takes an admission slot: counts this operation in, and takes it back
    /// out when the limit was already reached. Every `true` must be matched
    /// by one `finish_task`.
    pub fn can_start_task(&self) -> bool {
        let previous = self.active_tasks.fetch_add(1, Ordering::SeqCst);
        if may_enter(previous, self.config.concurrency_limit) {
            true
        } else {
            self.active_tasks.fetch_sub(1, Ordering::SeqCst);
            false
        }
    }

    /// Gives back an admission slot taken by `can_start_task`.
    pub fn finish_task(&self) {
        self.active_tasks.fetch_sub(1, Ordering::SeqCst);
    }

    /// Opens `path` and returns its reader with its size, which is never 0.
    pub fn open_and_validate_file<F: FileSystem>(&self, fs: &F, path: &str) -> (r: Result<(F::Reader, usize), ProcessError>)
        ensures
            r matches Ok((reader, size)) ==> size > 0 && size == reader.content().len(),
            r matches Err(e) ==> (e matches ProcessError::FileNotFound(_) || e matches ProcessError::IOError(_)
                || e matches ProcessError::EncodingFailed(_)),
    {
        let reader = match open_file_reader(fs, path) {
            Ok(reader) => reader,
            Err(e) => {
                let mut m = message("Failed to open file ", path);
                push_text(&mut m, ": ");
                push_text(&mut m, e.as_str());
                return Err(ProcessError::FileNotFound(m));
            },
        };
        let size = match reader.file_size() {
            Ok(size) => size,
            Err(e) => {
                let mut m = message("Failed to get file size for ", path);
                push_text(&mut m, ": ");
                push_text(&mut m, e.as_str());
                return Err(ProcessError::IOError(m));
            },
        };
        match validate_size(path, size) {
            Ok(n) => Ok((reader, n)),
            Err(e) => Err(e),
        }
    }

    /// Records the message of `e` and hands `e` back.
    fn fail<T>(&self, e: ProcessError) -> (r: Result<T, ProcessError>)
        ensures
            r == Err::<T, ProcessError>(e),
    {
        self.set_last_error(e.to_string());
        Err(e)
    }
}

/// The size of the file at `path` as a length: an empty file is refused
/// (`EncodingFailed`), as is one too large to hold in memory (`IOError`).
pub fn validate_size(path: &str, size: u64) -> (r: Result<usize, ProcessError>)
    ensures
        (r is Ok) <==> (0 < size && size <= usize::MAX),
        r matches Ok(n) ==> n == size,
        size == 0 ==> r matches Err(ProcessError::EncodingFailed(_)),
        size > usize::MAX ==> r matches Err(ProcessError::IOError(_)),
{
    if size == 0 {
        return Err(ProcessError::EncodingFailed(message("File is empty: ", path)));
    }
    if size > usize::MAX as u64 {
        return Err(ProcessError::IOError(message("File is too large: ", path)));
    }
    Ok(size as usize)
}

/// Whether an operation arriving when `active` are in flight is admitted
/// under `limit`.
pub fn may_enter(active: usize, limit: u64) -> (r: bool)
    ensures
        r == admits(active as int, limit as int),
{
    (active as u64) < limit
}

/// A copy of `v`.
fn copy_bytes(v: &Vec<u8>) -> (r: Vec<u8>)
    ensures
        r@ == v@,
{
    let mut out: Vec<u8> = Vec::new();
    let mut i: usize = 0;
    while i < v.len()
        invariant
            0 <= i <= v@.len(),
            out@ == v@.take(i as int),
        decreases v@.len() - i,
    {
        out.push(v[i]);
        i = i + 1;
        assert(out@ =~= v@.take(i as int));
    }
    assert(v@.take(i as int) =~= v@);
    out
}

/// Reads exactly `size` bytes at `offset`, repeating short reads; fails when
/// the file ends first.
pub fn read_exact_at<R: FileReader>(reader: &mut R, offset: u64, size: usize) -> (r: Result<Vec<u8>, String>)
    requires
        offset + size <= u64::MAX,
        size > 0,
    ensures
        final(reader).content() == old(reader).content(),
        r matches Ok(v) ==> offset + size <= old(reader).content().len()
            && v@ == old(reader).content().subrange(offset as int, offset + size),
{
    let ghost content = reader.content();
    let mut data: Vec<u8> = Vec::new();
    while data.len() < size
        invariant
            data@.len() <= size,
            offset + size <= u64::MAX,
            reader.content() == content,
            content == old(reader).content(),
            data@.len() > 0 ==> offset + data@.len() <= content.len()
                && data@ == content.subrange(offset as int, offset + data@.len()),
        decreases size - data@.len(),
    {
        let remaining = size - data.len();
        let mut buf: Vec<u8> = vec![0u8; remaining];
        let at = offset + data.len() as u64;
        let n = reader.read_chunk(at, &mut buf)?;
        if n == 0 {
            return Err(String::from_str("unexpected end of file"));
        }
        buf.truncate(n);
        let ghost before = data@;
        data.append(&mut buf);
        assert(data@ =~= content.subrange(offset as int, offset + data@.len()));
    }
    Ok(data)
}

/// Creates `path` on `fs`, writes `bytes` at offset 0 and flushes.
pub fn write_whole_file<F: FileSystem>(fs: &F, path: &str, bytes: &[u8]) -> (r: Result<(), ProcessError>)
    ensures
        r matches Err(e) ==> e matches ProcessError::IOError(_),
{
    let mut writer = match open_file_writer(fs, path) {
        Ok(w) => w,
        Err(e) => return Err(ProcessError::IOError(e)),
    };
    match writer.write_chunk(0, bytes) {
        Ok(()) => {},
        Err(e) => return Err(ProcessError::IOError(e)),
    }
    match writer.flush() {
        Ok(()) => Ok(()),
        Err(e) => Err(ProcessError::IOError(e)),
    }
}

/// The block size an encode uses for a `total`-byte file.
pub open spec fn encode_block_size(config: ProcessorConfig, total: int, requested: int, force_single_block: bool) -> int {
    if force_single_block { total } else { resolved_block_size(config, total, requested) }
}

/// What a successful encode of the input bytes `data` into `output_dir`
/// reports: blocks that follow the plan for the resolved block size and carry
/// the hash of their bytes, the totals, the symbol directory and the manifest
/// path; a returned manifest lists, per block, the identifiers of the
/// symbols the codec emits for that block's bytes.
pub open spec fn encode_reported(
    res: ProcessResult,
    config: ProcessorConfig,
    output_dir: Seq<char>,
    data: Seq<u8>,
    requested: int,
    force_single_block: bool,
) -> bool {
    let block_size = encode_block_size(config, data.len() as int, requested, force_single_block);
    &&& data.len() > 0
    &&& res.blocks matches Some(infos)
    &&& infos_follow_plan(infos@, data, block_size, config)
    &&& res.symbols_directory@ == output_dir
    &&& res.layout_file_path@ == layout_path(output_dir)
    &&& res.total_symbols_count == symbols_total(infos@)
    &&& res.total_repair_symbols == repair_total(infos@)
    &&& res.layout_content matches Some(text) ==> exists|l: RaptorQLayout| #![trigger layout_json(l)]
        text@ == layout_json(l) && layout_matches(l, infos@, data, block_size, config)
}

/// A forced single-block encode of `data` is refused for memory exactly as
/// the planner's estimate says.
pub open spec fn memory_refusal(config: ProcessorConfig, data: Seq<u8>, required: usize, available: usize) -> bool {
    &&& data.len() > 0
    &&& required as int == memory_estimate(data.len() as int)
    &&& required as int > config.max_memory_mb
    &&& available == config.max_memory_mb as usize
}

impl RaptorQProcessor {
    /// Encodes one block: its identifier, its encoder parameters and the
    /// identifiers of its symbols, each stored under `block_dir` unless
    /// `metadata_only`.
    fn encode_block<F: FileSystem>(
        &self,
        fs: &F,
        data: &[u8],
        repair: u64,
        block_dir: &str,
        metadata_only: bool,
    ) -> (r: Result<(Vec<u8>, Vec<String>, String), ProcessError>)
        requires
            encodable(data@.len() as int, self.config().symbol_size as int),
            repair == repair_count(data@.len() as int, self.config().symbol_size as int, self.config().redundancy_factor as int),
            repair <= crate::codec::MAX_REPAIR_SYMBOLS,
        ensures
            r matches Ok((params, ids, hash)) ==> {
                &&& params@ == encoder_config(data@.len() as u64, self.config().symbol_size)
                &&& ids.deep_view() == block_symbol_ids(data@, self.config())
                &&& ids@.len() == crate::codec::emitted_count(params@, data@.len() as int, repair as int)
                &&& crate::codec::params_symbol_size(params@) == crate::codec::aligned_symbol_size(self.config().symbol_size as int)
                &&& ids@.len() > repair
                &&& hash@ == content_id(data@)
            },
            r matches Err(e) ==> e matches ProcessError::IOError(_),
            metadata_only ==> r is Ok,
    {
        let hash = get_hash_as_b58(data);
        let encoded = encode_block_packets(data, self.config.symbol_size, repair as u32);
        let ghost packets = encoded.packets.deep_view();
        let mut ids: Vec<String> = Vec::new();
        let mut i: usize = 0;
        while i < encoded.packets.len()
            invariant
                0 <= i <= encoded.packets@.len(),
                packets == encoded.packets.deep_view(),
                ids@.len() == i,
                forall|j: int| 0 <= j < i ==> (#[trigger] ids@[j])@ == content_id(packets[j]),
            decreases encoded.packets@.len() - i,
        {
            let packet = &encoded.packets[i];
            let symbol_id = get_hash_as_b58(packet.as_slice());
            if !metadata_only {
                let path = join_path(block_dir, symbol_id.as_str());
                write_whole_file(fs, path.as_str(), packet.as_slice())?;
            }
            ids.push(symbol_id);
            proof {
                assert(packets[i as int] == encoded.packets@[i as int]@);
            }
            i = i + 1;
        }
        assert(ids.deep_view() =~= packets.map_values(|p: Seq<u8>| content_id(p)));
        Ok((encoded.params, ids, hash))
    }

    /// Cuts the `total_size`-byte input into blocks of `block_size`, encodes
    /// each in order, and writes (or returns) the manifest.
    fn process_file_blocks<F: FileSystem>(
        &self,
        fs: &F,
        reader: &mut F::Reader,
        output_dir: &str,
        block_size: usize,
        total_size: usize,
        metadata_only: bool,
        return_layout: bool,
    ) -> (r: Result<ProcessResult, ProcessError>)
        requires
            total_size > 0,
            total_size == old(reader).content().len(),
            block_size > 0,
            self.config().symbol_size > 0,
        ensures
            r matches Ok(res) ==> {
                &&& res.blocks matches Some(infos)
                &&& infos_follow_plan(infos@, old(reader).content(), block_size as int, self.config())
                &&& res.symbols_directory@ == output_dir@
                &&& res.layout_file_path@ == layout_path(output_dir@)
                &&& (res.layout_content is Some <==> return_layout)
                &&& res.total_symbols_count == symbols_total(infos@)
                &&& res.total_repair_symbols == repair_total(infos@)
                &&& res.layout_content matches Some(text) ==> exists|l: RaptorQLayout| #![trigger layout_json(l)]
                    text@ == layout_json(l) && layout_matches(l, infos@, old(reader).content(), block_size as int, self.config())
            },
            r matches Err(e) ==> (e matches ProcessError::IOError(_) || e matches ProcessError::EncodingFailed(_)),
            r matches Err(ProcessError::EncodingFailed(_)) ==> !all_blocks_fit(old(reader).content(), block_size as int, self.config())
                || packets_before(old(reader).content(), block_size as int, self.config(),
                    block_count(total_size as int, block_size as int)) > u64::MAX,
            all_blocks_fit(old(reader).content(), block_size as int, self.config())
                && packets_before(old(reader).content(), block_size as int, self.config(),
                    block_count(total_size as int, block_size as int)) <= u64::MAX
                ==> !(r matches Err(ProcessError::EncodingFailed(_))),
    {
        let ghost content = reader.content();
        let ghost bs = block_size as int;
        let ghost cfg = self.config();
        let dirs = get_dir_manager(fs);
        let plan = plan_blocks(total_size as u64, block_size as u64);
        let mut infos: Vec<BlockInfo> = Vec::new();
        let mut layouts: Vec<BlockLayout> = Vec::new();
        let mut total_symbols_count: u64 = 0;
        let mut total_repair_symbols: u64 = 0;
        let mut i: usize = 0;
        while i < plan.len()
            invariant
                0 <= i <= plan@.len(),
                content == old(reader).content(),
                reader.content() == content,
                content.len() == total_size,
                bs == block_size,
                cfg == self.config(),
                plan@.len() == block_count(total_size as int, block_size as int),
                forall|j: int| 0 <= j < plan@.len() ==> (#[trigger] plan@[j]).0 as int == j * block_size
                    && plan@[j].1 as int == block_len(total_size as int, block_size as int, j),
                crate::planner::tiles(plan@, total_size as int),
                self.config().symbol_size > 0,
                infos@.len() == i,
                forall|j: int| 0 <= j < i ==> {
                    let b = #[trigger] infos@[j];
                    &&& b.block_id == j
                    &&& b.original_offset == plan@[j].0
                    &&& b.size == plan@[j].1
                    &&& b.encoder_parameters@ == encoder_config(b.size, self.config().symbol_size)
                    &&& b.source_symbols_count + repair_count(b.size as int, self.config().symbol_size as int, self.config().redundancy_factor as int) == b.symbols_count
                    &&& b.hash@ == content_id(block_data(content, bs, j))
                    &&& b.symbols_count == block_symbol_ids(block_data(content, bs, j), cfg).len()
                    &&& b.symbols_count == crate::codec::emitted_count(b.encoder_parameters@, b.size as int,
                        repair_count(b.size as int, cfg.symbol_size as int, cfg.redundancy_factor as int))
                },
                forall|j: int| 0 <= j < i ==> block_fits(cfg, #[trigger] block_len(total_size as int, bs, j)),
                total_symbols_count == symbols_total(infos@),
                total_symbols_count == packets_before(content, bs, cfg, i as int),
                total_repair_symbols == repair_total(infos@),
                total_repair_symbols <= total_symbols_count,
                layouts@.len() == i,
                forall|j: int| 0 <= j < i ==> record_matches(#[trigger] layouts@[j], infos@[j], block_data(content, bs, j), cfg),
            decreases plan@.len() - i,
        {
            let (offset, size) = plan[i];
            proof {
                crate::planner::lemma_offset_coverage(plan@, total_size as int);
                lemma_extent_within(plan@, total_size as int, i as int);
            }
            let dir_name = text_with_number(BLOCK_DIR_PREFIX, i as u64);
            let block_dir = join_path(output_dir, dir_name.as_str());
            if !metadata_only {
                match dirs.create_dir_all(block_dir.as_str()) {
                    Ok(()) => {},
                    Err(e) => return self.fail(ProcessError::IOError(e)),
                }
            }
            if size > block_limit(self.config.symbol_size) {
                assert(!block_fits(cfg, block_len(total_size as int, bs, i as int)));
                return self.fail(ProcessError::EncodingFailed(text_with_number("Block too large for the codec: ", i as u64)));
            }
            let repair = calculate_repair_symbols(&self.config, size);
            if repair > MAX_REPAIR_SYMBOLS {
                assert(!block_fits(cfg, block_len(total_size as int, bs, i as int)));
                return self.fail(ProcessError::EncodingFailed(text_with_number("Too many repair symbols for block ", i as u64)));
            }
            let bytes = match read_exact_at(reader, offset, size as usize) {
                Ok(d) => d,
                Err(e) => return self.fail(ProcessError::IOError(e)),
            };
            assert(bytes@ =~= block_data(content, bs, i as int));
            let (params, ids, hash) = match self.encode_block(fs, bytes.as_slice(), repair, block_dir.as_str(), metadata_only) {
                Ok(t) => t,
                Err(e) => return self.fail(e),
            };
            let count = ids.len() as u64;
            assert(count == block_symbol_ids(block_data(content, bs, i as int), cfg).len());
            assert(packets_before(content, bs, cfg, i + 1) == total_symbols_count + count);
            if total_symbols_count > u64::MAX - count || total_repair_symbols > u64::MAX - repair {
                proof {
                    lemma_packets_monotone(content, bs, cfg, i + 1, block_count(total_size as int, bs));
                }
                return self.fail(ProcessError::EncodingFailed(String::from_str("Too many symbols")));
            }
            total_symbols_count = total_symbols_count + count;
            total_repair_symbols = total_repair_symbols + repair;
            let ghost old_infos = infos@;
            infos.push(BlockInfo {
                block_id: i,
                encoder_parameters: copy_bytes(&params),
                original_offset: offset,
                size,
                symbols_count: count,
                source_symbols_count: count - repair,
                hash: hash.clone(),
            });
            proof {
                let last = infos@.last();
                assert(infos@.drop_last() =~= old_infos);
                assert(symbols_total(infos@) == symbols_total(old_infos) + last.symbols_count);
                assert(repair_total(infos@) == repair_total(old_infos) + last.symbols_count - last.source_symbols_count);
            }
            let record = BlockLayout {
                block_id: i,
                encoder_parameters: params,
                original_offset: offset,
                size,
                symbols: ids,
                hash,
            };
            assert(record_matches(record, infos@[i as int], block_data(content, bs, i as int), cfg));
            layouts.push(record);
            i = i + 1;
        }
        let layout = RaptorQLayout { blocks: layouts };
        assert(layout_matches(layout, infos@, content, bs, cfg));
        let layout_text = layout_to_json(&layout);
        let layout_file_path = join_path(output_dir, LAYOUT_FILENAME);
        if !return_layout {
            match write_whole_file(fs, layout_file_path.as_str(), layout_text.as_str().as_bytes()) {
                Ok(()) => {},
                Err(e) => return self.fail(e),
            }
        }
        let layout_content = if return_layout { Some(layout_text) } else { None };
        Ok(ProcessResult {
            total_symbols_count,
            total_repair_symbols,
            symbols_directory: output_dir.to_owned(),
            blocks: Some(infos),
            layout_file_path,
            layout_content,
        })
    }

    /// Opens the input and resolves the block size.
    fn prepare_processing<F: FileSystem>(
        &self,
        fs: &F,
        input_path: &str,
        block_size: usize,
        force_single_file: bool,
    ) -> (r: Result<(F::Reader, usize, usize), ProcessError>)
        requires
            self.config().symbol_size > 0,
        ensures
            r matches Ok((reader, total, chosen)) ==> total > 0 && chosen > 0 && total == reader.content().len()
                && chosen == encode_block_size(self.config(), total as int, block_size as int, force_single_file),
            r matches Err(ProcessError::MemoryLimitExceeded { required, available }) ==> force_single_file
                && exists|data: Seq<u8>| #[trigger] memory_refusal(self.config(), data, required, available),
    {
        let (reader, file_size) = match self.open_and_validate_file(fs, input_path) {
            Ok(t) => t,
            Err(e) => return self.fail(e),
        };
        let ghost data = reader.content();
        let chosen = match resolve_block_size(&self.config, file_size, block_size, force_single_file) {
            Ok(b) => b,
            Err(e) => {
                proof {
                    match e {
                        ProcessError::MemoryLimitExceeded { required, available } => {
                            assert(memory_refusal(self.config(), data, required, available));
                        },
                        _ => {},
                    }
                }
                return self.fail(e);
            },
        };
        proof {
            crate::planner::lemma_resolved_positive(self.config(), file_size as int, block_size as int);
        }
        Ok((reader, file_size, chosen))
    }

    /// Runs an encode under an admission slot.
    fn encode_admitted<F: FileSystem>(
        &self,
        fs: &F,
        input_path: &str,
        output_dir: &str,
        block_size: usize,
        force_single_file: bool,
        metadata_only: bool,
        return_layout: bool,
    ) -> (r: Result<ProcessResult, ProcessError>)
        ensures
            self.config().symbol_size == 0 ==> r matches Err(ProcessError::EncodingFailed(_)),
            r matches Ok(res) ==> (res.layout_content is Some <==> return_layout)
                && exists|data: Seq<u8>| #[trigger] encode_reported(res, self.config(), output_dir@, data, block_size as int, force_single_file),
            r matches Err(ProcessError::MemoryLimitExceeded { required, available }) ==> force_single_file
                && exists|data: Seq<u8>| #[trigger] memory_refusal(self.config(), data, required, available),
    {
        if self.config.symbol_size == 0 {
            return self.fail(ProcessError::EncodingFailed(String::from_str("Symbol size must be positive")));
        }
        if !self.can_start_task() {
            return self.fail(ProcessError::ConcurrencyLimitReached);
        }
        let result = match self.prepare_processing(fs, input_path, block_size, force_single_file) {
            Ok((mut reader, total, chosen)) => {
                let ghost data = reader.content();
                let r = self.process_file_blocks(fs, &mut reader, output_dir, chosen, total, metadata_only, return_layout);
                proof {
                    if r is Ok {
                        assert(encode_reported(r->Ok_0, self.config(), output_dir@, data, block_size as int, force_single_file));
                    }
                }
                r
            },
            Err(e) => Err(e),
        };
        self.finish_task();
        result
    }

    /// Encodes the file at `input_path` into symbol files under `output_dir`
    /// and writes the manifest there. `block_size` 0 lets the planner choose;
    /// `force_single_file` encodes the whole file as one block, refused when
    /// its projected memory exceeds the ceiling.
    pub fn encode_file<F: FileSystem>(
        &self,
        fs: &F,
        input_path: &str,
        output_dir: &str,
        block_size: usize,
        force_single_file: bool,
    ) -> (r: Result<ProcessResult, ProcessError>)
        ensures
            self.config().symbol_size == 0 ==> r matches Err(ProcessError::EncodingFailed(_)),
            r matches Ok(res) ==> res.layout_content is None
                && exists|data: Seq<u8>| #[trigger] encode_reported(res, self.config(), output_dir@, data, block_size as int, force_single_file),
            r matches Err(ProcessError::MemoryLimitExceeded { required, available }) ==> force_single_file
                && exists|data: Seq<u8>| #[trigger] memory_refusal(self.config(), data, required, available),
    {
        self.encode_admitted(fs, input_path, output_dir, block_size, force_single_file, false, false)
    }

    /// Computes the manifest of the file at `input_path` without writing any
    /// symbol file. With `return_layout` the manifest text is returned in the
    /// result instead of being written under `output_dir`.
    pub fn create_metadata<F: FileSystem>(
        &self,
        fs: &F,
        input_path: &str,
        output_dir: &str,
        block_size: usize,
        return_layout: bool,
    ) -> (r: Result<ProcessResult, ProcessError>)
        ensures
            self.config().symbol_size == 0 ==> r matches Err(ProcessError::EncodingFailed(_)),
            r matches Ok(res) ==> (res.layout_content is Some <==> return_layout)
                && exists|data: Seq<u8>| #[trigger] encode_reported(res, self.config(), output_dir@, data, block_size as int, false),
            !(r matches Err(ProcessError::MemoryLimitExceeded { .. })),
    {
        self.encode_admitted(fs, input_path, output_dir, block_size, false, true, return_layout)
    }
}

proof fn lemma_packets_monotone(data: Seq<u8>, block_size: int, config: ProcessorConfig, a: int, b: int)
    requires
        0 <= a <= b,
    ensures
        packets_before(data, block_size, config, a) <= packets_before(data, block_size, config, b),
    decreases b - a,
{
    if a < b {
        lemma_packets_monotone(data, block_size, config, a, b - 1);
    }
}

proof fn lemma_extent_within(extents: Seq<(u64, u64)>, total: int, i: int)
    requires
        crate::planner::tiles(extents, total),
        crate::planner::total_size(extents) == total,
        0 <= i < extents.len(),
    ensures
        extents[i].0 + extents[i].1 <= total,
    decreases extents.len() - i,
{
    if i + 1 < extents.len() {
        lemma_extent_within(extents, total, i + 1);
        assert(extents[i + 1].0 == extents[i].0 + extents[i].1);
    }
}

/// A recovered block is accepted when it has the recorded size and, where a
/// hash is recorded, that identifier.
pub open spec fn block_accepts(b: BlockLayout, data: Seq<u8>) -> bool {
    &&& data.len() == b.size
    &&& (b.hash@.len() == 0 || content_id(data) == b.hash@)
}

/// Checks recovered bytes against their block record: the size must match,
/// and a non-empty recorded hash must equal the identifier of the bytes.
pub fn verify_block(block: &BlockLayout, data: &[u8]) -> (r: Result<(), ProcessError>)
    ensures
        r is Ok <==> block_accepts(*block, data@),
        r matches Err(e) ==> e matches ProcessError::DecodingFailed(_),
{
    if data.len() as u64 != block.size {
        return Err(ProcessError::DecodingFailed(text_with_number("Incomplete data for block ", block.block_id as u64)));
    }
    if !block.hash.as_str().is_empty() {
        let computed = get_hash_as_b58(data);
        if computed != block.hash {
            let mut m = text_with_number("Hash mismatch for block ", block.block_id as u64);
            push_text(&mut m, ": expected ");
            push_text(&mut m, block.hash.as_str());
            push_text(&mut m, ", got ");
            push_text(&mut m, computed.as_str());
            return Err(ProcessError::DecodingFailed(m));
        }
    }
    Ok(())
}

/// Integrity detection: when a block record carries a hash, recovered bytes
/// whose identifier differs from it (a flipped byte changes the digest) are
/// refused, and `verify_block` reports them as a decoding failure.
pub proof fn lemma_integrity_detection(block: BlockLayout, recovered: Seq<u8>)
    requires
        block.hash@.len() > 0,
        content_id(recovered) != block.hash@,
    ensures
        !block_accepts(block, recovered),
{
}

/// The outcome for one block once its symbols were walked: `found_any` says
/// whether any symbol file could be opened, `recovered` is what the codec
/// returned. No reachable symbol, a codec that never completed, or bytes that
/// fail the block's check are decoding failures; otherwise the bytes stand.
pub fn block_result(block: &BlockLayout, found_any: bool, recovered: Option<Vec<u8>>) -> (r: Result<Vec<u8>, ProcessError>)
    ensures
        !found_any ==> r matches Err(ProcessError::DecodingFailed(_)),
        found_any && recovered is None ==> r matches Err(ProcessError::DecodingFailed(_)),
        (r is Ok) <==> (found_any && (recovered matches Some(v) && block_accepts(*block, v@))),
        r matches Ok(d) ==> (recovered matches Some(v) && d@ == v@),
        r matches Err(e) ==> e matches ProcessError::DecodingFailed(_),
{
    if !found_any {
        let mut m = text_with_number("None of the symbols for block ", block.block_id as u64);
        push_text(&mut m, " could be found");
        return Err(ProcessError::DecodingFailed(m));
    }
    match recovered {
        None => Err(ProcessError::DecodingFailed(
            text_with_number("Not enough symbols to decode block ", block.block_id as u64),
        )),
        Some(data) => match verify_block(block, data.as_slice()) {
            Ok(()) => Ok(data),
            Err(e) => Err(e),
        },
    }
}

impl RaptorQProcessor {
    /// Recovers one block from whatever of its symbols can be read, looking
    /// in `<symbols_dir>/block_<id>` or, when that directory is missing, in
    /// `symbols_dir` itself. `None` for a block that lists no symbols.
    fn decode_block<F: FileSystem>(
        &self,
        fs: &F,
        dirs: &F::Dirs,
        symbols_dir: &str,
        block: &BlockLayout,
    ) -> (r: Result<Option<Vec<u8>>, ProcessError>)
        ensures
            r is Ok ==> crate::codec::decodable_params(block.encoder_parameters@),
            !crate::codec::decodable_params(block.encoder_parameters@) ==> r is Err,
            r matches Ok(Some(data)) ==> block_accepts(*block, data@),
            (r matches Ok(None)) <==> (r is Ok && block.symbols@.len() == 0),
            r matches Err(e) ==> (e matches ProcessError::IOError(_) || e matches ProcessError::DecodingFailed(_)),
    {
        let dir_name = text_with_number(BLOCK_DIR_PREFIX, block.block_id as u64);
        let block_dir = join_path(symbols_dir, dir_name.as_str());
        let exists = match dirs.dir_exists(block_dir.as_str()) {
            Ok(b) => b,
            Err(e) => return Err(ProcessError::IOError(e)),
        };
        let base = if exists { block_dir } else { symbols_dir.to_owned() };
        let mut decoder = match BlockDecoder::new(block.encoder_parameters.as_slice()) {
            Some(d) => d,
            None => {
                return Err(ProcessError::DecodingFailed(
                    text_with_number("Invalid encoder parameters in block ", block.block_id as u64),
                ));
            },
        };
        if block.symbols.len() == 0 {
            return Ok(None);
        }
        let mut found_any = false;
        let mut recovered: Option<Vec<u8>> = None;
        let mut k: usize = 0;
        while k < block.symbols.len() && recovered.is_none()
            invariant
                0 <= k <= block.symbols@.len(),
            decreases block.symbols@.len() - k,
        {
            let path = join_path(base.as_str(), block.symbols[k].as_str());
            k = k + 1;
            let (mut reader, size) = match self.open_and_validate_file(fs, path.as_str()) {
                Ok(t) => t,
                Err(_) => continue,
            };
            found_any = true;
            let bytes = match read_exact_at(&mut reader, 0, size) {
                Ok(b) => b,
                Err(_) => continue,
            };
            recovered = decoder.decode(bytes.as_slice());
        }
        match block_result(block, found_any, recovered) {
            Ok(data) => Ok(Some(data)),
            Err(e) => Err(e),
        }
    }

    fn decode_admitted<F: FileSystem>(
        &self,
        fs: &F,
        symbols_dir: &str,
        output_path: &str,
        layout: &RaptorQLayout,
    ) -> (r: Result<(), ProcessError>)
        ensures
            layout.blocks@.len() == 0 ==> r matches Err(ProcessError::DecodingFailed(_)),
            r is Ok ==> layout.blocks@.len() > 0 && forall|i: int| 0 <= i < layout.blocks@.len()
                ==> crate::codec::decodable_params((#[trigger] layout.blocks@[i]).encoder_parameters@),
    {
        if layout.blocks.len() == 0 {
            return self.fail(ProcessError::DecodingFailed(String::from_str("Layout file has the empty blocks array")));
        }
        let dirs = get_dir_manager(fs);
        let exists = match dirs.dir_exists(symbols_dir) {
            Ok(b) => b,
            Err(e) => return self.fail(ProcessError::IOError(e)),
        };
        if !exists {
            return self.fail(ProcessError::InvalidPath(message("Symbols directory does not exist: ", symbols_dir)));
        }
        let mut writer = match open_file_writer(fs, output_path) {
            Ok(w) => w,
            Err(e) => return self.fail(ProcessError::IOError(e)),
        };
        let order = block_order(&layout.blocks);
        let mut k: usize = 0;
        while k < order.len()
            invariant
                0 <= k <= order@.len(),
                crate::layout::is_block_order(layout.blocks@, order@),
                forall|j: int| 0 <= j < k
                    ==> crate::codec::decodable_params(layout.blocks@[#[trigger] order@[j] as int].encoder_parameters@),
            decreases order@.len() - k,
        {
            let block = &layout.blocks[order[k]];
            k = k + 1;
            let data = match self.decode_block(fs, &dirs, symbols_dir, block) {
                Ok(Some(d)) => d,
                Ok(None) => continue,
                Err(e) => return self.fail(e),
            };
            if block.original_offset > usize::MAX as u64 {
                return self.fail(ProcessError::DecodingFailed(text_with_number("Offset out of range in block ", block.block_id as u64)));
            }
            match writer.write_chunk(block.original_offset as usize, data.as_slice()) {
                Ok(()) => {},
                Err(e) => return self.fail(ProcessError::IOError(e)),
            }
        }
        proof {
            assert forall|i: int| 0 <= i < layout.blocks@.len()
                implies crate::codec::decodable_params((#[trigger] layout.blocks@[i]).encoder_parameters@) by {
                crate::layout::lemma_order_covers(layout.blocks@, order@, i);
            }
        }
        match writer.flush() {
            Ok(()) => Ok(()),
            Err(e) => self.fail(ProcessError::IOError(e)),
        }
    }

    /// Rebuilds the original file at `output_path` from the symbols under
    /// `symbols_dir` and the block records of `layout`, visiting blocks by
    /// ascending id and writing each at its recorded offset. Missing or
    /// corrupt symbols are skipped; a block without any readable symbol, one
    /// the codec cannot complete, or one that fails its check is an error.
    pub fn decode_symbols_with_layout<F: FileSystem>(
        &self,
        fs: &F,
        symbols_dir: &str,
        output_path: &str,
        layout: &RaptorQLayout,
    ) -> (r: Result<(), ProcessError>)
        ensures
            layout.blocks@.len() == 0 ==> (r matches Err(ProcessError::DecodingFailed(_))
                || r matches Err(ProcessError::ConcurrencyLimitReached)),
            r is Ok ==> layout.blocks@.len() > 0 && forall|i: int| 0 <= i < layout.blocks@.len()
                ==> crate::codec::decodable_params((#[trigger] layout.blocks@[i]).encoder_parameters@),
    {
        if !self.can_start_task() {
            return self.fail(ProcessError::ConcurrencyLimitReached);
        }
        let r = self.decode_admitted(fs, symbols_dir, output_path, layout);
        self.finish_task();
        r
    }

    /// Reads the whole manifest file at `layout_path`. A missing file is
    /// `FileNotFound`; an empty or unreadable one is `DecodingFailed`.
    pub fn read_layout_file<F: FileSystem>(&self, fs: &F, layout_path: &str) -> (r: Result<Vec<u8>, ProcessError>)
        ensures
            r matches Ok(v) ==> v@.len() > 0,
            r matches Err(e) ==> (e matches ProcessError::FileNotFound(_) || e matches ProcessError::IOError(_)
                || e matches ProcessError::DecodingFailed(_)),
    {
        let (mut reader, size) = match self.open_and_validate_file(fs, layout_path) {
            Ok(t) => t,
            Err(ProcessError::EncodingFailed(m)) => return self.fail(ProcessError::DecodingFailed(m)),
            Err(e) => return self.fail(e),
        };
        match read_exact_at(&mut reader, 0, size) {
            Ok(v) => Ok(v),
            Err(e) => self.fail(ProcessError::DecodingFailed(message("Failed to read the layout file: ", e.as_str()))),
        }
    }
}

/// Symbol identifier determinism: two successful encodes of the same bytes
/// under the same configuration and request report the same blocks, field
/// for field, and any manifests they return list the same symbol
/// identifiers, since identifiers are digests of the codec's packets.
pub proof fn lemma_encode_deterministic(
    r1: ProcessResult,
    r2: ProcessResult,
    config: ProcessorConfig,
    out1: Seq<char>,
    out2: Seq<char>,
    data: Seq<u8>,
    requested: int,
    force_single_block: bool,
)
    requires
        encode_reported(r1, config, out1, data, requested, force_single_block),
        encode_reported(r2, config, out2, data, requested, force_single_block),
    ensures
        r1.blocks->Some_0@.len() == r2.blocks->Some_0@.len(),
        forall|i: int| 0 <= i < r1.blocks->Some_0@.len() ==> {
            let a = #[trigger] r1.blocks->Some_0@[i];
            let b = r2.blocks->Some_0@[i];
            &&& a.block_id == b.block_id
            &&& a.original_offset == b.original_offset
            &&& a.size == b.size
            &&& a.encoder_parameters@ == b.encoder_parameters@
            &&& a.hash@ == b.hash@
            &&& a.symbols_count == b.symbols_count
            &&& a.source_symbols_count == b.source_symbols_count
        },
        forall|l1: RaptorQLayout, l2: RaptorQLayout, i: int|
            layout_matches(l1, r1.blocks->Some_0@, data, encode_block_size(config, data.len() as int, requested, force_single_block), config)
            && layout_matches(l2, r2.blocks->Some_0@, data, encode_block_size(config, data.len() as int, requested, force_single_block), config)
            && 0 <= i < l1.blocks@.len()
            ==> (#[trigger] l1.blocks@[i]).symbols.deep_view() == (#[trigger] l2.blocks@[i]).symbols.deep_view(),
{
}

impl RaptorQProcessor {
    /// Reads the symbol files named `symbol_<i>.bin` (`i` below 100) in
    /// `dir`, skipping those missing, empty or unreadable; fails when none
    /// could be read.
    pub fn read_symbol_files<F: FileSystem>(&self, fs: &F, dir: &str) -> (r: Result<Vec<Vec<u8>>, ProcessError>)
        ensures
            r matches Ok(files) ==> files@.len() > 0 && files@.len() <= 100
                && forall|k: int| 0 <= k < files@.len() ==> (#[trigger] files@[k])@.len() > 0,
            r matches Err(e) ==> e matches ProcessError::DecodingFailed(_),
    {
        let mut files: Vec<Vec<u8>> = Vec::new();
        let mut i: u64 = 0;
        while i < 100
            invariant
                0 <= i <= 100,
                files@.len() <= i,
                forall|k: int| 0 <= k < files@.len() ==> (#[trigger] files@[k])@.len() > 0,
            decreases 100 - i,
        {
            let mut name = text_with_number("symbol_", i);
            push_text(&mut name, ".bin");
            let path = join_path(dir, name.as_str());
            i = i + 1;
            let (mut reader, size) = match self.open_and_validate_file(fs, path.as_str()) {
                Ok(t) => t,
                Err(_) => continue,
            };
            match read_exact_at(&mut reader, 0, size) {
                Ok(data) => files.push(data),
                Err(_) => continue,
            }
        }
        if files.len() == 0 {
            return self.fail(ProcessError::DecodingFailed(message("No symbol files found in ", dir)));
        }
        Ok(files)
    }

    /// Reads the symbol files named by `symbol_ids` in `dir`, in that order,
    /// skipping those missing, empty or unreadable; fails when none could be
    /// read.
    pub fn read_specific_symbol_files<F: FileSystem>(
        &self,
        fs: &F,
        dir: &str,
        symbol_ids: &Vec<String>,
    ) -> (r: Result<Vec<Vec<u8>>, ProcessError>)
        ensures
            r matches Ok(files) ==> files@.len() > 0 && files@.len() <= symbol_ids@.len()
                && forall|k: int| 0 <= k < files@.len() ==> (#[trigger] files@[k])@.len() > 0,
            r matches Err(e) ==> e matches ProcessError::DecodingFailed(_),
    {
        let mut files: Vec<Vec<u8>> = Vec::new();
        let mut i: usize = 0;
        while i < symbol_ids.len()
            invariant
                0 <= i <= symbol_ids@.len(),
                files@.len() <= i,
                forall|k: int| 0 <= k < files@.len() ==> (#[trigger] files@[k])@.len() > 0,
            decreases symbol_ids@.len() - i,
        {
            let path = join_path(dir, symbol_ids[i].as_str());
            i = i + 1;
            let (mut reader, size) = match self.open_and_validate_file(fs, path.as_str()) {
                Ok(t) => t,
                Err(_) => continue,
            };
            match read_exact_at(&mut reader, 0, size) {
                Ok(data) => files.push(data),
                Err(_) => continue,
            }
        }
        if files.len() == 0 {
            return self.fail(ProcessError::DecodingFailed(message("No valid symbol files found from the provided IDs in ", dir)));
        }
        Ok(files)
    }
}

} // verus!
