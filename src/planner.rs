//! Memory planning: block size, symbol counts, peak-memory estimate and the
//! partition of a file into blocks.
use vstd::prelude::*;
use crate::config::ProcessorConfig;
use crate::error::ProcessError;

verus! {

/// Bytes in one MiB.
pub const MIB: u64 = 1048576;

/// The memory ceiling in bytes after the 50% safety margin (`ceiling / 1.5`).
pub open spec fn safe_memory(max_memory_mb: u64) -> int {
    (2 * max_memory_mb * MIB) / 3
}

/// Block size that keeps a file of `file_size` bytes under the ceiling.
/// Zero means "do not split": the file fits in the safe memory.
pub open spec fn recommended_block_size(max_memory_mb: u64, symbol_size: u16, file_size: int) -> int {
    let safe = safe_memory(max_memory_mb);
    if file_size < safe {
        0
    } else {
        let per_block = (safe / 4) / (symbol_size as int);
        (if per_block < 1 { 1 } else { per_block }) * symbol_size
    }
}

/// Repair symbols emitted for a block of `size` bytes, capped at `u64::MAX`.
pub open spec fn repair_count(size: int, symbol_size: int, redundancy: int) -> int {
    if size <= symbol_size {
        redundancy
    } else if redundancy == 0 {
        0
    } else {
        let exact = (size * (redundancy - 1) + symbol_size - 1) / symbol_size;
        if exact > u64::MAX { u64::MAX as int } else { exact }
    }
}

/// Whole MiB needed to hold `size` bytes.
pub open spec fn size_in_mib(size: int) -> int {
    (size + MIB - 1) / (MIB as int)
}

/// Projected peak memory in MiB for a block of `size` bytes:
/// `ceil(ceil(size / MiB) * 2.5)`, capped at the largest `usize`.
pub open spec fn memory_estimate(size: int) -> int {
    let estimate = (5 * size_in_mib(size) + 1) / 2;
    if estimate > usize::MAX { usize::MAX as int } else { estimate }
}

/// Number of blocks a file of `total` bytes is cut into with blocks of `block_size`.
pub open spec fn block_count(total: int, block_size: int) -> int {
    if block_size >= total { 1 } else { (total + block_size - 1) / block_size }
}

/// Size of block `i`: the block size, or what remains of the file for the last one.
pub open spec fn block_len(total: int, block_size: int, i: int) -> int {
    let rest = total - i * block_size;
    if block_size < rest { block_size } else { rest }
}

/// The block size an encode uses, as resolved from the request.
pub open spec fn resolved_block_size(config: ProcessorConfig, file_size: int, requested: int) -> int {
    let recommended = recommended_block_size(config.max_memory_mb, config.symbol_size, file_size);
    if requested == 0 && recommended == 0 {
        file_size
    } else if requested == 0 {
        recommended
    } else {
        requested
    }
}

/// Sum of the sizes of a sequence of `(offset, size)` extents.
pub open spec fn total_size(extents: Seq<(u64, u64)>) -> int
    decreases extents.len(),
{
    if extents.len() == 0 {
        0
    } else {
        total_size(extents.drop_last()) + extents.last().1
    }
}

/// The extents tile `[0, total)`: they start at 0, each begins where the
/// previous one ends, none is empty, and the last ends at `total`.
pub open spec fn tiles(extents: Seq<(u64, u64)>, total: int) -> bool {
    &&& extents.len() > 0
    &&& extents[0].0 == 0
    &&& forall|i: int| 0 <= i < extents.len() ==> #[trigger] extents[i].1 > 0
    &&& forall|i: int| 0 <= i < extents.len() - 1
        ==> #[trigger] extents[i + 1].0 == extents[i].0 + extents[i].1
    &&& extents.last().0 + extents.last().1 == total
}

/// Recommended block size for a file of `file_size` bytes under `config`
/// (0 when the file fits in the safe memory and need not be split).
pub fn recommended_block_size_for(config: &ProcessorConfig, file_size: usize) -> (r: usize)
    requires
        config.symbol_size > 0,
    ensures
        r as int == recommended_block_size(config.max_memory_mb, config.symbol_size, file_size as int),
{
    let bytes: u128 = (config.max_memory_mb as u128) * (MIB as u128);
    assert(bytes <= 0x10_0000_0000_0000_0000_0000) by (nonlinear_arith)
        requires
            bytes == (config.max_memory_mb as u128) * 1048576,
            config.max_memory_mb <= u64::MAX,
    {}
    let safe_wide: u128 = bytes * 2 / 3;
    if (file_size as u128) < safe_wide {
        return 0;
    }
    let safe = safe_wide as usize;
    let target = safe / 4;
    let symbol_size = config.symbol_size as usize;
    let per_block = target / symbol_size;
    let blocks = if per_block < 1 { 1 } else { per_block };
    proof {
        assert(blocks * symbol_size <= usize::MAX) by (nonlinear_arith)
            requires
                blocks == 1 || blocks == target / symbol_size,
                symbol_size > 0,
                symbol_size <= 65535,
                target <= usize::MAX / 4,
        {
            if blocks != 1 {
                assert((target / symbol_size) * symbol_size <= target);
            }
        }
    }
    blocks * symbol_size
}

/// Repair symbols to emit for a block of `size` bytes.
pub fn calculate_repair_symbols(config: &ProcessorConfig, size: u64) -> (r: u64)
    requires
        config.symbol_size > 0,
    ensures
        r as int == repair_count(size as int, config.symbol_size as int, config.redundancy_factor as int),
{
    let symbol_size = config.symbol_size as u64;
    if size <= symbol_size {
        config.redundancy_factor as u64
    } else if config.redundancy_factor == 0 {
        0
    } else {
        let extra = (config.redundancy_factor - 1) as u128;
        assert((size as u128) * extra <= 0x1_0000_0000_0000_0000_0000) by (nonlinear_arith)
            requires
                extra <= 255,
                size <= u64::MAX,
        {}
        let exact: u128 = ((size as u128) * extra + (symbol_size as u128) - 1) / (symbol_size as u128);
        if exact > u64::MAX as u128 { u64::MAX } else { exact as u64 }
    }
}

/// Projected peak memory, in MiB, to encode or decode `size` bytes at once.
pub fn estimate_memory_requirements(size: usize) -> (r: usize)
    ensures
        r as int == memory_estimate(size as int),
{
    let mib = (size as u128 + (MIB as u128) - 1) / (MIB as u128);
    assert(mib <= 17592186044416) by (nonlinear_arith)
        requires
            mib == (size as u128 + 1048575) / 1048576,
            size <= usize::MAX,
    {}
    let estimate = (5 * mib + 1) / 2;
    if estimate > usize::MAX as u128 { usize::MAX } else { estimate as usize }
}

/// Whether `required_mb` fits under the configured ceiling.
pub fn is_memory_available(config: &ProcessorConfig, required_mb: usize) -> (r: bool)
    ensures
        r == (required_mb as int <= config.max_memory_mb as int),
{
    (required_mb as u64) <= config.max_memory_mb
}

/// The block size for an encode of `file_size` bytes: the whole file when
/// `force_single_block` is set (refused when its estimate exceeds the
/// ceiling), otherwise the request, the planner's size, or the whole file
/// when the planner says it need not be split.
pub fn resolve_block_size(
    config: &ProcessorConfig,
    file_size: usize,
    requested: usize,
    force_single_block: bool,
) -> (r: Result<usize, ProcessError>)
    requires
        config.symbol_size > 0,
    ensures
        force_single_block && memory_estimate(file_size as int) > config.max_memory_mb ==> r == Err::<usize, ProcessError>(
            ProcessError::MemoryLimitExceeded {
                required: memory_estimate(file_size as int) as usize,
                available: config.max_memory_mb as usize,
            },
        ),
        force_single_block && memory_estimate(file_size as int) <= config.max_memory_mb ==> r == Ok::<usize, ProcessError>(file_size),
        !force_single_block ==> (r matches Ok(b) && b as int == resolved_block_size(*config, file_size as int, requested as int)),
{
    if force_single_block {
        let required = estimate_memory_requirements(file_size);
        if !is_memory_available(config, required) {
            return Err(ProcessError::MemoryLimitExceeded {
                required,
                available: config.max_memory_mb as usize,
            });
        }
        return Ok(file_size);
    }
    let recommended = recommended_block_size_for(config, file_size);
    if requested == 0 && recommended == 0 {
        Ok(file_size)
    } else if requested == 0 {
        Ok(recommended)
    } else {
        Ok(requested)
    }
}

proof fn lemma_block_count_bounds(total: int, block_size: int)
    requires
        total > 0,
        block_size > 0,
    ensures
        block_count(total, block_size) >= 1,
        (block_count(total, block_size) - 1) * block_size < total,
        total <= block_count(total, block_size) * block_size,
{
    let n = block_count(total, block_size);
    if block_size >= total {
        assert(n == 1);
    } else {
        let q = (total + block_size - 1) / block_size;
        let r = (total + block_size - 1) % block_size;
        vstd::arithmetic::div_mod::lemma_fundamental_div_mod(total + block_size - 1, block_size);
        assert(q * block_size + r == total + block_size - 1);
        assert(0 <= r < block_size);
        assert(q >= 1) by (nonlinear_arith)
            requires
                q * block_size + r == total + block_size - 1,
                r < block_size,
                total > 0,
                block_size > 0,
        {}
        assert((q - 1) * block_size < total) by (nonlinear_arith)
            requires
                q * block_size + r == total + block_size - 1,
                r >= 0,
        {}
    }
}

/// Offsets and sizes of the blocks of a `total`-byte file cut every
/// `block_size` bytes: block `i` starts at `i * block_size` and the last one
/// holds what remains.
pub fn plan_blocks(total: u64, block_size: u64) -> (r: Vec<(u64, u64)>)
    requires
        total > 0,
        block_size > 0,
    ensures
        r@.len() == block_count(total as int, block_size as int),
        forall|i: int| 0 <= i < r@.len() ==> (#[trigger] r@[i]).0 as int == i * block_size
            && r@[i].1 as int == block_len(total as int, block_size as int, i),
        tiles(r@, total as int),
{
    proof { lemma_block_count_bounds(total as int, block_size as int); }
    let count: u64 = if block_size >= total { 1 } else { (total - 1) / block_size + 1 };
    assert(count == block_count(total as int, block_size as int)) by {
        if block_size < total {
            let t = total as int;
            let b = block_size as int;
            assert((t - 1) / b + 1 == (t - 1 + b) / b) by {
                vstd::arithmetic::div_mod::lemma_div_plus_one((total - 1) as int, block_size as int);
            }
        }
    }
    let mut extents: Vec<(u64, u64)> = Vec::new();
    let mut i: u64 = 0;
    while i < count
        invariant
            count == block_count(total as int, block_size as int),
            (count - 1) * block_size < total,
            total <= count * block_size,
            0 <= i <= count,
            extents@.len() == i,
            forall|j: int| 0 <= j < i ==> (#[trigger] extents@[j]).0 as int == j * block_size
                && extents@[j].1 as int == block_len(total as int, block_size as int, j),
        decreases count - i,
    {
        assert(i * block_size < total) by (nonlinear_arith)
            requires
                i < count,
                (count - 1) * block_size < total,
                block_size > 0,
        {}
        let offset = i * block_size;
        let rest = total - offset;
        let size = if block_size < rest { block_size } else { rest };
        extents.push((offset, size));
        i = i + 1;
    }
    assert forall|j: int| 0 <= j < extents@.len() implies #[trigger] extents@[j].1 > 0 by {
        assert(j * block_size < total) by (nonlinear_arith)
            requires
                j < count,
                (count - 1) * block_size < total,
                block_size > 0,
        {}
    }
    assert forall|j: int| 0 <= j < extents@.len() - 1
        implies #[trigger] extents@[j + 1].0 == extents@[j].0 + extents@[j].1 by {
        assert((j + 1) * block_size < total) by (nonlinear_arith)
            requires
                j + 1 < count,
                (count - 1) * block_size < total,
                block_size > 0,
        {}
        assert((j + 1) * block_size == j * block_size + block_size) by (nonlinear_arith);
    }
    let last = count - 1;
    assert(total - last * block_size <= block_size) by (nonlinear_arith)
        requires
            total <= count * block_size,
            last == count - 1,
    {}
    extents
}

proof fn lemma_prefix_total(extents: Seq<(u64, u64)>, total: int, k: int)
    requires
        tiles(extents, total),
        1 <= k <= extents.len(),
    ensures
        total_size(extents.take(k)) == extents[k - 1].0 + extents[k - 1].1,
    decreases k,
{
    let pre = extents.take(k);
    assert(pre.drop_last() =~= extents.take(k - 1));
    assert(pre.last() == extents[k - 1]);
    if k == 1 {
        assert(extents.take(0) =~= Seq::<(u64, u64)>::empty());
        assert(total_size(extents.take(0)) == 0);
        assert(total_size(pre) == total_size(pre.drop_last()) + pre.last().1);
    } else {
        lemma_prefix_total(extents, total, k - 1);
        let j = k - 2;
        assert(extents[j + 1].0 == extents[j].0 + extents[j].1);
        assert(total_size(pre) == total_size(pre.drop_last()) + pre.last().1);
    }
}

/// Offset coverage: when block extents tile a file, their sizes add up to the
/// file's length, and their offsets are strictly increasing.
pub proof fn lemma_offset_coverage(extents: Seq<(u64, u64)>, total: int)
    requires
        tiles(extents, total),
    ensures
        total_size(extents) == total,
        forall|i: int, j: int| 0 <= i < j < extents.len() ==> #[trigger] extents[i].0 < #[trigger] extents[j].0,
{
    lemma_prefix_total(extents, total, extents.len() as int);
    assert(extents.take(extents.len() as int) =~= extents);
    assert forall|i: int, j: int| 0 <= i < j < extents.len() implies #[trigger] extents[i].0 < #[trigger] extents[j].0 by {
        lemma_offsets_increase(extents, total, i, j);
    }
}

proof fn lemma_offsets_increase(extents: Seq<(u64, u64)>, total: int, i: int, j: int)
    requires
        tiles(extents, total),
        0 <= i < j < extents.len(),
    ensures
        extents[i].0 < extents[j].0,
    decreases j - i,
{
    assert(extents[i + 1].0 == extents[i].0 + extents[i].1);
    if i + 1 < j {
        lemma_offsets_increase(extents, total, i + 1, j);
    }
}

/// Block-size monotonicity: the planner returns 0 exactly when the file fits
/// in the safe memory, and with a larger ceiling a file that must still be
/// split gets blocks at least as large.
pub proof fn lemma_block_size_monotonic(mb_low: u64, mb_high: u64, symbol_size: u16, file_size: int)
    requires
        mb_low <= mb_high,
        symbol_size > 0,
        file_size >= 0,
        recommended_block_size(mb_high, symbol_size, file_size) > 0,
    ensures
        recommended_block_size(mb_low, symbol_size, file_size) > 0,
        recommended_block_size(mb_low, symbol_size, file_size) <= recommended_block_size(mb_high, symbol_size, file_size),
        recommended_block_size(mb_low, symbol_size, file_size) == 0 <==> file_size < safe_memory(mb_low),
        recommended_block_size(mb_high, symbol_size, file_size) == 0 <==> file_size < safe_memory(mb_high),
{
    lemma_safe_memory_monotonic(mb_low, mb_high);
    let s_low = safe_memory(mb_low);
    let s_high = safe_memory(mb_high);
    let ss = symbol_size as int;
    lemma_planner_zero_iff(mb_low, symbol_size, file_size);
    lemma_planner_zero_iff(mb_high, symbol_size, file_size);
    vstd::arithmetic::div_mod::lemma_div_is_ordered(s_low, s_high, 4);
    vstd::arithmetic::div_mod::lemma_div_is_ordered(s_low / 4, s_high / 4, ss);
    let p_low = (s_low / 4) / ss;
    let p_high = (s_high / 4) / ss;
    let m_low = if p_low < 1 { 1 } else { p_low };
    let m_high = if p_high < 1 { 1 } else { p_high };
    assert(m_low * ss <= m_high * ss) by (nonlinear_arith)
        requires
            m_low <= m_high,
            ss > 0,
    {}
}

proof fn lemma_planner_zero_iff(mb: u64, symbol_size: u16, file_size: int)
    requires
        symbol_size > 0,
    ensures
        recommended_block_size(mb, symbol_size, file_size) == 0 <==> file_size < safe_memory(mb),
{
    let s = safe_memory(mb);
    if file_size >= s {
        let p = (s / 4) / (symbol_size as int);
        let m = if p < 1 { 1 } else { p };
        assert(m * (symbol_size as int) > 0) by (nonlinear_arith)
            requires
                m >= 1,
                symbol_size > 0,
        {}
    }
}

proof fn lemma_safe_memory_monotonic(mb_low: u64, mb_high: u64)
    requires
        mb_low <= mb_high,
    ensures
        0 <= safe_memory(mb_low) <= safe_memory(mb_high),
{
    assert(2 * mb_low * MIB <= 2 * mb_high * MIB) by (nonlinear_arith)
        requires
            mb_low <= mb_high,
    {}
    vstd::arithmetic::div_mod::lemma_div_is_ordered(2 * mb_low * MIB, 2 * mb_high * MIB, 3);
    assert(0 <= 2 * mb_low * MIB) by (nonlinear_arith);
    vstd::arithmetic::div_mod::lemma_div_pos_is_pos(2 * mb_low * MIB, 3);
}

/// For a non-empty file the resolved block size is positive.
pub proof fn lemma_resolved_positive(config: ProcessorConfig, file_size: int, requested: int)
    requires
        config.symbol_size > 0,
        file_size > 0,
        requested >= 0,
    ensures
        resolved_block_size(config, file_size, requested) > 0,
{
    let s = safe_memory(config.max_memory_mb);
    if file_size >= s {
        let p = (s / 4) / (config.symbol_size as int);
        let m = if p < 1 { 1 } else { p };
        assert(m * (config.symbol_size as int) > 0) by (nonlinear_arith)
            requires
                m >= 1,
                config.symbol_size > 0,
        {}
    }
}

/// A requested block size at least the file's size gives exactly one block,
/// holding the whole file.
pub proof fn lemma_large_block_single(total: int, block_size: int)
    requires
        0 < total <= block_size,
    ensures
        block_count(total, block_size) == 1,
        block_len(total, block_size, 0) == total,
{
}

/// With no requested size and a planner that says "do not split", the block
/// size is the file's size: exactly one block, holding the whole file.
pub proof fn lemma_unsplit_single(config: ProcessorConfig, total: int)
    requires
        total > 0,
        recommended_block_size(config.max_memory_mb, config.symbol_size, total) == 0,
    ensures
        resolved_block_size(config, total, 0) == total,
        block_count(total, resolved_block_size(config, total, 0)) == 1,
        block_len(total, resolved_block_size(config, total, 0), 0) == total,
{
}

} // verus!
