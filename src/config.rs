//! Processor configuration.
use vstd::prelude::*;

verus! {

/// Default bytes per symbol: the largest value the codec's 16-bit field holds.
pub const DEFAULT_SYMBOL_SIZE_B: u16 = 65535;

/// Default ratio of emitted symbols to source symbols.
pub const DEFAULT_REDUNDANCY_FACTOR: u8 = 4;

/// Default memory ceiling per operation, in MiB (16 GiB).
pub const DEFAULT_MAX_MEMORY_MB: u64 = 16384;

/// Default number of operations that may run at once on one processor.
pub const DEFAULT_CONCURRENCY_LIMIT: u64 = 4;

/// Immutable settings of a processor.
#[derive(Debug, Clone, Copy)]
pub struct ProcessorConfig {
    /// Bytes per encoded symbol.
    pub symbol_size: u16,
    /// Ratio of total symbols to source symbols.
    pub redundancy_factor: u8,
    /// Peak working-set ceiling per operation, in MiB.
    pub max_memory_mb: u64,
    /// Maximum number of simultaneous encode/decode operations.
    pub concurrency_limit: u64,
}

impl Default for ProcessorConfig {
    fn default() -> (r: Self)
        ensures
            r.symbol_size == DEFAULT_SYMBOL_SIZE_B,
            r.redundancy_factor == DEFAULT_REDUNDANCY_FACTOR,
            r.max_memory_mb == DEFAULT_MAX_MEMORY_MB,
            r.concurrency_limit == DEFAULT_CONCURRENCY_LIMIT,
    {
        ProcessorConfig {
            symbol_size: DEFAULT_SYMBOL_SIZE_B,
            redundancy_factor: DEFAULT_REDUNDANCY_FACTOR,
            max_memory_mb: DEFAULT_MAX_MEMORY_MB,
            concurrency_limit: DEFAULT_CONCURRENCY_LIMIT,
        }
    }
}

} // verus!
