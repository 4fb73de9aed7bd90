use rq_library::config::{ProcessorConfig, DEFAULT_REDUNDANCY_FACTOR, DEFAULT_SYMBOL_SIZE_B};
use rq_library::error::ProcessError;
use rq_library::planner::{
    calculate_repair_symbols, estimate_memory_requirements, is_memory_available, plan_blocks,
    recommended_block_size_for, resolve_block_size,
};
use rq_library::processor::RaptorQProcessor;

fn config_with_memory(max_memory_mb: u64) -> ProcessorConfig {
    ProcessorConfig {
        symbol_size: DEFAULT_SYMBOL_SIZE_B,
        redundancy_factor: DEFAULT_REDUNDANCY_FACTOR,
        max_memory_mb,
        concurrency_limit: 4,
    }
}

#[test]
fn test_block_size_small_file() {
    let processor = RaptorQProcessor::new(ProcessorConfig::default());
    let file_size = 10 * 1024 * 1024;
    let block_size = processor.get_recommended_block_size(file_size);
    assert_eq!(block_size, 0);
}

#[test]
fn test_block_size_large_file() {
    let processor = RaptorQProcessor::new(config_with_memory(100));
    let file_size = 1024 * 1024 * 1024;
    let block_size = processor.get_recommended_block_size(file_size);
    assert!(block_size > 0);
    assert_eq!(block_size % processor.get_config().symbol_size as usize, 0);
}

#[test]
fn test_block_size_edge_memory() {
    let configs = [
        config_with_memory(8_000),
        config_with_memory(16_000),
        config_with_memory(32_000),
        config_with_memory(64_000),
    ];
    let processors: Vec<RaptorQProcessor> =
        configs.iter().map(|config| RaptorQProcessor::new(*config)).collect();
    let file_sizes: [usize; 5] = [
        10 * 1024 * 1024,
        100 * 1024 * 1024,
        1024 * 1024 * 1024,
        10 * 1024 * 1024 * 1024,
        100 * 1024 * 1024 * 1024,
    ];
    for &file_size in &file_sizes {
        let block_sizes: Vec<usize> =
            processors.iter().map(|p| p.get_recommended_block_size(file_size)).collect();
        for (i, &block_size) in block_sizes.iter().enumerate() {
            if file_size < (configs[i].max_memory_mb * 1024 * 1024 / 4) as usize {
                assert_eq!(block_size, 0);
            }
            if file_size > (configs[i].max_memory_mb * 1024 * 1024) as usize {
                assert!(block_size > 0);
            }
            if i < block_sizes.len() - 1 {
                let next_block_size = block_sizes[i + 1];
                if block_size > 0 && next_block_size > 0 {
                    assert!(next_block_size >= block_size);
                }
                if block_size == 0 {
                    assert_eq!(next_block_size, 0);
                }
            }
        }
    }
}

#[test]
fn test_blcok_size_zero_file() {
    let processor = RaptorQProcessor::new(ProcessorConfig::default());
    assert_eq!(processor.get_recommended_block_size(0), 0);
}

#[test]
fn test_calculate_repair_symbols_logic() {
    let config = ProcessorConfig {
        symbol_size: 1000,
        redundancy_factor: 10,
        max_memory_mb: 16384,
        concurrency_limit: 4,
    };
    let small_repair = calculate_repair_symbols(&config, 500);
    assert_eq!(small_repair, 10);
    let large_data_len = 10000;
    let large_repair = calculate_repair_symbols(&config, large_data_len);
    assert!(large_repair > 0);
    assert!(large_repair < large_data_len);
    let exact_repair = calculate_repair_symbols(&config, 1000);
    assert!(exact_repair > 0);
}

#[test]
fn test_estimate_memory_logic() {
    let sizes = [1024 * 1024, 10 * 1024 * 1024, 100 * 1024 * 1024];
    let mut last_estimate = 0;
    for size in sizes {
        let estimate = estimate_memory_requirements(size);
        assert!(estimate > 0);
        assert!(estimate > last_estimate);
        last_estimate = estimate;
    }
    let data_mb = 10usize;
    let estimate = estimate_memory_requirements(data_mb * 1024 * 1024);
    assert!(estimate > data_mb);
}

#[test]
fn test_is_memory_available_logic() {
    let config = config_with_memory(100);
    assert!(is_memory_available(&config, 50));
    assert!(is_memory_available(&config, 100));
    assert!(!is_memory_available(&config, 101));
    assert!(!is_memory_available(&config, 200));
}

#[test]
fn recommended_block_size_exact_values() {
    // 1 MiB ceiling: safe memory 699050 bytes, a quarter is 174762, two symbols of 65535.
    let config = config_with_memory(1);
    assert_eq!(recommended_block_size_for(&config, 699_049), 0);
    assert_eq!(recommended_block_size_for(&config, 699_050), 131_070);
    assert_eq!(recommended_block_size_for(&config, 3 * 1024 * 1024), 131_070);
    // A symbol larger than a quarter of the safe memory still gives one symbol.
    let tiny = ProcessorConfig { symbol_size: 65535, redundancy_factor: 4, max_memory_mb: 0, concurrency_limit: 4 };
    assert_eq!(recommended_block_size_for(&tiny, 5), 65535);
}

#[test]
fn block_size_is_monotonic_in_memory() {
    let file_size = 3 * 1024 * 1024 * 1024usize;
    let mut last = 0usize;
    for mb in [1u64, 2, 10, 100, 1000] {
        let size = recommended_block_size_for(&config_with_memory(mb), file_size);
        assert!(size > 0);
        assert!(size >= last);
        last = size;
    }
    assert_eq!(recommended_block_size_for(&config_with_memory(8192), file_size), 0);
}

#[test]
fn repair_symbol_formula_values() {
    let config = ProcessorConfig { symbol_size: 1000, redundancy_factor: 4, max_memory_mb: 1, concurrency_limit: 1 };
    // ceil(2500 * 3 / 1000) = 8
    assert_eq!(calculate_repair_symbols(&config, 2500), 8);
    assert_eq!(calculate_repair_symbols(&config, 1000), 4);
    let one = ProcessorConfig { symbol_size: 1000, redundancy_factor: 1, max_memory_mb: 1, concurrency_limit: 1 };
    assert_eq!(calculate_repair_symbols(&one, 5000), 0);
    let zero = ProcessorConfig { symbol_size: 1000, redundancy_factor: 0, max_memory_mb: 1, concurrency_limit: 1 };
    assert_eq!(calculate_repair_symbols(&zero, 5000), 0);
}

#[test]
fn memory_estimate_values() {
    assert_eq!(estimate_memory_requirements(1), 3);
    assert_eq!(estimate_memory_requirements(1024 * 1024), 3);
    assert_eq!(estimate_memory_requirements(2 * 1024 * 1024), 5);
    assert_eq!(estimate_memory_requirements(5 * 1024 * 1024), 13);
    assert_eq!(estimate_memory_requirements(0), 0);
}

#[test]
fn plan_blocks_tiles_the_file() {
    let plan = plan_blocks(2500, 1000);
    assert_eq!(plan, vec![(0, 1000), (1000, 1000), (2000, 500)]);
    let total: u64 = plan.iter().map(|e| e.1).sum();
    assert_eq!(total, 2500);
    assert_eq!(plan_blocks(3 * 1048576, 1048576).len(), 3);
}

#[test]
fn requested_size_larger_than_file_gives_one_block() {
    let plan = plan_blocks(1024, 500 * 1024);
    assert_eq!(plan, vec![(0, 1024)]);
}

#[test]
fn unsplit_file_uses_its_own_size() {
    let config = ProcessorConfig::default();
    assert_eq!(resolve_block_size(&config, 1024, 0, false), Ok(1024));
    assert_eq!(plan_blocks(1024, 1024), vec![(0, 1024)]);
    assert_eq!(resolve_block_size(&config, 1024, 300, false), Ok(300));
}

#[test]
fn forced_single_block_over_ceiling_is_refused() {
    let config = config_with_memory(1);
    let r = resolve_block_size(&config, 5 * 1024 * 1024, 0, true);
    assert_eq!(r, Err(ProcessError::MemoryLimitExceeded { required: 13, available: 1 }));
    let roomy = config_with_memory(100);
    assert_eq!(resolve_block_size(&roomy, 5 * 1024 * 1024, 0, true), Ok(5 * 1024 * 1024));
}
