use redbear_drivers::kpi_mem::{
    dma32_accepts, dma_mapping_error, dma_pool_params, page_map_address, workqueue_threads,
    DevresRegistry,
};

#[test]
fn devres_free_all_cleans_up() {
    let mut reg = DevresRegistry::new();
    let dev = 0xBEEF_0000usize;
    reg.track(dev, 0x10);
    reg.track(dev, 0x20);
    assert_eq!(reg.take_all(dev), vec![0x10, 0x20]);
    assert!(reg.take_all(dev).is_empty());
}

#[test]
fn devm_kfree_forgets_one_record() {
    let mut reg = DevresRegistry::new();
    let dev = 0xDEAD_0000usize;
    reg.track(dev, 1);
    reg.track(dev, 2);
    reg.track(dev, 3);
    reg.untrack(dev, 1);
    // The last record moves into the freed slot.
    assert_eq!(reg.take_all(dev), vec![3, 2]);
    reg.track(dev, 7);
    reg.untrack(dev, 7);
    assert!(reg.take_all(dev).is_empty());
    reg.untrack(0x1234, 9);
}

#[test]
fn dma_pool_rejects_impossible_boundary() {
    assert_eq!(dma_pool_params(1024, 16, 128), None);
}

#[test]
fn dma_pool_parameters_round_alignment() {
    assert_eq!(dma_pool_params(256, 64, 0), Some((256, 64)));
    assert_eq!(dma_pool_params(256, 0, 0), Some((256, 1)));
    assert_eq!(dma_pool_params(256, 48, 4096), Some((256, 64)));
    assert_eq!(dma_pool_params(0, 64, 0), None);
    assert_eq!(dma_pool_params(16, usize::MAX, 0), None);
}

#[test]
fn dma_map_page_and_error_checks_work() {
    assert_eq!(page_map_address(0x1000, 8, 16), Some(0x1008));
    assert_eq!(page_map_address(0, 8, 16), None);
    assert_eq!(page_map_address(0x1000, 8, 0), None);
    assert_eq!(page_map_address(usize::MAX, 1, 16), None);
    assert_eq!(dma_mapping_error(0x1008), 0);
    assert_eq!(dma_mapping_error(0), 1);
}

#[test]
fn dma32_and_workqueue_rules() {
    assert!(dma32_accepts(0x1000));
    assert!(!dma32_accepts(0));
    assert!(!dma32_accepts(0x1_0000_0000));
    assert_eq!(workqueue_threads(2), 2);
    assert_eq!(workqueue_threads(0), 4);
    assert_eq!(workqueue_threads(-3), 4);
}
