use redbear_drivers::kpi::{
    align_up, crosses_boundary, describe_irq_flags, irq_step, normalize_id, sanitize_align,
    tracked_layout, Idr, Ieee80211RxStatus, IrqStep, TrackedLayout, ENOSPC, EINVAL, GFP_DMA32,
    PCI_IRQ_LEGACY, PCI_IRQ_MSI, PCI_IRQ_MSIX, PCI_IRQ_NOLEGACY, RX_FLAG_DECRYPTED,
    RX_FLAG_IV_STRIPPED, RX_FLAG_MMIC_ERROR, RX_FLAG_MMIC_STRIPPED,
};

#[test]
fn tracked_layout_rejects_zero_size() {
    assert!(tracked_layout(0, 0).is_none());
}

#[test]
fn tracked_layout_rounds_up_or_page_aligns() {
    assert_eq!(tracked_layout(1, 0), Some(TrackedLayout { size: 16, align: 16 }));
    assert_eq!(tracked_layout(32, 0), Some(TrackedLayout { size: 32, align: 16 }));
    assert_eq!(tracked_layout(100, GFP_DMA32), Some(TrackedLayout { size: 100, align: 4096 }));
    assert_eq!(tracked_layout(usize::MAX, 0), None);
}

#[test]
fn ieee80211_rx_status_default_and_flags_work() {
    let status = Ieee80211RxStatus::default();
    assert_eq!(status.freq, 0);
    assert_eq!(status.band, 0);
    assert_eq!(status.signal, 0);
    assert_eq!(status.noise, 0);
    assert_eq!(status.rate_idx, 0);
    assert_eq!(status.flag, 0);
    assert_eq!(status.antenna, 0);
    assert_eq!(status.rx_flags, 0);

    let combined = RX_FLAG_DECRYPTED | RX_FLAG_IV_STRIPPED | RX_FLAG_MMIC_STRIPPED;
    assert_ne!(combined & RX_FLAG_DECRYPTED, 0);
    assert_ne!(combined & RX_FLAG_IV_STRIPPED, 0);
    assert_ne!(combined & RX_FLAG_MMIC_STRIPPED, 0);
    assert_eq!(combined & RX_FLAG_MMIC_ERROR, 0);
}

#[test]
fn describe_irq_flags_formats_requested_modes() {
    assert_eq!(describe_irq_flags(0), "none");
    assert_eq!(describe_irq_flags(PCI_IRQ_MSI), "msi");
    assert_eq!(describe_irq_flags(PCI_IRQ_MSIX | PCI_IRQ_NOLEGACY), "msix|nolegacy");
    assert_eq!(
        describe_irq_flags(PCI_IRQ_MSI | PCI_IRQ_MSIX | PCI_IRQ_LEGACY),
        "msi|msix|legacy"
    );
}

#[test]
fn idr_alloc_and_find_round_trip() {
    let mut idr = Idr::new();
    let ptr1: usize = 0x1000;
    let id1 = idr.allocate(ptr1, 1, 0, 0);
    assert!(id1 >= 1, "allocated ID should be >= start");
    assert_eq!(idr.find(id1 as u32), ptr1);
    assert_eq!(idr.find(9999), 0);
    idr.destroy();
}

#[test]
fn idr_remove_frees_slot() {
    let mut idr = Idr::new();
    let ptr1: usize = 0x2000;
    let id1 = idr.allocate(ptr1, 10, 0, 0);
    assert!(id1 >= 10);
    idr.remove(id1 as u32);
    assert_eq!(idr.find(id1 as u32), 0);
    idr.destroy();
}

#[test]
fn idr_alloc_with_bounded_range() {
    let mut idr = Idr::new();
    let ptr1: usize = 0x3000;
    let id1 = idr.allocate(ptr1, 5, 8, 0);
    assert!(id1 >= 5 && id1 < 8, "ID should be in [5, 8)");
    idr.destroy();
}

#[test]
fn idr_alloc_returns_enospc_when_full() {
    let mut idr = Idr::new();
    let id1 = idr.allocate(0x4000, 1, 2, 0);
    assert_eq!(id1, 1);
    let id2 = idr.allocate(0x4001, 1, 2, 0);
    assert_eq!(id2, -ENOSPC);
    idr.destroy();
}

#[test]
fn idr_alloc_reuses_removed_id() {
    let mut idr = Idr::new();
    let id1 = idr.allocate(0x5000, 1, 0, 0);
    idr.remove(id1 as u32);
    let id2 = idr.allocate(0x5001, 1, 0, 0);
    assert_eq!(id2, id1, "should reuse removed ID");
    idr.destroy();
}

#[test]
fn idr_refuses_bad_ranges_and_counts_up() {
    let mut idr = Idr::new();
    assert_eq!(idr.allocate(1, -1, 0, 0), -EINVAL);
    assert_eq!(idr.allocate(1, 0, -5, 0), -EINVAL);
    assert_eq!(idr.allocate(1, 7, 7, 0), -EINVAL);
    assert_eq!(idr.allocate(0xA, 0, 0, 0), 0);
    assert_eq!(idr.allocate(0xB, 0, 0, 0), 1);
    assert_eq!(idr.allocate(0xC, 0, 0, 0), 2);
    assert_eq!(idr.find(1), 0xB);
    idr.remove(0);
    assert_eq!(idr.allocate(0xD, 0, 0, 0), 0);
    assert_eq!(idr.allocate(0xE, 0, 0, 0), 3);
}

#[test]
fn idr_bounded_range_wraps_to_start() {
    let mut idr = Idr::new();
    assert_eq!(idr.allocate(1, 5, 7, 0), 5);
    assert_eq!(idr.allocate(2, 5, 7, 0), 6);
    idr.remove(5);
    assert_eq!(idr.allocate(3, 5, 7, 0), 5);
    assert_eq!(idr.allocate(4, 5, 7, 0), -ENOSPC);
}

#[test]
fn normalize_id_keeps_nonnegative_values() {
    assert_eq!(normalize_id(-1), None);
    assert_eq!(normalize_id(0), Some(0));
    assert_eq!(normalize_id(42), Some(42));
}

#[test]
fn align_up_rounds_to_multiples() {
    assert_eq!(align_up(1, 16), 16);
    assert_eq!(align_up(16, 16), 16);
    assert_eq!(align_up(17, 16), 32);
    assert_eq!(align_up(5, 4), 8);
}

#[test]
fn sanitize_align_rounds_to_powers_of_two() {
    assert_eq!(sanitize_align(0), Some(1));
    assert_eq!(sanitize_align(1), Some(1));
    assert_eq!(sanitize_align(3), Some(4));
    assert_eq!(sanitize_align(64), Some(64));
    assert_eq!(sanitize_align(65), Some(128));
    assert_eq!(sanitize_align(usize::MAX), None);
}

#[test]
fn crosses_boundary_checks_the_span() {
    assert!(!crosses_boundary(0x1000, 0, 0x1000));
    assert!(!crosses_boundary(0x1000, 16, 0));
    assert!(!crosses_boundary(0x1000, 0x1000, 0x1000));
    assert!(crosses_boundary(0x1FF0, 0x20, 0x1000));
    assert!(crosses_boundary(u64::MAX, 2, 0x1000));
}

#[test]
fn irq_step_stops_on_end_error_or_cancel() {
    assert_eq!(irq_step(Some(8), false), IrqStep::CallHandler);
    assert_eq!(irq_step(Some(0), false), IrqStep::Stop);
    assert_eq!(irq_step(None, false), IrqStep::Stop);
    assert_eq!(irq_step(Some(8), true), IrqStep::Stop);
}
