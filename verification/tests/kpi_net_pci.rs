use redbear_drivers::kpi::{PCI_IRQ_LEGACY, PCI_IRQ_MSI, PCI_IRQ_MSIX};
use redbear_drivers::kpi_net::{
    napi_complete_result, register_result, skb_copy_layout, skb_headroom, skb_layout_new,
    skb_pull, skb_push, skb_put, skb_reserve, skb_tailroom, skb_trim, tx_queue_stop,
    tx_queue_wake, SkbLayout,
};
use redbear_drivers::kpi_pci::{
    bar_tables, bus_master_command, iomap_len, irq_line, matching_id_index, pci_id_matches,
    BarInfo, IrqVectorTable, PciIdEntry, PciIdentity, PCI_ANY_ID,
};

#[test]
fn skb_allocation_and_growth_work() {
    let skb = skb_layout_new(64);
    let (skb, offset) = skb_put(skb, 8).expect("room for 8 bytes");
    assert_eq!(offset, 0);
    assert_eq!(skb.len, 8);
    let skb = skb_trim(skb, 4);
    assert_eq!(skb.len, 4);
}

#[test]
fn skb_headroom_and_push_pull_work() {
    let skb = skb_reserve(skb_layout_new(64), 8);
    assert_eq!(skb_headroom(&skb), 8);
    assert_eq!(skb_tailroom(&skb), 56);
    let (skb, _) = skb_put(skb, 8).expect("room after the headroom");
    let skb = skb_push(skb, 4).expect("headroom for 4 bytes");
    assert_eq!(skb.len, 12);
    let skb = skb_pull(skb, 6).expect("6 bytes of data");
    assert_eq!(skb.len, 6);
}

#[test]
fn skb_queue_copy_and_clone_work() {
    let skb = skb_reserve(skb_layout_new(32), 4);
    let (skb, _) = skb_put(skb, 6).unwrap();
    let skb = SkbLayout { mac_header: skb_headroom(&skb) as i32, ..skb };
    let copy = skb_copy_layout(&skb).expect("a copy");
    assert_eq!(copy.len, 6);
    assert_eq!(copy.headroom, 4);
    assert_eq!(copy.end, 32);
    assert_eq!(copy.mac_header, 4);
}

#[test]
fn skb_limits() {
    let skb = skb_layout_new(16);
    assert_eq!(skb_put(skb, 17), None);
    assert_eq!(skb_push(skb, 1), None);
    assert_eq!(skb_pull(skb, 1), None);
    let (filled, _) = skb_put(skb, 10).unwrap();
    assert_eq!(skb_reserve(filled, 2), filled);
    assert_eq!(skb_reserve(skb, 17), skb);
    let back = skb_pull(skb_push(skb_reserve(skb, 8), 3).unwrap(), 3).unwrap();
    assert_eq!(back, skb_reserve(skb, 8));
}

#[test]
fn napi_schedule_and_complete_work() {
    assert_eq!(napi_complete_result(4, 8), 1);
    assert_eq!(napi_complete_result(8, 8), 0);
    assert_eq!(napi_complete_result(-1, 8), 0);
}

#[test]
fn net_device_setup_registration_and_queue_state_work() {
    assert_eq!(register_result(false), 0);
    assert_eq!(register_result(true), -16);
    let stopped = tx_queue_stop(0, 2);
    assert_ne!(stopped & (1 << 2), 0);
    assert_eq!(tx_queue_wake(stopped, 2) & (1 << 2), 0);
    assert_eq!(tx_queue_stop(5, 40), 5);
}

#[test]
fn pci_irq_vector_lifecycle_works() {
    let mut table = IrqVectorTable::new();
    let dev = Some(0x1000usize);
    assert_eq!(table.allocate(dev, 32, 1, 1, PCI_IRQ_MSI), 1);
    assert_eq!(table.vector(dev, 0), 32);
    assert_eq!(table.allocate(dev, 32, 1, 1, PCI_IRQ_MSI), -16);
    table.free(dev);
    assert_eq!(table.vector(dev, 0), -22);
}

#[test]
fn pci_msix_range_populates_entries() {
    let mut table = IrqVectorTable::new();
    let dev = Some(0x2000usize);
    assert_eq!(table.allocate(dev, 40, 2, 3, PCI_IRQ_MSIX), 3);
    assert_eq!(table.vector(dev, 0), 40);
    assert_eq!(table.vector(dev, 1), 41);
    assert_eq!(table.vector(dev, 2), 42);
    assert_eq!(table.held_by(0x2000), vec![40, 41, 42]);
    table.free(dev);
}

#[test]
fn pci_rejects_invalid_irq_vector_requests() {
    let mut table = IrqVectorTable::new();
    assert_eq!(table.allocate(Some(0x3000), 0, 1, 1, PCI_IRQ_MSI), -19);
    assert_eq!(table.allocate(None, 32, 1, 1, PCI_IRQ_MSI), -22);
    assert_eq!(table.allocate(Some(0x3000), 32, 2, 1, PCI_IRQ_MSI), -22);
    assert_eq!(table.allocate(Some(0x3000), 32, 1, 1, 0), -22);
    assert_eq!(table.allocate(Some(0x3000), 32, 2, 2, PCI_IRQ_LEGACY), -22);
    assert_eq!(table.vector(Some(0x3000), -1), -22);
    assert!(table.request_overflows(Some(0x3000), i32::MAX as u32, 2, 2, PCI_IRQ_MSIX));
    assert!(!table.request_overflows(Some(0x3000), i32::MAX as u32, 3, 2, PCI_IRQ_MSIX));
}

#[test]
fn id_tables_and_windows() {
    let dev = PciIdentity { vendor_id: 0x8086, device_id: 0x7740, class_code: 2, subclass: 0x80, prog_if: 0 };
    let any = |vendor: u32, device: u32| PciIdEntry {
        vendor,
        device,
        subvendor: PCI_ANY_ID,
        subdevice: PCI_ANY_ID,
        class: 0,
        class_mask: 0,
        driver_data: 7,
    };
    let end = PciIdEntry { vendor: 0, device: 0, subvendor: 0, subdevice: 0, class: 0, class_mask: 0, driver_data: 0 };
    assert!(pci_id_matches(&dev, &any(0x8086, PCI_ANY_ID)));
    assert!(!pci_id_matches(&dev, &any(0x10ec, PCI_ANY_ID)));
    let by_class = PciIdEntry { class: 0x028000, class_mask: 0xffff00, ..any(PCI_ANY_ID, PCI_ANY_ID) };
    assert!(pci_id_matches(&dev, &by_class));
    let wrong_class = PciIdEntry { class: 0x030000, class_mask: 0xff0000, ..any(PCI_ANY_ID, PCI_ANY_ID) };
    assert!(!pci_id_matches(&dev, &wrong_class));
    assert_eq!(matching_id_index(&vec![any(0x10ec, 1), any(0x8086, 0x7740), end], &dev), Some(1));
    assert_eq!(matching_id_index(&vec![any(0x10ec, 1), end, any(0x8086, 0x7740)], &dev), None);

    assert_eq!(bus_master_command(0xabcd_0002), Some(0x0000_0006));
    assert_eq!(bus_master_command(0x0000_0006), None);
    assert_eq!(iomap_len(0, 0x4000), 0x4000);
    assert_eq!(iomap_len(16, 0x4000), 16);
    assert_eq!(irq_line(255), None);
    assert_eq!(irq_line(0), None);
    assert_eq!(irq_line(11), Some(11));
    let (addrs, sizes) = bar_tables(&vec![
        BarInfo { index: 0, addr: 0xfe00_0000, size: 0x4000 },
        BarInfo { index: 9, addr: 1, size: 1 },
        BarInfo { index: 2, addr: 0xd000, size: 0x100 },
    ]);
    assert_eq!(addrs, [0xfe00_0000, 0, 0xd000, 0, 0, 0]);
    assert_eq!(sizes, [0x4000, 0, 0x100, 0, 0, 0]);
}
