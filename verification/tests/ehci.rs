use redbear_drivers::ehci_control::{
    parse_control_request, parse_hex_bytes, parse_numeric, ControlRequest, ControlRequestError,
};
use redbear_drivers::ehci_ctl::{
    address_in_use, address_port, allocate_device_address, bool_word, check_control_transfer,
    clear_changes_write, config_read_length, control_buffer, control_reply, controller_layout,
    decode_port_status, dma_segment, ensure_dma_segment, ensure_dma_segment_matches,
    get_descriptor, interrupt_enable_mask, interrupt_threshold, low32, map_td_error,
    max_packet_size0, needs_restart, next_wait, observe_port, parse_mmio_bar, poll_transfer,
    port_write_value, read_config_dword, request_setup, reset_poll, set_address_request,
    settle_failed_reset, setup_packet_bytes, start_command, status_to_clear,
    transfer_failure_text, transferred, wait_done, wait_label, BarError, ControllerLayout,
    DmaSegmentError, PortDevice, PortRecord, SetupPacket, StartWait, TransferPoll, UsbError,
};
use redbear_drivers::ehci_regs::{
    build_control_transfer, build_data_td, build_setup_td, build_status_td, op_base,
    portsc_offset, qh_endpoint_capabilities, qh_endpoint_characteristics, qh_link_pointer,
    HcCapParams, QueueHead, TransferDescriptor, PORT_RESET,
};
use redbear_drivers::ehci_scheme::{
    descriptor_bytes, hex_encode, resolve_port_child, resolve_root_path, root_listing,
    status_bytes, EhciScheme, HandleKind, NodeMode,
};
use redbear_drivers::hci_scheme::SchemeError;
use redbear_drivers::scheme_handles::SCHEME_ROOT_ID;

fn blank_td() -> TransferDescriptor {
    TransferDescriptor { next_qtd: 0, alt_qtd: 0, token: 0, buffers: [0; 5] }
}

fn device(address: u8) -> PortDevice {
    PortDevice {
        address,
        max_packet_size0: 64,
        device_descriptor: vec![0x12, 0x01],
        config_descriptor: Vec::new(),
        vendor_id: 0x1234,
        product_id: 0xabcd,
        device_class: 9,
        device_subclass: 0,
        device_protocol: 1,
    }
}

fn record_with(address: Option<u8>) -> PortRecord {
    let mut r = PortRecord::default();
    r.device = address.map(device);
    r
}

// ---- registers ----

#[test]
fn register_offsets() {
    assert_eq!(op_base(0x20), 0x20);
    assert_eq!(portsc_offset(0), 0x44);
    assert_eq!(portsc_offset(2), 0x4C);
}

#[test]
fn hcsparams_fields() {
    let caps = HcCapParams::from_hcsparams(0x0000_1B94);
    assert_eq!(caps.n_ports, 4);
    assert!(caps.port_routing_rules);
    assert_eq!(caps.n_cc, 0xB);
    assert_eq!(caps.n_pcc, 1);
    assert_eq!(caps.port_route, 0);
}

#[test]
fn queue_head_words() {
    let qh = QueueHead::new();
    assert_eq!(qh.horiz_link, 1);
    assert_eq!(qh.caps, [0, 0]);
    assert_eq!(qh.current_qtd, 0);
    assert_eq!(qh.overlay, [1, 1, 0, 0, 0, 0, 0, 0]);
    assert_eq!(qh_link_pointer(0x1234_5678_9ABC_DEF7), 0x9ABC_DEE2);
    assert_eq!(qh_endpoint_characteristics(5, 0, 64, true), 0x4040_E005);
    assert_eq!(qh_endpoint_characteristics(5, 0, 64, false), 0x4040_6005);
    assert_eq!(qh_endpoint_characteristics(0x85, 0x12, 0x0840, false), 0x4040_6205);
    assert_eq!(qh_endpoint_capabilities(), 0x4000_0000);
}

#[test]
fn transfer_descriptor_words() {
    let setup = build_setup_td(0x1000_0010, &[0; 8], false);
    assert_eq!(setup.next_qtd, 1);
    assert_eq!(setup.alt_qtd, 1);
    assert_eq!(setup.token, 0x0008_0E80);
    assert_eq!(setup.buffers, [0x1000_0010, 0x1000_1000, 0x1000_2000, 0x1000_3000, 0x1000_4000]);
    let data = build_data_td(0x2000, 18, true, true);
    assert_eq!(data.token, 0x8012_0D80);
    assert_eq!(build_data_td(0xFFFF_F000, 1, false, false).buffers[1], 0);
    assert_eq!(build_status_td(true).token, 0x8000_8C80);
    assert_eq!(build_status_td(false).token, 0x8000_8D80);
    assert_eq!(build_status_td(false).buffers, [0; 5]);
}

#[test]
fn control_transfer_chain() {
    let mut pool = [blank_td(); 3];
    let first = build_control_transfer(0x1000, &[0; 8], 0x2000, 18, true, &mut pool, 0x3000);
    assert_eq!(first, Some(0x3000));
    assert_eq!(pool[0].next_qtd, 0x3020);
    assert_eq!(pool[0].token, 0x0008_0E80);
    assert_eq!(pool[1].next_qtd, 0x3040);
    assert_eq!(pool[1].alt_qtd, 0x3040);
    assert_eq!(pool[1].token, 0x8012_0D80);
    assert_eq!(pool[2].token, 0x8000_8C80);

    let mut pool = [blank_td(); 3];
    let first = build_control_transfer(0x1000, &[0; 8], 0, 0, false, &mut pool, 0x3000);
    assert_eq!(first, Some(0x3000));
    assert_eq!(pool[0].next_qtd, 0x3020);
    assert_eq!(pool[1].token, 0x8000_8D80);
    assert_eq!(pool[2].token, 0);

    let mut small = [blank_td(); 2];
    assert_eq!(build_control_transfer(0x1000, &[0; 8], 0x2000, 4, true, &mut small, 0x3000), None);
    assert_eq!(small[0].token, 0);
    let mut one = [blank_td(); 1];
    assert_eq!(build_control_transfer(0x1000, &[0; 8], 0, 0, true, &mut one, 0x3000), None);
    let mut pool = [blank_td(); 3];
    assert_eq!(build_control_transfer(0, &[0; 8], 0, 0, true, &mut pool, u64::MAX - 8), None);
}

// ---- control requests ----

#[test]
fn control_request_in_and_out() {
    let r = parse_control_request(b"request_type=0x80 request=6 value=0x0100 index=0 length=18")
        .unwrap();
    assert_eq!((r.request_type, r.request, r.value, r.index, r.length), (0x80, 6, 0x0100, 0, 18));
    assert!(r.data.is_empty());
    let r = parse_control_request(b"  bmRequestType=0 bRequest=9\twValue=1\nwIndex=0 wLength=2 data=01:02 ")
        .unwrap();
    assert_eq!((r.request_type, r.request, r.value, r.length), (0, 9, 1, 2));
    assert_eq!(r.data, vec![1, 2]);
    let r = parse_control_request(b"request_type=1 request=1 value=1 value=7 index=0 length=0").unwrap();
    assert_eq!(r.value, 7);
}

#[test]
fn control_request_errors() {
    let e = |s: &[u8]| parse_control_request(s).err().unwrap();
    assert_eq!(e(&[0xFF]), ControlRequestError::NotUtf8);
    assert_eq!(e(b"request_type"), ControlRequestError::MalformedToken);
    assert_eq!(e(b"foo=1"), ControlRequestError::UnsupportedField);
    assert_eq!(e(b"request_type=256"), ControlRequestError::BadNumber);
    assert_eq!(e(b"value=0x"), ControlRequestError::BadNumber);
    assert_eq!(e(b"data=abc"), ControlRequestError::OddHexDigits);
    assert_eq!(e(b"data=zz"), ControlRequestError::BadHexByte);
    assert_eq!(e(b"request=1 value=1 index=1 length=1"), ControlRequestError::MissingRequestType);
    assert_eq!(e(b"request_type=0"), ControlRequestError::MissingRequest);
    assert_eq!(e(b"request_type=0 request=1"), ControlRequestError::MissingValue);
    assert_eq!(e(b"request_type=0 request=1 value=1"), ControlRequestError::MissingIndex);
    assert_eq!(e(b"request_type=0 request=1 value=1 index=1"), ControlRequestError::MissingLength);
    assert_eq!(e(b"request_type=0x80 request=1 value=1 index=1 length=5000"), ControlRequestError::LengthTooLarge);
    assert_eq!(e(b"request_type=0x80 request=1 value=1 index=1 length=1 data=aa"), ControlRequestError::PayloadOnInRequest);
    assert_eq!(e(b"request_type=0 request=1 value=1 index=1 length=2 data=aa"), ControlRequestError::PayloadLengthMismatch);
}

#[test]
fn numbers_and_payloads() {
    assert_eq!(parse_numeric(b"0x1F", 255), Some(31));
    assert_eq!(parse_numeric(b"0X10", 255), Some(16));
    assert_eq!(parse_numeric(b"300", 255), None);
    assert_eq!(parse_numeric(b"+7", 255), Some(7));
    assert_eq!(parse_numeric(b"", 255), None);
    assert_eq!(parse_hex_bytes(b"de-ad be:ef").unwrap(), vec![0xde, 0xad, 0xbe, 0xef]);
    assert_eq!(parse_hex_bytes(b"::").unwrap(), Vec::<u8>::new());
    assert_eq!(parse_hex_bytes(b"+5").unwrap(), vec![5]);
}

// ---- controller decisions ----

#[test]
fn words_and_config_space() {
    assert_eq!(bool_word(true), "yes");
    assert_eq!(bool_word(false), "no");
    assert_eq!(read_config_dword(&[1, 2, 3, 4], 0), Some(0x0403_0201));
    assert_eq!(read_config_dword(&[1, 2, 3, 4], 1), None);
    assert_eq!(read_config_dword(&[1, 2, 3, 4], usize::MAX), None);
}

fn config_with(bar0: u32, bar1: Option<u32>) -> Vec<u8> {
    let mut c = vec![0u8; 0x10];
    c.extend_from_slice(&bar0.to_le_bytes());
    if let Some(b) = bar1 {
        c.extend_from_slice(&b.to_le_bytes());
    }
    c
}

#[test]
fn mmio_bar_forms() {
    assert_eq!(parse_mmio_bar(&config_with(0xFEB0_0000, Some(0))), Ok(0xFEB0_0000));
    assert_eq!(parse_mmio_bar(&config_with(0xFEB0_000C, Some(1))), Ok(0x1_FEB0_0000));
    assert_eq!(parse_mmio_bar(&config_with(0xE001, None)), Err(BarError::IoSpace));
    assert_eq!(parse_mmio_bar(&config_with(0, None)), Err(BarError::Zero));
    assert_eq!(parse_mmio_bar(&[0u8; 8]), Err(BarError::NoBar0));
    assert_eq!(parse_mmio_bar(&config_with(0xFEB0_0004, None)), Err(BarError::NoBar1));
    assert_eq!(BarError::Zero.message(), "BAR0 is zero");
    assert_eq!(BarError::IoSpace.message(), "BAR0 is I/O space; EHCI requires MMIO");
}

#[test]
fn dma_segments() {
    assert_eq!(low32(0x1_2345_6789), 0x2345_6789);
    assert_eq!(dma_segment(0x1_2345_6789), 1);
    assert_eq!(ensure_dma_segment(false, &[0x1000, 0x2000]), Ok(0));
    assert_eq!(
        ensure_dma_segment(false, &[0x1000, 0x1_0000_0000]),
        Err(DmaSegmentError::Above4G(0x1_0000_0000))
    );
    assert_eq!(
        ensure_dma_segment(true, &[0x1_0000_0000, 0x2_0000_0000]),
        Err(DmaSegmentError::Mixed(1, 2))
    );
    assert_eq!(ensure_dma_segment(true, &[]), Ok(0));
    assert_eq!(ensure_dma_segment(true, &[0x1_0000_1000]), Ok(1));
    assert_eq!(ensure_dma_segment_matches(true, 1, 0x1_0000_1000), Ok(0x1000));
    assert_eq!(ensure_dma_segment_matches(false, 0, 0x1_0000_0000), Err(UsbError::IoError));
    assert_eq!(ensure_dma_segment_matches(true, 0, 0x1_0000_0000), Err(UsbError::IoError));
}

#[test]
fn command_and_status_words() {
    assert_eq!(interrupt_threshold(8), 0x8_0000);
    assert_eq!(start_command(), 0x0008_0031);
    assert_eq!(interrupt_enable_mask(), 0x37);
    assert_eq!(status_to_clear(0x1003), Some(0x3));
    assert_eq!(status_to_clear(0x1000), None);
    assert!(!needs_restart(0xC000, 0x31));
    assert!(needs_restart(0xD000, 0x31));
    assert!(needs_restart(0x4000, 0x31));
    assert!(needs_restart(0xC000, 0x21));
}

#[test]
fn start_sequence_steps() {
    assert!(wait_done(StartWait::ResetDone, 0));
    assert!(!wait_done(StartWait::ResetDone, 2));
    assert!(!wait_done(StartWait::Running, 0x1000));
    assert!(wait_done(StartWait::PeriodicOn, 0x4000));
    assert!(wait_done(StartWait::AsyncOn, 0x8000));
    assert!(wait_done(StartWait::Halted, 0x1000));
    assert_eq!(next_wait(StartWait::ResetDone), Some(StartWait::Running));
    assert_eq!(next_wait(StartWait::Running), Some(StartWait::PeriodicOn));
    assert_eq!(next_wait(StartWait::PeriodicOn), Some(StartWait::AsyncOn));
    assert_eq!(next_wait(StartWait::AsyncOn), None);
    assert_eq!(wait_label(StartWait::Halted), "controller halt");
    assert_eq!(
        controller_layout(0x20, 0x4, 0x1),
        Some(ControllerLayout { op_base: 0x20, n_ports: 4, has_64bit: true })
    );
    assert_eq!(controller_layout(0x20, 0x10, 0), None);
}

#[test]
fn port_status_words() {
    let s = decode_port_status(0x1005);
    assert!(s.connected && s.enabled && s.power && s.high_speed);
    assert!(!s.suspended && !s.reset && !s.low_speed && !s.test_mode && !s.indicator);
    assert!(decode_port_status(0x401).low_speed);
    assert_eq!(port_write_value(0x1007, PORT_RESET, 0, 0x2), 0x1106);
    assert_eq!(clear_changes_write(0x1007), Some(0x1006));
    assert_eq!(clear_changes_write(0x1005), None);
    assert_eq!(reset_poll(0x2001), Some(false));
    assert_eq!(reset_poll(0x0), Some(false));
    assert_eq!(reset_poll(0x5), Some(true));
    assert_eq!(reset_poll(0x1), None);
}

#[test]
fn port_observations() {
    let mut r = PortRecord::default();
    let o = observe_port(&mut r, 0x1003);
    assert!(o.clear_changes && o.probe && !o.disconnected);
    assert_eq!(r.last_portsc, 0x1003);
    assert_eq!(r.last_status, Some(decode_port_status(0x1003)));

    let mut r = record_with(Some(3));
    let o = observe_port(&mut r, 0x1005);
    assert!(!o.probe && !o.clear_changes);
    let o = observe_port(&mut r, 0x2);
    assert!(o.disconnected && o.clear_changes && !o.probe);
    assert!(r.device.is_none());

    let mut r = PortRecord::default();
    let o = observe_port(&mut r, 0x2001);
    assert!(!o.probe && r.companion_owned);

    let mut r = PortRecord::default();
    assert!(settle_failed_reset(&mut r, 0x2000).is_ok());
    assert!(r.companion_owned);
    let mut r = PortRecord::default();
    assert_eq!(
        settle_failed_reset(&mut r, 0).unwrap_err(),
        "port reset did not produce an enabled high-speed port"
    );
}

#[test]
fn device_addresses_in_turn() {
    let ports = vec![record_with(Some(1)), record_with(None), record_with(Some(3))];
    assert!(address_in_use(&ports, 1));
    assert!(!address_in_use(&ports, 2));
    assert_eq!(address_port(&ports, 3), Some(2));
    assert_eq!(address_port(&ports, 4), None);
    let mut next = 1u8;
    assert_eq!(allocate_device_address(&mut next, &ports), Ok(2));
    assert_eq!(next, 3);
    assert_eq!(allocate_device_address(&mut next, &ports), Ok(4));
    let mut next = 127u8;
    assert_eq!(allocate_device_address(&mut next, &ports), Ok(127));
    assert_eq!(next, 1);
    let full: Vec<PortRecord> = (1..=127u8).map(|a| record_with(Some(a))).collect();
    let mut next = 5u8;
    assert_eq!(
        allocate_device_address(&mut next, &full).unwrap_err(),
        "no free USB device addresses remain"
    );
}

#[test]
fn control_transfer_decisions() {
    let setup = SetupPacket { request_type: 0x80, request: 6, value: 0x0100, index: 0, length: 18 };
    assert_eq!(setup_packet_bytes(&setup), [0x80, 6, 0x00, 0x01, 0, 0, 18, 0]);
    assert_eq!(check_control_transfer(0, 2, &setup, 18, 64), Ok(()));
    assert_eq!(check_control_transfer(2, 2, &setup, 18, 64), Err(UsbError::NoDevice));
    assert_eq!(check_control_transfer(0, 2, &setup, 17, 64), Err(UsbError::IoError));
    assert_eq!(check_control_transfer(0, 2, &setup, 18, 0), Err(UsbError::IoError));
    let long = SetupPacket { length: 0x8000, ..setup };
    assert_eq!(check_control_transfer(0, 2, &long, 0x8000, 64), Err(UsbError::Unsupported));
    assert_eq!(poll_transfer(&[0x80, 0x80]), TransferPoll::Pending);
    assert_eq!(poll_transfer(&[0, 0]), TransferPoll::Done);
    assert_eq!(poll_transfer(&[0, 0x40, 0x80]), TransferPoll::Failed(0x40));
    assert_eq!(poll_transfer(&[0x80, 0x10]), TransferPoll::Failed(0x10));
    assert_eq!(transferred(18, 0x0002_0000), 16);
    assert_eq!(transferred(2, 0x0005_0000), 0);
    assert_eq!(map_td_error(0x10), UsbError::Babble);
    assert_eq!(map_td_error(0x40), UsbError::Stall);
    assert_eq!(map_td_error(0x20), UsbError::DataError);
    assert_eq!(map_td_error(0x50), UsbError::Babble);
    assert_eq!(map_td_error(0), UsbError::IoError);
    assert_eq!(transfer_failure_text(0x40), "transfer failure token=0x00000040");
}

#[test]
fn enumeration_requests() {
    assert_eq!(
        get_descriptor(0x0100, 18),
        SetupPacket { request_type: 0x80, request: 6, value: 0x0100, index: 0, length: 18 }
    );
    assert_eq!(
        set_address_request(5),
        SetupPacket { request_type: 0, request: 5, value: 5, index: 0, length: 0 }
    );
    assert_eq!(max_packet_size0(&[0, 0, 0, 0, 0, 0, 0, 64]), 64);
    assert_eq!(max_packet_size0(&[0, 0, 0, 0, 0, 0, 0, 4]), 8);
    assert_eq!(config_read_length(4), 9);
    assert_eq!(config_read_length(600), 512);
    assert_eq!(config_read_length(32), 32);
}

#[test]
fn control_request_buffers_and_replies() {
    let inq = ControlRequest { request_type: 0x80, request: 6, value: 1, index: 0, length: 4, data: Vec::new() };
    assert_eq!(control_buffer(&inq), vec![0; 4]);
    assert_eq!(request_setup(&inq).length, 4);
    let out = ControlRequest { request_type: 0, request: 9, value: 1, index: 0, length: 2, data: vec![1, 2] };
    assert_eq!(control_buffer(&out), vec![1, 2]);
    assert_eq!(control_reply(0x80, vec![1, 2, 3], 2), vec![1, 2]);
    assert_eq!(control_reply(0, Vec::new(), 5), b"ok transferred=5\n".to_vec());
}

// ---- scheme ----

#[test]
fn scheme_paths_resolve() {
    assert_eq!(resolve_root_path("port1", 2), Ok(HandleKind::PortDir { port: 0 }));
    assert_eq!(resolve_root_path("port2/status", 2), Ok(HandleKind::Status { port: 1 }));
    assert_eq!(resolve_root_path("port2/control", 2), Ok(HandleKind::Control { port: 1 }));
    assert_eq!(resolve_root_path("port3", 2), Err(SchemeError::NotFound));
    assert_eq!(resolve_root_path("port0", 2), Err(SchemeError::NotFound));
    assert_eq!(resolve_root_path("port1/x", 2), Err(SchemeError::NotFound));
    assert_eq!(resolve_root_path("port1/status/x", 2), Err(SchemeError::NotFound));
    assert_eq!(resolve_root_path("usb", 2), Err(SchemeError::NotFound));
    assert_eq!(resolve_port_child(0, "descriptor"), Ok(HandleKind::Descriptor { port: 0 }));
    assert_eq!(resolve_port_child(0, "nope"), Err(SchemeError::NotFound));
}

#[test]
fn scheme_node_text() {
    assert_eq!(root_listing(2), b"port1\nport2\n".to_vec());
    assert_eq!(root_listing(0), Vec::<u8>::new());
    assert_eq!(hex_encode(&[0x12, 0xab, 0]), "12 ab 00");
    assert_eq!(hex_encode(&[]), "");
    let mut r = record_with(Some(2));
    r.last_portsc = 0x1005;
    r.last_error = Some("boom".to_string());
    let ports = vec![r, PortRecord::default()];
    let status = String::from_utf8(status_bytes(&ports, 0).unwrap()).unwrap();
    assert_eq!(
        status,
        "port=1\nportsc=0x00001005\nconnected=yes\nenabled=yes\nsuspended=no\nover_current=no\nreset=no\npower=yes\nlow_speed=no\nhigh_speed=yes\ntest_mode=no\nindicator=no\ncompanion_owned=no\naddress=2\nvendor_id=0x1234\nproduct_id=0xabcd\nlast_error=boom\n"
    );
    assert_eq!(status_bytes(&ports, 2), Err(SchemeError::NotFound));
    let desc = String::from_utf8(descriptor_bytes(&ports, 0).unwrap()).unwrap();
    assert_eq!(
        desc,
        "address=2\nvendor_id=0x1234\nproduct_id=0xabcd\ndevice_class=0x09\ndevice_subclass=0x00\ndevice_protocol=0x01\nmax_packet_size0=64\ndevice_descriptor=12 01\n"
    );
    assert_eq!(descriptor_bytes(&ports, 1).unwrap(), b"state=unenumerated\n".to_vec());
}

#[test]
fn scheme_handles_open_read_write_close() {
    let ports = vec![record_with(Some(2)), PortRecord::default()];
    let mut s = EhciScheme::new();
    assert_eq!(s.openat(SCHEME_ROOT_ID, "", 2), Ok(SCHEME_ROOT_ID));
    let dir = s.openat(SCHEME_ROOT_ID, "/port1/", 2).unwrap();
    assert_eq!(dir, 2);
    assert_eq!(s.handle(dir), Ok(HandleKind::PortDir { port: 0 }));
    let st = s.openat(dir, "status", 2).unwrap();
    assert_eq!(s.handle(st), Ok(HandleKind::Status { port: 0 }));
    assert_eq!(s.openat(st, "x", 2), Err(SchemeError::AccessDenied));
    assert_eq!(s.openat(99, "x", 2), Err(SchemeError::BadDescriptor));
    assert_eq!(s.openat(dir, "x", 2), Err(SchemeError::NotFound));
    let again = s.openat(dir, "", 2).unwrap();
    assert_eq!(s.handle(again), Ok(HandleKind::PortDir { port: 0 }));
    assert_eq!(s.handle_path(st).unwrap(), "usb:/port1/status");
    assert_eq!(s.handle_path(dir).unwrap(), "usb:/port1");
    assert_eq!(s.handle_path(SCHEME_ROOT_ID).unwrap(), "usb:/");
    assert_eq!(s.handle_bytes(dir, &ports).unwrap(), b"status\ndescriptor\ncontrol\n".to_vec());
    assert_eq!(s.handle_bytes(SCHEME_ROOT_ID, &ports).unwrap(), b"port1\nport2\n".to_vec());
    assert_eq!(s.write_target(SCHEME_ROOT_ID), Err(SchemeError::ReadOnly));
    assert_eq!(s.write_target(st), Err(SchemeError::ReadOnly));
    let ctl = s.openat(SCHEME_ROOT_ID, "port2/control", 2).unwrap();
    assert_eq!(s.write_target(ctl), Ok(1));
    assert_eq!(s.handle_bytes(ctl, &ports).unwrap(), Vec::<u8>::new());
    s.store_response(ctl, b"ok transferred=0\n".to_vec());
    assert_eq!(s.handle_bytes(ctl, &ports).unwrap(), b"ok transferred=0\n".to_vec());
    assert_eq!(s.node_mode(SCHEME_ROOT_ID), Ok(NodeMode::Directory));
    assert_eq!(s.node_mode(dir), Ok(NodeMode::Directory));
    assert_eq!(s.node_mode(st), Ok(NodeMode::ReadOnlyFile));
    assert_eq!(s.node_mode(ctl), Ok(NodeMode::WritableFile));
    assert_eq!(s.check_handle(99), Err(SchemeError::BadDescriptor));
    assert_eq!(s.check_handle(SCHEME_ROOT_ID), Ok(()));
    s.on_close(st);
    assert_eq!(s.handle(st), Err(SchemeError::BadDescriptor));
    s.on_close(SCHEME_ROOT_ID);
    assert_eq!(s.check_handle(SCHEME_ROOT_ID), Ok(()));
}
