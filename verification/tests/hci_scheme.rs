use std::cell::RefCell;
use std::io;
use std::rc::Rc;

use redbear_drivers::btusb::{ControllerInfo, ControllerState};
use redbear_drivers::hci::{
    GattCharacteristic, GattService, HciAcl, HciCommand, HciEvent, ATT_ERROR_RSP,
    ATT_READ_BY_GROUP_TYPE_REQ, ATT_READ_BY_GROUP_TYPE_RSP, ATT_READ_BY_TYPE_RSP, ATT_READ_RSP,
    EVT_COMMAND_COMPLETE, OP_DISCONNECT, OP_LE_CREATE_CONNECTION, OP_LE_SET_SCAN_ENABLE,
};
use redbear_drivers::hci_scheme::{copy_at_offset, event_to_bytes, HciScheme, SchemeError};
use redbear_drivers::scheme_handles::{HandleKind, SCHEME_ROOT_ID};
use redbear_drivers::usb_transport::{TransportState, UsbHciTransport};


struct TestTransportInner {
    sent_commands: Vec<HciCommand>,
    sent_acl: Vec<HciAcl>,
    pending_events: Vec<HciEvent>,
    pending_acl: Vec<HciAcl>,
}

impl TestTransportInner {
    fn new() -> Self {
        Self {
            sent_commands: Vec::new(),
            sent_acl: Vec::new(),
            pending_events: Vec::new(),
            pending_acl: Vec::new(),
        }
    }
}

struct TestTransport {
    inner: Rc<RefCell<TestTransportInner>>,
}

impl TestTransport {
    fn new(inner: &Rc<RefCell<TestTransportInner>>) -> Self {
        Self { inner: Rc::clone(inner) }
    }
}

impl UsbHciTransport for TestTransport {
    fn send_command(&mut self, command: &HciCommand) -> io::Result<()> {
        self.inner.borrow_mut().sent_commands.push(command.clone());
        Ok(())
    }
    fn recv_event(&mut self) -> io::Result<Option<HciEvent>> {
        let mut inner = self.inner.borrow_mut();
        Ok(if inner.pending_events.is_empty() {
            None
        } else {
            Some(inner.pending_events.remove(0))
        })
    }
    fn send_acl(&mut self, acl: &HciAcl) -> io::Result<()> {
        self.inner.borrow_mut().sent_acl.push(acl.clone());
        Ok(())
    }
    fn recv_acl(&mut self) -> io::Result<Option<HciAcl>> {
        let mut inner = self.inner.borrow_mut();
        Ok(if inner.pending_acl.is_empty() {
            None
        } else {
            Some(inner.pending_acl.remove(0))
        })
    }
    fn state(&self) -> TransportState {
        TransportState::Active
    }
    fn close(&mut self) -> io::Result<()> {
        Ok(())
    }
}

fn active_info() -> ControllerInfo {
    ControllerInfo {
        state: ControllerState::Active,
        bd_address: Some([0xAA, 0xBB, 0xCC, 0xDD, 0xEE, 0xFF]),
        hci_version: Some(9),
        hci_revision: Some(1),
        manufacturer_name: Some(2),
        init_error: None,
    }
}

fn make_scheme() -> HciScheme {
    let inner = Rc::new(RefCell::new(TestTransportInner::new()));
    HciScheme::new_for_test(Box::new(TestTransport::new(&inner)), active_info())
}

fn make_scheme_with_inner() -> (HciScheme, Rc<RefCell<TestTransportInner>>) {
    let inner = Rc::new(RefCell::new(TestTransportInner::new()));
    let scheme = HciScheme::new_for_test(Box::new(TestTransport::new(&inner)), active_info());
    (scheme, inner)
}

fn alloc_kind(scheme: &mut HciScheme, kind: HandleKind) -> usize {
    scheme.alloc_handle(kind)
}

#[test]
fn root_lists_all_nodes() {
    let mut scheme = make_scheme();
    let data = scheme.read_handle(&HandleKind::Root).unwrap();
    let text = String::from_utf8_lossy(&data);
    assert!(text.contains("status"));
    assert!(text.contains("info"));
    assert!(text.contains("command"));
    assert!(text.contains("events"));
    assert!(text.contains("acl-out"));
    assert!(text.contains("acl-in"));
    assert!(text.contains("le-scan"));
    assert!(text.contains("le-scan-results"));
    assert!(text.contains("connect"));
    assert!(text.contains("disconnect"));
    assert!(text.contains("connections"));
}

#[test]
fn read_status_shows_active_state() {
    let mut scheme = make_scheme();
    let data = scheme.read_handle(&HandleKind::Status).unwrap();
    let text = String::from_utf8_lossy(&data);
    assert!(text.contains("controller_state=active"));
    assert!(text.contains("bd_address=FF:EE:DD:CC:BB:AA"));
    assert!(text.contains("hci_version=9"));
    assert!(text.contains("hci_revision=1"));
    assert!(text.contains("manufacturer=2"));
    assert!(text.contains("le_scan_active=false"));
    assert!(text.contains("le_connections=0"));
}

#[test]
fn read_info_shows_bd_address_and_version() {
    let mut scheme = make_scheme();
    let data = scheme.read_handle(&HandleKind::Info).unwrap();
    let text = String::from_utf8_lossy(&data);
    assert!(text.contains("bd_address=FF:EE:DD:CC:BB:AA"));
    assert!(text.contains("hci_version=9"));
    assert!(text.contains("hci_revision=1"));
    assert!(text.contains("manufacturer=2"));
}

#[test]
fn write_command_sends_correct_opcode_to_transport() {
    let (mut scheme, inner) = make_scheme_with_inner();
    let wire = vec![0x03, 0x0C, 0x00];
    scheme.write_handle(&HandleKind::Command, &wire).unwrap();
    let sent = inner.borrow_mut().sent_commands.clone();
    assert_eq!(sent.len(), 1);
    assert_eq!(sent[0].opcode, 0x0C03);
}

#[test]
fn write_command_with_params_round_trips() {
    let (mut scheme, inner) = make_scheme_with_inner();
    let wire = vec![0x09, 0x10, 0x02, 0xAA, 0xBB];
    scheme.write_handle(&HandleKind::Command, &wire).unwrap();
    let sent = inner.borrow_mut().sent_commands.clone();
    assert_eq!(sent.len(), 1);
    assert_eq!(sent[0].opcode, 0x1009);
    assert_eq!(sent[0].parameters, vec![0xAA, 0xBB]);
}

#[test]
fn write_command_invalid_bytes_returns_einval() {
    let mut scheme = make_scheme();
    let result = scheme.write_handle(&HandleKind::Command, &[0x03]);
    assert!(result.is_err());
}

#[test]
fn read_events_returns_serialized_event() {
    let inner = Rc::new(RefCell::new(TestTransportInner::new()));
    let event = HciEvent {
        event_code: EVT_COMMAND_COMPLETE,
        parameters: vec![0x01, 0x03, 0x0C, 0x00],
    };
    inner.borrow_mut().pending_events.push(event);
    let mut scheme = HciScheme::new_for_test(
        Box::new(TestTransport::new(&inner)),
        active_info(),
    );
    let data = scheme.read_handle(&HandleKind::Events).unwrap();
    assert_eq!(data.len(), 6);
    assert_eq!(data[0], EVT_COMMAND_COMPLETE);
    assert_eq!(data[1], 4);
    assert_eq!(&data[2..6], &[0x01, 0x03, 0x0C, 0x00]);
}

#[test]
fn read_events_returns_empty_when_no_events() {
    let mut scheme = make_scheme();
    let data = scheme.read_handle(&HandleKind::Events).unwrap();
    assert!(data.is_empty());
}

#[test]
fn write_le_scan_start_sets_flag_and_sends_command() {
    let (mut scheme, inner) = make_scheme_with_inner();
    scheme.write_handle(&HandleKind::LeScan, b"start").unwrap();
    assert!(scheme.le_scan_active);
    let sent = inner.borrow_mut().sent_commands.clone();
    assert_eq!(sent.len(), 1);
    assert_eq!(sent[0].opcode, OP_LE_SET_SCAN_ENABLE);
    assert_eq!(sent[0].parameters, vec![0x01, 0x00]);
}

#[test]
fn write_le_scan_start_and_stop_cycle() {
    let mut scheme = make_scheme();
    scheme.write_handle(&HandleKind::LeScan, b"start").unwrap();
    assert!(scheme.le_scan_active);
    scheme.write_handle(&HandleKind::LeScan, b"stop").unwrap();
    assert!(!scheme.le_scan_active);
}

#[test]
fn write_le_scan_invalid_text_returns_einval() {
    let mut scheme = make_scheme();
    let result = scheme.write_handle(&HandleKind::LeScan, b"invalid");
    assert!(result.is_err());
}

#[test]
fn write_connect_parses_address_and_sends_command() {
    let (mut scheme, inner) = make_scheme_with_inner();
    scheme
        .write_handle(&HandleKind::Connect, b"addr=AA:BB:CC:DD:EE:FF")
        .unwrap();
    let sent = inner.borrow_mut().sent_commands.clone();
    assert_eq!(sent.len(), 1);
    assert_eq!(sent[0].opcode, OP_LE_CREATE_CONNECTION);
    assert_eq!(&sent[0].parameters[6..12], &[0xAA, 0xBB, 0xCC, 0xDD, 0xEE, 0xFF]);
}

#[test]
fn write_connect_invalid_format_returns_einval() {
    let mut scheme = make_scheme();
    let result = scheme.write_handle(&HandleKind::Connect, b"invalid");
    assert!(result.is_err());
}

#[test]
fn write_disconnect_parses_handle_and_sends_command() {
    let (mut scheme, inner) = make_scheme_with_inner();
    scheme
        .write_handle(&HandleKind::Disconnect, b"handle=0023")
        .unwrap();
    let sent = inner.borrow_mut().sent_commands.clone();
    assert_eq!(sent.len(), 1);
    assert_eq!(sent[0].opcode, OP_DISCONNECT);
    assert_eq!(
        u16::from_le_bytes([sent[0].parameters[0], sent[0].parameters[1]]),
        0x0023
    );
}

#[test]
fn write_disconnect_hex_format() {
    let (mut scheme, inner) = make_scheme_with_inner();
    scheme
        .write_handle(&HandleKind::Disconnect, b"handle=0x0023")
        .unwrap();
    let sent = inner.borrow_mut().sent_commands.clone();
    assert_eq!(sent.len(), 1);
    assert_eq!(
        u16::from_le_bytes([sent[0].parameters[0], sent[0].parameters[1]]),
        0x0023
    );
}

#[test]
fn write_disconnect_invalid_format_returns_einval() {
    let mut scheme = make_scheme();
    let result = scheme.write_handle(&HandleKind::Disconnect, b"invalid");
    assert!(result.is_err());
}

#[test]
fn read_connections_shows_active_le_connections() {
    let mut scheme = make_scheme();
    scheme.le_connections.push((0x0023, [0xAA, 0xBB, 0xCC, 0xDD, 0xEE, 0xFF]));
    let data = scheme.read_handle(&HandleKind::Connections).unwrap();
    let text = String::from_utf8_lossy(&data);
    assert!(text.contains("handle=0023"));
    assert!(text.contains("addr=FF:EE:DD:CC:BB:AA"));
}

#[test]
fn read_connections_empty_returns_newline() {
    let mut scheme = make_scheme();
    let data = scheme.read_handle(&HandleKind::Connections).unwrap();
    assert_eq!(data, b"\n");
}

#[test]
fn read_scan_results_shows_accumulated_results() {
    let mut scheme = make_scheme();
    scheme.le_scan_results.push(
        "addr=AA:BB:CC:DD:EE:FF;rssi=-59;type=ADV_IND".to_string(),
    );
    let data = scheme.read_handle(&HandleKind::LeScanResults).unwrap();
    let text = String::from_utf8_lossy(&data);
    assert!(text.contains("addr=AA:BB:CC:DD:EE:FF"));
    assert!(text.contains("rssi=-59"));
}

#[test]
fn read_scan_results_empty_returns_newline() {
    let mut scheme = make_scheme();
    let data = scheme.read_handle(&HandleKind::LeScanResults).unwrap();
    assert_eq!(data, b"\n");
}

#[test]
fn write_to_readonly_handle_returns_erofs() {
    let mut scheme = make_scheme();
    let result = scheme.write_handle(&HandleKind::Status, b"test");
    assert!(result.is_err());
}

#[test]
fn write_to_events_handle_returns_erofs() {
    let mut scheme = make_scheme();
    let result = scheme.write_handle(&HandleKind::Events, b"test");
    assert!(result.is_err());
}

#[test]
fn read_acl_in_returns_bytes_from_transport() {
    let inner = Rc::new(RefCell::new(TestTransportInner::new()));
    let acl = HciAcl::new(0x0001, 0x00, 0x00, vec![0xDE, 0xAD]);
    inner.borrow_mut().pending_acl.push(acl);
    let mut scheme = HciScheme::new_for_test(
        Box::new(TestTransport::new(&inner)),
        active_info(),
    );
    let data = scheme.read_handle(&HandleKind::AclIn).unwrap();
    assert_eq!(data.len(), 6);
    let parsed = HciAcl::from_bytes(&data).unwrap();
    assert_eq!(parsed.handle, 0x0001);
    assert_eq!(parsed.data, vec![0xDE, 0xAD]);
}

#[test]
fn read_acl_in_empty_returns_empty() {
    let mut scheme = make_scheme();
    let data = scheme.read_handle(&HandleKind::AclIn).unwrap();
    assert!(data.is_empty());
}

#[test]
fn write_acl_out_sends_to_transport() {
    let (mut scheme, inner) = make_scheme_with_inner();
    let acl = HciAcl::new(0x0001, 0x00, 0x00, vec![0xCA, 0xFE]);
    let wire = acl.to_bytes();
    scheme.write_handle(&HandleKind::AclOut, &wire).unwrap();
    let sent = inner.borrow_mut().sent_acl.clone();
    assert_eq!(sent.len(), 1);
    assert_eq!(sent[0], acl);
}

#[test]
fn write_acl_out_invalid_bytes_returns_einval() {
    let mut scheme = make_scheme();
    let result = scheme.write_handle(&HandleKind::AclOut, &[0x42]);
    assert!(result.is_err());
}

#[test]
fn on_close_removes_handle() {
    let mut scheme = make_scheme();
    let id = alloc_kind(&mut scheme, HandleKind::Status);
    assert!(scheme.handle(id).is_ok());
    scheme.on_close(id);
    assert!(scheme.handle(id).is_err());
}

#[test]
fn on_close_does_not_remove_root() {
    let mut scheme = make_scheme();
    scheme.on_close(SCHEME_ROOT_ID);
    assert!(scheme.handle(SCHEME_ROOT_ID).is_ok());
}

#[test]
fn parse_addr_valid() {
    let addr = HciScheme::parse_addr("addr=AA:BB:CC:DD:EE:FF").unwrap();
    assert_eq!(addr, [0xAA, 0xBB, 0xCC, 0xDD, 0xEE, 0xFF]);
}

#[test]
fn parse_addr_invalid_returns_none() {
    assert!(HciScheme::parse_addr("invalid").is_none());
    assert!(HciScheme::parse_addr("addr=AA:BB:CC").is_none());
    assert!(HciScheme::parse_addr("addr=GG:HH:II:JJ:KK:LL").is_none());
}

#[test]
fn parse_handle_without_0x_prefix() {
    assert_eq!(HciScheme::parse_handle("handle=002A"), Some(0x002A));
}

#[test]
fn parse_handle_hex() {
    assert_eq!(HciScheme::parse_handle("handle=0x0023"), Some(0x0023));
}

#[test]
fn parse_handle_invalid_returns_none() {
    assert!(HciScheme::parse_handle("invalid").is_none());
    assert!(HciScheme::parse_handle("handle=").is_none());
}

#[test]
fn event_to_bytes_serializes_correctly() {
    let event = HciEvent {
        event_code: EVT_COMMAND_COMPLETE,
        parameters: vec![0x01, 0x02, 0x03],
    };
    let bytes = event_to_bytes(&event);
    assert_eq!(bytes, vec![EVT_COMMAND_COMPLETE, 0x03, 0x01, 0x02, 0x03]);
}

// -- GATT scheme tests -----------------------------------------------------

/// Helper: build an ACL packet wrapping an ATT PDU over L2CAP ATT CID.
fn make_acl_att_response(conn_handle: u16, att_opcode: u8, att_data: &[u8]) -> HciAcl {
    let att_len = (1 + att_data.len()) as u16; // opcode + params
    let l2cap_payload_len = 2 + 2 + 1 + att_data.len(); // l2cap_len + cid + opcode + data
    let mut payload = Vec::with_capacity(l2cap_payload_len);
    payload.extend_from_slice(&att_len.to_le_bytes()); // L2CAP length
    payload.extend_from_slice(&0x0004u16.to_le_bytes()); // ATT CID
    payload.push(att_opcode);
    payload.extend_from_slice(att_data);
    HciAcl::new(conn_handle, 0x00, 0x00, payload)
}

#[test]
fn gatt_discover_services_sends_acl_and_caches_results() {
    let inner = Rc::new(RefCell::new(TestTransportInner::new()));
    // Build ATT Read By Group Type Response with one service:
    //   length=6 (2 start + 2 end + 2 uuid16), entry: start=0x0001, end=0x0005, uuid=0x180F
    let mut rsp_data = Vec::new();
    rsp_data.push(0x06); // length
    rsp_data.extend_from_slice(&0x0001u16.to_le_bytes()); // start handle
    rsp_data.extend_from_slice(&0x0005u16.to_le_bytes()); // end handle
    rsp_data.extend_from_slice(&0x180Fu16.to_le_bytes()); // UUID (Battery Service)
    inner.borrow_mut().pending_acl.push(
        make_acl_att_response(0x0042, ATT_READ_BY_GROUP_TYPE_RSP, &rsp_data)
    );
    let mut scheme = HciScheme::new_for_test(
        Box::new(TestTransport::new(&inner)),
        active_info(),
    );
    scheme.write_handle(&HandleKind::GattDiscoverServices, b"handle=0042").unwrap();
    assert_eq!(scheme.gatt_services.len(), 1);
    assert_eq!(scheme.gatt_services[0].start_handle, 0x0001);
    assert_eq!(scheme.gatt_services[0].end_handle, 0x0005);
    assert_eq!(scheme.gatt_services[0].uuid, vec![0x0F, 0x18]);
}

#[test]
fn gatt_discover_services_read_formats_text() {
    let mut scheme = make_scheme();
    scheme.gatt_services.push(GattService {
        start_handle: 0x0001,
        end_handle: 0xFFFF,
        uuid: vec![0x0F, 0x18],
    });
    scheme.gatt_services.push(GattService {
        start_handle: 0x0010,
        end_handle: 0x0020,
        uuid: vec![0x0A, 0x18],
    });
    let data = scheme.read_handle(&HandleKind::GattDiscoverServices).unwrap();
    let text = String::from_utf8_lossy(&data);
    assert!(text.contains("service=start_handle=0001;end_handle=FFFF;uuid=180F"));
    assert!(text.contains("service=start_handle=0010;end_handle=0020;uuid=180A"));
}

#[test]
fn gatt_discover_chars_sends_acl_and_caches_results() {
    let inner = Rc::new(RefCell::new(TestTransportInner::new()));
    // Build ATT Read By Type Response with one characteristic:
    //   length=7 (1 props + 2 value_handle + 2 uuid + 2 extra... standard 16-bit: 7 bytes)
    //   Actually per spec: length = 1(props) + 2(value_handle) + 2(uuid16) = 5 for 16-bit UUID
    //   BUT parse_read_by_type_rsp expects: entry[0]=props, entry[1..3]=value_handle, entry[3..]=uuid
    //   So length=5 gives entry[0]=props, entry[1,2]=value_handle, entry[3,4]=uuid
    let mut rsp_data = Vec::new();
    rsp_data.push(0x05); // length
    rsp_data.push(0x12); // properties
    rsp_data.extend_from_slice(&0x0016u16.to_le_bytes()); // value handle
    rsp_data.extend_from_slice(&0x2A19u16.to_le_bytes()); // UUID (Battery Level)
    inner.borrow_mut().pending_acl.push(
        make_acl_att_response(0x0042, ATT_READ_BY_TYPE_RSP, &rsp_data)
    );
    let mut scheme = HciScheme::new_for_test(
        Box::new(TestTransport::new(&inner)),
        active_info(),
    );
    scheme.write_handle(&HandleKind::GattDiscoverChars, b"handle=0042;start=0001;end=FFFF").unwrap();
    assert_eq!(scheme.gatt_characteristics.len(), 1);
    assert_eq!(scheme.gatt_characteristics[0].properties, 0x12);
    assert_eq!(scheme.gatt_characteristics[0].value_handle, 0x0016);
    assert_eq!(scheme.gatt_characteristics[0].uuid, vec![0x19, 0x2A]);
}

#[test]
fn gatt_discover_chars_read_formats_text() {
    let mut scheme = make_scheme();
    scheme.gatt_characteristics.push(GattCharacteristic {
        handle: 0x0015,
        properties: 0x12,
        value_handle: 0x0016,
        uuid: vec![0x19, 0x2A],
    });
    let data = scheme.read_handle(&HandleKind::GattDiscoverChars).unwrap();
    let text = String::from_utf8_lossy(&data);
    assert!(text.contains("char=handle=0015;value_handle=0016;properties=12;uuid=2A19"));
}

#[test]
fn gatt_read_char_sends_att_read_and_caches_value() {
    let inner = Rc::new(RefCell::new(TestTransportInner::new()));
    // Build ATT Read Response with value bytes
    inner.borrow_mut().pending_acl.push(
        make_acl_att_response(0x0042, ATT_READ_RSP, &[0x64, 0x00])
    );
    let mut scheme = HciScheme::new_for_test(
        Box::new(TestTransport::new(&inner)),
        active_info(),
    );
    scheme.write_handle(&HandleKind::GattReadChar, b"handle=0042;addr=0016").unwrap();
    assert_eq!(scheme.gatt_read_result, Some(vec![0x64, 0x00]));
}

#[test]
fn gatt_read_char_read_returns_raw_bytes() {
    let mut scheme = make_scheme();
    scheme.gatt_read_result = Some(vec![0x64, 0x00, 0xFF]);
    let data = scheme.read_handle(&HandleKind::GattReadChar).unwrap();
    assert_eq!(data, vec![0x64, 0x00, 0xFF]);
}

#[test]
fn gatt_services_read_empty_returns_newline() {
    let mut scheme = make_scheme();
    let data = scheme.read_handle(&HandleKind::GattServices).unwrap();
    assert_eq!(data, b"\n");
}

#[test]
fn gatt_characteristics_read_empty_returns_newline() {
    let mut scheme = make_scheme();
    let data = scheme.read_handle(&HandleKind::GattCharacteristics).unwrap();
    assert_eq!(data, b"\n");
}

#[test]
fn gatt_discover_services_invalid_format_returns_einval() {
    let mut scheme = make_scheme();
    let result = scheme.write_handle(&HandleKind::GattDiscoverServices, b"invalid");
    assert!(result.is_err());
}

#[test]
fn gatt_discover_chars_invalid_format_returns_einval() {
    let mut scheme = make_scheme();
    let result = scheme.write_handle(&HandleKind::GattDiscoverChars, b"invalid");
    assert!(result.is_err());
}

#[test]
fn gatt_read_char_invalid_format_returns_einval() {
    let mut scheme = make_scheme();
    let result = scheme.write_handle(&HandleKind::GattReadChar, b"invalid");
    assert!(result.is_err());
}

#[test]
fn gatt_discover_services_error_response_caches_error() {
    let inner = Rc::new(RefCell::new(TestTransportInner::new()));
    // ATT Error Response: req_opcode=0x10, handle=0x0001, error_code=0x0A (attribute not found)
    let err_data = vec![ATT_READ_BY_GROUP_TYPE_REQ, 0x01, 0x00, 0x0A, 0x00];
    inner.borrow_mut().pending_acl.push(
        make_acl_att_response(0x0042, ATT_ERROR_RSP, &err_data)
    );
    let mut scheme = HciScheme::new_for_test(
        Box::new(TestTransport::new(&inner)),
        active_info(),
    );
    scheme.write_handle(&HandleKind::GattDiscoverServices, b"handle=0042").unwrap();
    assert!(scheme.gatt_services.is_empty());
    assert!(scheme.gatt_last_error.is_some());
    let err = scheme.gatt_last_error.unwrap();
    assert!(err.contains("ATT error"));
}

#[test]
fn root_lists_gatt_nodes() {
    let mut scheme = make_scheme();
    let data = scheme.read_handle(&HandleKind::Root).unwrap();
    let text = String::from_utf8_lossy(&data);
    assert!(text.contains("gatt-discover-services"));
    assert!(text.contains("gatt-discover-chars"));
    assert!(text.contains("gatt-read-char"));
    assert!(text.contains("gatt-services"));
    assert!(text.contains("gatt-characteristics"));
}

#[test]
fn gatt_read_char_read_empty_returns_empty_vec() {
    let mut scheme = make_scheme();
    let data = scheme.read_handle(&HandleKind::GattReadChar).unwrap();
    assert!(data.is_empty());
}

#[test]
fn open_at_root_names_nodes_and_refuses_unknown_ones() {
    let mut scheme = make_scheme();
    let id = scheme.open_at(SCHEME_ROOT_ID, "/status/").unwrap();
    assert_eq!(scheme.handle(id), Ok(HandleKind::Status));
    assert_eq!(scheme.open_at(SCHEME_ROOT_ID, "nope"), Err(SchemeError::NotFound));
    let root = scheme.open_at(SCHEME_ROOT_ID, "").unwrap();
    assert_eq!(scheme.handle(root), Ok(HandleKind::Root));
    let below = scheme.open_at(root, "gatt-services").unwrap();
    assert_eq!(scheme.handle(below), Ok(HandleKind::GattServices));
    assert_eq!(scheme.open_at(id, "info"), Err(SchemeError::Invalid));
    assert_eq!(scheme.open_at(9999, "info"), Err(SchemeError::BadDescriptor));
}

#[test]
fn path_of_and_is_directory_follow_the_handle() {
    let mut scheme = make_scheme();
    let id = scheme.open_at(SCHEME_ROOT_ID, "le-scan-results").unwrap();
    assert_eq!(scheme.path_of(id).unwrap(), "hci0:/le-scan-results");
    assert_eq!(scheme.path_of(SCHEME_ROOT_ID).unwrap(), "hci0:/");
    assert_eq!(scheme.is_directory(id), Ok(false));
    assert_eq!(scheme.is_directory(SCHEME_ROOT_ID), Ok(true));
    assert_eq!(scheme.is_directory(4242), Err(SchemeError::BadDescriptor));
}

#[test]
fn copy_at_offset_copies_the_rest_that_fits() {
    let data = [1u8, 2, 3, 4, 5];
    let mut buf = [0u8; 3];
    assert_eq!(copy_at_offset(&data, 1, &mut buf), Ok(3));
    assert_eq!(buf, [2, 3, 4]);
    let mut big = [9u8; 8];
    assert_eq!(copy_at_offset(&data, 3, &mut big), Ok(2));
    assert_eq!(&big[..3], &[4, 5, 9]);
    assert_eq!(copy_at_offset(&data, 5, &mut big), Ok(0));
}

#[test]
fn alloc_handle_numbers_increase() {
    let mut scheme = make_scheme();
    let a = scheme.alloc_handle(HandleKind::Info);
    let b = scheme.alloc_handle(HandleKind::Events);
    assert_eq!(b, a + 1);
    assert_eq!(scheme.handle(a), Ok(HandleKind::Info));
    assert_eq!(scheme.handle(b), Ok(HandleKind::Events));
}
