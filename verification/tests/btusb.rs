use std::io;

use redbear_drivers::btusb::{
    format_lines, hci_init_sequence, parse_command, parse_hci_endpoints_from_descriptors,
    parse_usb_endpoint_descriptor, status_lines_fresh_at, Command, ControllerInfo,
    ControllerState, HciEndpoints, TransportConfig, UsbBluetoothAdapter,
};
use redbear_drivers::hci::{
    HciAcl, HciCommand, HciEvent, EVT_COMMAND_COMPLETE, OP_READ_BD_ADDR, OP_READ_LOCAL_VERSION,
    OP_RESET,
};
use redbear_drivers::usb_transport::{TransportState, UsbHciTransport};

fn stub_adapter(name: &str) -> UsbBluetoothAdapter {
    UsbBluetoothAdapter::stub(name.to_string())
}

fn test_config(status_file: String) -> TransportConfig {
    TransportConfig {
        adapters: vec![stub_adapter("hci0")],
        controller_family: "usb-bounded-test".to_string(),
        status_file,
        controller_info: ControllerInfo::default(),
    }
}

#[test]
fn parse_command_accepts_probe_status_and_daemon() {
    assert_eq!(parse_command(&["--probe".to_string()]).unwrap(), Command::Probe);
    assert_eq!(parse_command(&["--status".to_string()]).unwrap(), Command::Status);
    assert_eq!(parse_command(&[]).unwrap(), Command::Daemon);
}

#[test]
fn parse_usb_endpoint_descriptor_valid() {
    let raw: &[u8] = &[7, 5, 0x81, 0x03, 0x40, 0x00, 0x01];
    let ep = parse_usb_endpoint_descriptor(raw).unwrap();
    assert_eq!(ep.endpoint_address, 0x81);
    assert_eq!(ep.attributes, 0x03);
    assert_eq!(ep.max_packet_size, 64);
    assert_eq!(ep.interval, 1);
}

#[test]
fn parse_usb_endpoint_descriptor_too_short() {
    let raw: &[u8] = &[7, 5, 0x81, 0x03, 0x40];
    assert!(parse_usb_endpoint_descriptor(raw).is_none());
}

#[test]
fn parse_usb_endpoint_descriptor_wrong_length() {
    let raw: &[u8] = &[9, 5, 0x81, 0x03, 0x40, 0x00, 0x01];
    assert!(parse_usb_endpoint_descriptor(raw).is_none());
}

#[test]
fn parse_usb_endpoint_descriptor_wrong_type() {
    let raw: &[u8] = &[7, 4, 0x81, 0x03, 0x40, 0x00, 0x01];
    assert!(parse_usb_endpoint_descriptor(raw).is_none());
}

#[test]
fn parse_hci_endpoints_from_descriptors_extracts_all_three() {
    let blob: Vec<u8> = vec![
        // Interface descriptor (9 bytes)
        9, 4, 0, 0, 3, 0xE0, 0x01, 0x01, 0x00,
        // Interrupt IN endpoint: address=0x81 (EP1 IN), attributes=0x03 (interrupt), max_packet=64
        7, 5, 0x81, 0x03, 0x40, 0x00, 0x01,
        // Bulk IN endpoint: address=0x82 (EP2 IN), attributes=0x02 (bulk), max_packet=512
        7, 5, 0x82, 0x02, 0x00, 0x02, 0x00,
        // Bulk OUT endpoint: address=0x02 (EP2 OUT), attributes=0x02 (bulk), max_packet=512
        7, 5, 0x02, 0x02, 0x00, 0x02, 0x00,
    ];

    let endpoints = parse_hci_endpoints_from_descriptors(&blob).unwrap();
    assert_eq!(endpoints.event_endpoint, 1);
    assert_eq!(endpoints.event_max_packet_size, 64);
    assert_eq!(endpoints.acl_in_endpoint, 2);
    assert_eq!(endpoints.acl_in_max_packet_size, 512);
    assert_eq!(endpoints.acl_out_endpoint, 2);
    assert_eq!(endpoints.acl_out_max_packet_size, 512);
}

#[test]
fn parse_hci_endpoints_from_descriptors_missing_interrupt_in() {
    let blob: Vec<u8> = vec![
        // Bulk IN only, no interrupt IN
        7, 5, 0x82, 0x02, 0x00, 0x02, 0x00, 7, 5, 0x02, 0x02, 0x00, 0x02, 0x00,
    ];
    let result = parse_hci_endpoints_from_descriptors(&blob);
    assert!(result.is_err());
    assert!(result.unwrap_err().contains("interrupt IN"));
}

#[test]
fn parse_hci_endpoints_from_descriptors_empty_blob() {
    let result = parse_hci_endpoints_from_descriptors(&[]);
    assert!(result.is_err());
}

#[test]
fn parse_hci_endpoints_from_descriptors_ignores_other_endpoints() {
    let blob: Vec<u8> = vec![
        // Isochronous IN endpoint (should be ignored)
        7, 5, 0x83, 0x01, 0x00, 0x01, 0x01,
        // Control endpoint (should be ignored)
        7, 5, 0x04, 0x00, 0x40, 0x00, 0x00,
        // Interrupt IN endpoint (should be picked up)
        7, 5, 0x81, 0x03, 0x40, 0x00, 0x01,
        // Bulk IN endpoint (should be picked up)
        7, 5, 0x82, 0x02, 0x00, 0x02, 0x00,
        // Bulk OUT endpoint (should be picked up)
        7, 5, 0x02, 0x02, 0x00, 0x02, 0x00,
    ];

    let endpoints = parse_hci_endpoints_from_descriptors(&blob).unwrap();
    assert_eq!(endpoints.event_endpoint, 1);
    assert_eq!(endpoints.acl_in_endpoint, 2);
    assert_eq!(endpoints.acl_out_endpoint, 2);
}

#[test]
fn hci_endpoints_default_is_zeroed() {
    let ep = HciEndpoints::default();
    assert_eq!(ep.event_endpoint, 0);
    assert_eq!(ep.acl_in_endpoint, 0);
    assert_eq!(ep.acl_out_endpoint, 0);
    assert_eq!(ep.event_max_packet_size, 0);
    assert_eq!(ep.acl_in_max_packet_size, 0);
    assert_eq!(ep.acl_out_max_packet_size, 0);
}

#[test]
fn detail_line_includes_endpoint_fields() {
    let adapter = UsbBluetoothAdapter {
        name: "hci0".to_string(),
        vendor_id: 0x8087,
        device_id: 0x0032,
        bus: "usb.0000:00:14.0".to_string(),
        device_path: "/scheme/usb/usb.0000:00:14.0/port1".to_string(),
        endpoints: HciEndpoints {
            event_endpoint: 1,
            acl_in_endpoint: 2,
            acl_out_endpoint: 2,
            event_max_packet_size: 64,
            acl_in_max_packet_size: 512,
            acl_out_max_packet_size: 512,
        },
    };
    let line = adapter.detail_line(0);
    assert!(line.contains("event_ep=1"));
    assert!(line.contains("acl_in_ep=2"));
    assert!(line.contains("acl_out_ep=2"));
    assert!(line.contains("vendor_id=8087"));
    assert!(line.contains("device_id=0032"));
}

// -- Controller state and HCI init tests --------------------------------

#[test]
fn controller_state_default_is_closed() {
    let info = ControllerInfo::default();
    assert_eq!(info.state, ControllerState::Closed);
    assert!(info.bd_address.is_none());
    assert!(info.hci_version.is_none());
    assert!(info.hci_revision.is_none());
    assert!(info.manufacturer_name.is_none());
    assert!(info.init_error.is_none());
}

struct TestTransport {
    pending_events: Vec<HciEvent>,
}

impl TestTransport {
    fn new() -> Self {
        Self {
            pending_events: Vec::new(),
        }
    }

    fn inject_event(&mut self, event: HciEvent) {
        self.pending_events.push(event);
    }
}

impl UsbHciTransport for TestTransport {
    fn send_command(&mut self, _command: &HciCommand) -> io::Result<()> {
        Ok(())
    }
    fn recv_event(&mut self) -> io::Result<Option<HciEvent>> {
        Ok(if self.pending_events.is_empty() {
            None
        } else {
            Some(self.pending_events.remove(0))
        })
    }
    fn send_acl(&mut self, _acl: &HciAcl) -> io::Result<()> {
        Ok(())
    }
    fn recv_acl(&mut self) -> io::Result<Option<HciAcl>> {
        Ok(None)
    }
    fn state(&self) -> TransportState {
        TransportState::Active
    }
    fn close(&mut self) -> io::Result<()> {
        Ok(())
    }
}

fn inject_cc_event(transport: &mut TestTransport, opcode: u16, return_params: Vec<u8>) {
    let mut params = vec![0x01];
    params.push(opcode as u8);
    params.push((opcode >> 8) as u8);
    params.extend(return_params);
    let event = HciEvent {
        event_code: EVT_COMMAND_COMPLETE,
        parameters: params,
    };
    transport.inject_event(event);
}

#[test]
fn hci_init_sequence_with_stub_succeeds() {
    let mut transport = TestTransport::new();

    // Reset CC: status=0x00
    inject_cc_event(&mut transport, OP_RESET, vec![0x00]);

    // Read BD Addr CC: status=0x00 + 6-byte address
    inject_cc_event(
        &mut transport,
        OP_READ_BD_ADDR,
        vec![0x00, 0xAA, 0xBB, 0xCC, 0xDD, 0xEE, 0xFF],
    );

    // Read Local Version CC: status + hci_version + hci_revision(2) + lmp_version + manufacturer(2) + lmp_subversion(2)
    inject_cc_event(
        &mut transport,
        OP_READ_LOCAL_VERSION,
        vec![0x00, 0x09, 0x01, 0x00, 0x09, 0x02, 0x00, 0x01, 0x00],
    );

    let info = hci_init_sequence(&mut transport).expect("init should succeed");
    assert_eq!(info.state, ControllerState::Active);
    assert_eq!(info.bd_address, Some([0xAA, 0xBB, 0xCC, 0xDD, 0xEE, 0xFF]));
    assert_eq!(info.hci_version, Some(0x09));
    assert_eq!(info.hci_revision, Some(0x0001));
    assert_eq!(info.manufacturer_name, Some(0x0002));
    assert!(info.init_error.is_none());
}

#[test]
fn hci_init_sequence_fails_when_reset_gets_no_response() {
    let mut transport = TestTransport::new();
    // No events injected — recv_event returns None
    let result = hci_init_sequence(&mut transport);
    assert!(result.is_err());
    let err = result.err().unwrap();
    assert!(
        err.contains("no response"),
        "expected 'no response' error, got: {err}"
    );
}

#[test]
fn status_lines_include_controller_state() {
    let mut config = test_config("/tmp/rbos-btusb-status-active".to_string());
    config.controller_info = ControllerInfo {
        state: ControllerState::Active,
        bd_address: Some([0x11, 0x22, 0x33, 0x44, 0x55, 0x66]),
        hci_version: Some(9),
        hci_revision: Some(1),
        manufacturer_name: Some(2),
        init_error: None,
    };
    let lines = config.render_status_lines(true);
    let output = lines.join("\n");
    assert!(
        output.contains("controller_state=active"),
        "missing controller_state=active, got: {output}"
    );
    assert!(output.contains("bd_address="), "missing bd_address, got: {output}");
    assert!(output.contains("hci_version=9"), "missing hci_version, got: {output}");
    assert!(output.contains("manufacturer=2"), "missing manufacturer, got: {output}");
}

#[test]
fn status_lines_include_init_error() {
    let mut config = test_config("/tmp/rbos-btusb-status-error".to_string());
    config.controller_info = ControllerInfo {
        state: ControllerState::Error,
        bd_address: None,
        hci_version: None,
        hci_revision: None,
        manufacturer_name: None,
        init_error: Some("HCI Reset send failed: transport is closed".to_string()),
    };
    let lines = config.render_status_lines(true);
    let output = lines.join("\n");
    assert!(
        output.contains("controller_state=error"),
        "missing controller_state=error, got: {output}"
    );
    assert!(
        output.contains("init_error=HCI Reset send failed"),
        "missing init_error, got: {output}"
    );
}

// ---- Further cases ----

#[test]
fn probe_lines_list_adapters_and_facts() {
    let mut config = test_config("/tmp/status".to_string());
    config.adapters.push(stub_adapter("hci1"));
    let lines = config.probe_lines();
    assert_eq!(lines[0], "adapters=hci0,hci1");
    assert_eq!(lines[1], "transport=usb");
    assert_eq!(lines[2], "startup=explicit");
    assert_eq!(lines[3], "mode=ble-first");
    assert_eq!(lines[4], "controller_family=usb-bounded-test");
    assert_eq!(lines[5], "adapter_count=2");
    assert_eq!(
        lines[6],
        "adapter_0=name=hci0;vendor_id=0000;device_id=0000;bus=stub;device_path=/scheme/usb/stub/hci0;event_ep=0;acl_in_ep=0;acl_out_ep=0"
    );
    assert_eq!(lines.len(), 8);
}

#[test]
fn status_lines_at_a_given_time() {
    let mut config = test_config("/tmp/status".to_string());
    config.controller_info.bd_address = Some([0x11, 0x22, 0x33, 0x44, 0x55, 0x66]);
    let lines = config.render_status_lines_at(false, 1234);
    assert_eq!(lines[7], "updated_at_epoch=1234");
    assert_eq!(lines[8], "runtime_visibility=installed-only");
    assert_eq!(lines[9], "daemon_status=inactive");
    assert_eq!(lines[10], "status_file=/tmp/status");
    assert_eq!(lines[11], "controller_state=closed");
    assert_eq!(lines[12], "bd_address=66:55:44:33:22:11");
    assert_eq!(lines.len(), 13);
}

#[test]
fn freshness_of_status_reports() {
    let lines = vec!["transport=usb".to_string(), "updated_at_epoch=1000".to_string()];
    assert!(status_lines_fresh_at(&lines, 1090));
    assert!(!status_lines_fresh_at(&lines, 1091));
    assert!(status_lines_fresh_at(&lines, 500));
    let stale = vec!["updated_at_epoch=1".to_string()];
    assert!(!status_lines_fresh_at(&stale, 1000));
    let none = vec!["updated_at_epoch=x".to_string()];
    assert!(!status_lines_fresh_at(&none, 0));
}

#[test]
fn file_text_of_lines() {
    assert_eq!(format_lines(&[]), "\n");
    assert_eq!(format_lines(&["a".to_string(), "b".to_string()]), "a\nb\n");
}
