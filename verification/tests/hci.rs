use redbear_drivers::hci::{
    ATT_ERROR_RSP,
    ATT_ERR_ATTRIBUTE_NOT_FOUND,
    ATT_READ_BY_GROUP_TYPE_REQ,
    ATT_READ_BY_GROUP_TYPE_RSP,
    ATT_READ_BY_TYPE_REQ,
    ATT_READ_BY_TYPE_RSP,
    ATT_READ_REQ,
    ATT_READ_RSP,
    ATT_WRITE_REQ,
    AttPdu,
    CHAR_PROP_NOTIFY,
    CHAR_PROP_READ,
    EVT_COMMAND_COMPLETE,
    EVT_COMMAND_STATUS,
    EVT_LE_META,
    HciAcl,
    HciCommand,
    HciEvent,
    HciPacketData,
    HciParseError,
    L2CAP_ATT_CID,
    LE_ADVERTISING_REPORT,
    LE_CONNECTION_COMPLETE,
    OP_LE_READ_BUFFER_SIZE,
    OP_READ_BD_ADDR,
    OP_READ_LOCAL_VERSION,
    OP_RESET,
    PacketIndicator,
    STATUS_SUCCESS,
    UUID_BATTERY_LEVEL,
    UUID_BATTERY_SERVICE,
    UUID_PRIMARY_SERVICE,
    acl_to_att,
    att_to_acl,
    build_usb_command,
    cmd_disconnect,
    cmd_le_create_connection,
    cmd_le_set_scan_enable,
    cmd_le_set_scan_parameters,
    cmd_read_bd_addr,
    cmd_reset,
    is_att_error,
    parse_att_error,
    parse_le_advertising_reports,
    parse_le_buffer_size,
    parse_le_connection_complete,
    parse_local_version,
    parse_read_bd_addr,
    parse_read_by_group_type_rsp,
    parse_read_by_type_rsp,
    parse_usb_hci_packet,
};


// -- PacketIndicator tests ----------------------------------------------

#[test]
fn packet_indicator_from_u8_all_valid() {
    assert_eq!(PacketIndicator::from_u8(0x01), Some(PacketIndicator::Command));
    assert_eq!(PacketIndicator::from_u8(0x02), Some(PacketIndicator::Acl));
    assert_eq!(PacketIndicator::from_u8(0x03), Some(PacketIndicator::Sco));
    assert_eq!(PacketIndicator::from_u8(0x04), Some(PacketIndicator::Event));
    assert_eq!(PacketIndicator::from_u8(0x05), Some(PacketIndicator::Iso));
}

#[test]
fn packet_indicator_from_u8_invalid() {
    assert_eq!(PacketIndicator::from_u8(0x00), None);
    assert_eq!(PacketIndicator::from_u8(0x06), None);
    assert_eq!(PacketIndicator::from_u8(0xFF), None);
}

#[test]
fn packet_indicator_repr_values() {
    assert_eq!(PacketIndicator::Command.to_u8(), 0x01);
    assert_eq!(PacketIndicator::Acl.to_u8(), 0x02);
    assert_eq!(PacketIndicator::Sco.to_u8(), 0x03);
    assert_eq!(PacketIndicator::Event.to_u8(), 0x04);
    assert_eq!(PacketIndicator::Iso.to_u8(), 0x05);
}

// -- HciCommand tests ---------------------------------------------------

#[test]
fn hci_command_to_bytes_round_trip() {
    let cmd = HciCommand::new(0x0C03, vec![0x00, 0x01, 0x02]);
    let bytes = cmd.to_bytes();
    // opcode 0x0C03 → [0x03, 0x0C], param_len 3, params [0x00, 0x01, 0x02]
    assert_eq!(bytes, vec![0x03, 0x0C, 0x03, 0x00, 0x01, 0x02]);
    let parsed = HciCommand::from_bytes(&bytes).unwrap();
    assert_eq!(parsed, cmd);
}

#[test]
fn hci_command_empty_params() {
    let cmd = HciCommand::new(0x1009, vec![]);
    let bytes = cmd.to_bytes();
    assert_eq!(bytes, vec![0x09, 0x10, 0x00]);
    let parsed = HciCommand::from_bytes(&bytes).unwrap();
    assert_eq!(parsed, cmd);
}

#[test]
fn hci_command_wire_length() {
    let cmd = HciCommand::new(0x0C03, vec![0xAA, 0xBB]);
    assert_eq!(cmd.wire_length(), 5); // 3 header + 2 params
}

#[test]
fn hci_command_parse_truncated_header() {
    let result = HciCommand::from_bytes(&[0x03]);
    assert_eq!(
        result,
        Err(HciParseError::InsufficientData {
            expected: 3,
            actual: 1,
        })
    );
}

#[test]
fn hci_command_parse_truncated_params() {
    // Declares 5 params but only provides 2
    let result = HciCommand::from_bytes(&[0x03, 0x0C, 0x05, 0x00, 0x01]);
    assert_eq!(
        result,
        Err(HciParseError::InvalidParameterLength {
            declared: 5,
            available: 2,
        })
    );
}

#[test]
fn hci_command_parse_extra_data_ignored() {
    // Extra trailing bytes beyond declared param_len are not consumed
    let data = vec![0x03, 0x0C, 0x02, 0xAA, 0xBB, 0xCC, 0xDD];
    let parsed = HciCommand::from_bytes(&data).unwrap();
    assert_eq!(parsed.opcode, 0x0C03);
    assert_eq!(parsed.parameters, vec![0xAA, 0xBB]);
}

// -- HciEvent tests -----------------------------------------------------

#[test]
fn hci_event_command_complete_reset() {
    // Command Complete for HCI Reset (opcode 0x0C03), status 0x00
    // Event wire: [event_code=0x0E, param_len, num_packets, opcode_lo, opcode_hi, status]
    let wire: Vec<u8> = vec![0x0E, 0x04, 0x01, 0x03, 0x0C, 0x00];
    let evt = HciEvent::from_bytes(&wire).unwrap();
    assert_eq!(evt.event_code, EVT_COMMAND_COMPLETE);
    assert!(evt.is_command_complete());
    assert!(!evt.is_command_status());
    assert!(!evt.is_le_meta());
    assert_eq!(evt.parameters.len(), 4);

    let (num_packets, opcode, return_params) = evt.command_complete_params().unwrap();
    assert_eq!(num_packets, 1);
    assert_eq!(opcode, 0x0C03);
    assert!(return_params.is_empty());
}

#[test]
fn hci_event_command_status() {
    // Command Status: [event_code=0x0F, param_len=4, status=0x00, num_packets=1, opcode_lo, opcode_hi]
    let wire: Vec<u8> = vec![0x0F, 0x04, 0x00, 0x01, 0x05, 0x04];
    let evt = HciEvent::from_bytes(&wire).unwrap();
    assert_eq!(evt.event_code, EVT_COMMAND_STATUS);
    assert!(evt.is_command_status());

    let (status, num_packets, opcode) = evt.command_status_params().unwrap();
    assert_eq!(status, STATUS_SUCCESS);
    assert_eq!(num_packets, 1);
    assert_eq!(opcode, 0x0405);
}

#[test]
fn hci_event_command_complete_not_cs() {
    let wire: Vec<u8> = vec![0x0E, 0x04, 0x01, 0x03, 0x0C, 0x00];
    let evt = HciEvent::from_bytes(&wire).unwrap();
    // CC event should not return CS params
    assert!(evt.command_status_params().is_none());
}

#[test]
fn hci_event_command_status_not_cc() {
    let wire: Vec<u8> = vec![0x0F, 0x04, 0x00, 0x01, 0x05, 0x04];
    let evt = HciEvent::from_bytes(&wire).unwrap();
    assert!(evt.command_complete_params().is_none());
}

#[test]
fn hci_event_le_advertising_report() {
    // LE Meta event containing an Advertising Report
    // Payload after header: subevent(1)+num_reports(1)+event_type(1)+addr_type(1)+addr(6)+data_len(1)+data(2)+rssi(1) = 14
    let wire: Vec<u8> = vec![
        0x3E, 0x0E, // event_code, param_len=14
        0x02, 0x01, // subevent=LE_ADVERTISING_REPORT, num_reports=1
        0x00, // event_type=ADV_IND
        0x00, // addr_type=public
        0xAA, 0xBB, 0xCC, 0xDD, 0xEE, 0xFF, // addr
        0x02, // data_len=2
        0x01, 0x02, // data
        0xC5, // rssi
    ];
    let evt = HciEvent::from_bytes(&wire).unwrap();
    assert_eq!(evt.event_code, EVT_LE_META);
    assert!(evt.is_le_meta());
    assert_eq!(evt.parameters[0], LE_ADVERTISING_REPORT);
    assert_eq!(evt.parameters[1], 1); // num_reports
}

#[test]
fn hci_event_wire_length() {
    let wire: Vec<u8> = vec![0x0E, 0x04, 0x01, 0x03, 0x0C, 0x00];
    let evt = HciEvent::from_bytes(&wire).unwrap();
    assert_eq!(evt.wire_length(), 6);
}

#[test]
fn hci_event_parse_truncated() {
    let result = HciEvent::from_bytes(&[0x0E]);
    assert_eq!(
        result,
        Err(HciParseError::InsufficientData {
            expected: 2,
            actual: 1,
        })
    );
}

#[test]
fn hci_event_parse_truncated_params() {
    // Declares 4 bytes of params but only 1 is present
    let result = HciEvent::from_bytes(&[0x0E, 0x04, 0x01]);
    assert_eq!(
        result,
        Err(HciParseError::InvalidParameterLength {
            declared: 4,
            available: 1,
        })
    );
}

#[test]
fn hci_event_command_complete_params_too_short() {
    // CC event with only 1 byte of params (needs at least 4)
    let wire: Vec<u8> = vec![0x0E, 0x01, 0x01];
    let evt = HciEvent::from_bytes(&wire).unwrap();
    assert!(evt.command_complete_params().is_none());
}

#[test]
fn hci_event_command_status_params_too_short() {
    // CS event with only 2 bytes of params (needs at least 4)
    let wire: Vec<u8> = vec![0x0F, 0x02, 0x00, 0x01];
    let evt = HciEvent::from_bytes(&wire).unwrap();
    assert!(evt.command_status_params().is_none());
}

// -- HciAcl tests -------------------------------------------------------

#[test]
fn hci_acl_round_trip() {
    let acl = HciAcl::new(0x0001, 0x02, 0x01, vec![0xDE, 0xAD, 0xBE, 0xEF]);
    let bytes = acl.to_bytes();
    let parsed = HciAcl::from_bytes(&bytes).unwrap();
    assert_eq!(parsed, acl);
}

#[test]
fn hci_acl_wire_format() {
    let acl = HciAcl::new(0x0042, 0b01, 0b00, vec![0xCA, 0xFE]);
    let bytes = acl.to_bytes();
    // handle=0x0042, PB=01, BC=00 → handle_word = 0x0042 | (0x01 << 12) = 0x1042
    assert_eq!(bytes[0], 0x42); // lo byte of 0x1042
    assert_eq!(bytes[1], 0x10); // hi byte of 0x1042
    assert_eq!(bytes[2], 0x02); // data_len lo
    assert_eq!(bytes[3], 0x00); // data_len hi
    assert_eq!(&bytes[4..], &[0xCA, 0xFE]);
}

#[test]
fn hci_acl_empty_data() {
    let acl = HciAcl::new(0x0000, 0x00, 0x00, vec![]);
    let bytes = acl.to_bytes();
    assert_eq!(bytes.len(), 4);
    let parsed = HciAcl::from_bytes(&bytes).unwrap();
    assert_eq!(parsed, acl);
}

#[test]
fn hci_acl_parse_truncated() {
    let result = HciAcl::from_bytes(&[0x42, 0x10]);
    assert_eq!(
        result,
        Err(HciParseError::InsufficientData {
            expected: 4,
            actual: 2,
        })
    );
}

#[test]
fn hci_acl_parse_truncated_data() {
    // Declares 8 bytes of data but only provides 2
    let result = HciAcl::from_bytes(&[0x42, 0x10, 0x08, 0x00, 0xCA, 0xFE]);
    assert_eq!(
        result,
        Err(HciParseError::InvalidParameterLength {
            declared: 8,
            available: 2,
        })
    );
}

#[test]
fn hci_acl_max_handle_bits() {
    // Handle uses 12 bits, PB 2 bits, BC 2 bits
    let acl = HciAcl::new(0x0FFF, 0x03, 0x03, vec![0x01]);
    let bytes = acl.to_bytes();
    let parsed = HciAcl::from_bytes(&bytes).unwrap();
    assert_eq!(parsed.handle, 0x0FFF);
    assert_eq!(parsed.pb_flag, 0x03);
    assert_eq!(parsed.bc_flag, 0x03);
    assert_eq!(parsed.data, vec![0x01]);
}

// -- build_usb_command tests -------------------------------------------

#[test]
fn build_usb_command_produces_correct_sequence() {
    let packet = build_usb_command(0x0C03, vec![]);
    assert_eq!(packet, vec![0x01, 0x03, 0x0C, 0x00]);
}

#[test]
fn build_usb_command_with_params() {
    let packet = build_usb_command(0x1009, vec![0xAA, 0xBB]);
    assert_eq!(packet, vec![0x01, 0x09, 0x10, 0x02, 0xAA, 0xBB]);
}

// -- parse_usb_hci_packet tests ----------------------------------------

#[test]
fn parse_usb_command_packet() {
    let wire = build_usb_command(0x0C03, vec![0x00]);
    let (indicator, data) = parse_usb_hci_packet(&wire).unwrap();
    assert_eq!(indicator, PacketIndicator::Command);
    match data {
        HciPacketData::Command(cmd) => {
            assert_eq!(cmd.opcode, 0x0C03);
            assert_eq!(cmd.parameters, vec![0x00]);
        }
        other => panic!("expected Command, got {other:?}"),
    }
}

#[test]
fn parse_usb_event_packet() {
    // Build: [0x04, 0x0E, 0x04, 0x01, 0x03, 0x0C, 0x00]
    let mut wire = vec![0x04];
    wire.extend_from_slice(&[0x0E, 0x04, 0x01, 0x03, 0x0C, 0x00]);
    let (indicator, data) = parse_usb_hci_packet(&wire).unwrap();
    assert_eq!(indicator, PacketIndicator::Event);
    match data {
        HciPacketData::Event(evt) => {
            assert_eq!(evt.event_code, EVT_COMMAND_COMPLETE);
        }
        other => panic!("expected Event, got {other:?}"),
    }
}

#[test]
fn parse_usb_acl_packet() {
    let acl = HciAcl::new(0x0001, 0x00, 0x00, vec![0xDE]);
    let mut wire = vec![0x02];
    wire.extend_from_slice(&acl.to_bytes());
    let (indicator, data) = parse_usb_hci_packet(&wire).unwrap();
    assert_eq!(indicator, PacketIndicator::Acl);
    match data {
        HciPacketData::Acl(parsed) => {
            assert_eq!(parsed, acl);
        }
        other => panic!("expected Acl, got {other:?}"),
    }
}

#[test]
fn parse_usb_sco_packet() {
    let wire: Vec<u8> = vec![0x03, 0x01, 0x02, 0x03];
    let (indicator, data) = parse_usb_hci_packet(&wire).unwrap();
    assert_eq!(indicator, PacketIndicator::Sco);
    match data {
        HciPacketData::Sco(payload) => {
            assert_eq!(payload, vec![0x01, 0x02, 0x03]);
        }
        other => panic!("expected Sco, got {other:?}"),
    }
}

#[test]
fn parse_usb_iso_packet() {
    let wire: Vec<u8> = vec![0x05, 0xAA, 0xBB];
    let (indicator, data) = parse_usb_hci_packet(&wire).unwrap();
    assert_eq!(indicator, PacketIndicator::Iso);
    match data {
        HciPacketData::Iso(payload) => {
            assert_eq!(payload, vec![0xAA, 0xBB]);
        }
        other => panic!("expected Iso, got {other:?}"),
    }
}

#[test]
fn parse_usb_empty_data() {
    let result = parse_usb_hci_packet(&[]);
    assert_eq!(
        result,
        Err(HciParseError::InsufficientData {
            expected: 1,
            actual: 0,
        })
    );
}

#[test]
fn parse_usb_invalid_indicator() {
    let result = parse_usb_hci_packet(&[0x00, 0x01, 0x02]);
    assert_eq!(result, Err(HciParseError::InvalidPacketIndicator(0x00)));
}

#[test]
fn parse_usb_command_truncated_payload() {
    // Indicator byte says command, but no payload
    let result = parse_usb_hci_packet(&[0x01]);
    assert_eq!(
        result,
        Err(HciParseError::InsufficientData {
            expected: 3,
            actual: 0,
        })
    );
}

// -- Command builder tests -----------------------------------------------

#[test]
fn cmd_reset_builds_correct_command() {
    let cmd = cmd_reset();
    assert_eq!(cmd.opcode, 0x0C03);
    assert!(cmd.parameters.is_empty());
}

#[test]
fn cmd_read_bd_addr_builds_correct_command() {
    let cmd = cmd_read_bd_addr();
    assert_eq!(cmd.opcode, 0x1009);
    assert!(cmd.parameters.is_empty());
}

#[test]
fn cmd_le_set_scan_parameters_builds_correct_packet() {
    let cmd = cmd_le_set_scan_parameters(0x01, 0x0030, 0x0020, 0x00, 0x00);
    assert_eq!(cmd.opcode, 0x200B);
    assert_eq!(cmd.parameters.len(), 7);
    assert_eq!(cmd.parameters[0], 0x01); // scan_type
    assert_eq!(u16::from_le_bytes([cmd.parameters[1], cmd.parameters[2]]), 0x0030); // interval
    assert_eq!(u16::from_le_bytes([cmd.parameters[3], cmd.parameters[4]]), 0x0020); // window
    assert_eq!(cmd.parameters[5], 0x00); // own_address_type
    assert_eq!(cmd.parameters[6], 0x00); // filter_policy
}

#[test]
fn cmd_le_set_scan_enable_builds_correct_packet() {
    let cmd = cmd_le_set_scan_enable(0x01, 0x01);
    assert_eq!(cmd.opcode, 0x200C);
    assert_eq!(cmd.parameters, vec![0x01, 0x01]);
}

#[test]
fn cmd_le_create_connection_builds_correct_packet() {
    let peer_addr: [u8; 6] = [0xAA, 0xBB, 0xCC, 0xDD, 0xEE, 0xFF];
    let cmd = cmd_le_create_connection(
        0x0060, // scan_interval
        0x0030, // scan_window
        0x00,   // initiator_filter_policy
        0x00,   // peer_address_type
        &peer_addr,
        0x00,   // own_address_type
        0x0006, // conn_interval_min
        0x000C, // conn_interval_max
        0x0000, // conn_latency
        0x00C8, // supervision_timeout
        0x0001, // min_ce_length
        0x0002, // max_ce_length
    );
    assert_eq!(cmd.opcode, 0x200D);
    assert_eq!(cmd.parameters.len(), 25);
    // scan_interval (2) + scan_window (2) + filter_policy (1) + addr_type (1)
    // + addr (6) + own_addr_type (1) + interval_min (2) + interval_max (2)
    // + latency (2) + timeout (2) + min_ce (2) + max_ce (2) = 25
    assert_eq!(u16::from_le_bytes([cmd.parameters[0], cmd.parameters[1]]), 0x0060);
    assert_eq!(u16::from_le_bytes([cmd.parameters[2], cmd.parameters[3]]), 0x0030);
    assert_eq!(cmd.parameters[4], 0x00); // filter_policy
    assert_eq!(cmd.parameters[5], 0x00); // peer_address_type
    assert_eq!(&cmd.parameters[6..12], &peer_addr);
    assert_eq!(cmd.parameters[12], 0x00); // own_address_type
    assert_eq!(u16::from_le_bytes([cmd.parameters[13], cmd.parameters[14]]), 0x0006);
    assert_eq!(u16::from_le_bytes([cmd.parameters[15], cmd.parameters[16]]), 0x000C);
    assert_eq!(u16::from_le_bytes([cmd.parameters[17], cmd.parameters[18]]), 0x0000);
    assert_eq!(u16::from_le_bytes([cmd.parameters[19], cmd.parameters[20]]), 0x00C8);
    assert_eq!(u16::from_le_bytes([cmd.parameters[21], cmd.parameters[22]]), 0x0001);
    assert_eq!(u16::from_le_bytes([cmd.parameters[23], cmd.parameters[24]]), 0x0002);
}

#[test]
fn cmd_disconnect_builds_correct_packet() {
    let cmd = cmd_disconnect(0x0023, 0x13);
    assert_eq!(cmd.opcode, 0x0406);
    assert_eq!(cmd.parameters.len(), 3);
    assert_eq!(u16::from_le_bytes([cmd.parameters[0], cmd.parameters[1]]), 0x0023);
    assert_eq!(cmd.parameters[2], 0x13);
}

// -- Event parser tests --------------------------------------------------

fn make_cc_event(opcode: u16, return_params: &[u8]) -> HciEvent {
    // CC event: event_code=0x0E, params=[num_packets, opcode_lo, opcode_hi, return_params...]
    let mut params = vec![0x01]; // num_packets = 1
    params.push(opcode as u8);
    params.push((opcode >> 8) as u8);
    params.extend_from_slice(return_params);
    HciEvent {
        event_code: EVT_COMMAND_COMPLETE,
        parameters: params,
    }
}

fn make_le_meta_event(subevent_params: &[u8]) -> HciEvent {
    let mut params = subevent_params.to_vec();
    HciEvent {
        event_code: EVT_LE_META,
        parameters: params,
    }
}

#[test]
fn parse_read_bd_addr_extracts_address() {
    let return_params = [0x00, 0xAA, 0xBB, 0xCC, 0xDD, 0xEE, 0xFF]; // status + addr
    let event = make_cc_event(OP_READ_BD_ADDR, &return_params);
    let result = parse_read_bd_addr(&event);
    let parsed = result.expect("should parse");
    assert_eq!(parsed.status, 0x00);
    assert_eq!(parsed.address, [0xAA, 0xBB, 0xCC, 0xDD, 0xEE, 0xFF]);
}

#[test]
fn parse_read_bd_addr_returns_none_for_wrong_opcode() {
    let return_params = [0x00, 0xAA, 0xBB, 0xCC, 0xDD, 0xEE, 0xFF];
    let event = make_cc_event(OP_RESET, &return_params);
    assert!(parse_read_bd_addr(&event).is_none());
}

#[test]
fn parse_local_version_extracts_all_fields() {
    // status(1) + hci_version(1) + hci_revision(2) + lmp_version(1) + manufacturer(2) + lmp_sub(2) = 9
    let return_params: [u8; 9] = [
        0x00, // status
        0x09, // hci_version (Bluetooth 5.0)
        0x00, 0x00, // hci_revision
        0x09, // lmp_version
        0x02, 0x00, // manufacturer_name (0x0002)
        0x01, 0x00, // lmp_subversion (0x0001)
    ];
    let event = make_cc_event(OP_READ_LOCAL_VERSION, &return_params);
    let result = parse_local_version(&event);
    let parsed = result.expect("should parse");
    assert_eq!(parsed.status, 0x00);
    assert_eq!(parsed.hci_version, 0x09);
    assert_eq!(parsed.hci_revision, 0x0000);
    assert_eq!(parsed.lmp_version, 0x09);
    assert_eq!(parsed.manufacturer_name, 0x0002);
    assert_eq!(parsed.lmp_subversion, 0x0001);
}

#[test]
fn parse_le_advertising_reports_parses_single_report() {
    // subevent(1) + num_reports(1) + event_type(1) + addr_type(1) + addr(6) + data_len(1) + data(2) + rssi(1)
    let subevent_params: Vec<u8> = vec![
        LE_ADVERTISING_REPORT, // subevent
        0x01,                  // num_reports = 1
        0x00,                  // event_type = ADV_IND
        0x01,                  // address_type = random
        0x11, 0x22, 0x33, 0x44, 0x55, 0x66, // address
        0x02,                  // data_len = 2
        0xDE, 0xAD,           // data
        0xC5,                  // rssi
    ];
    let event = make_le_meta_event(&subevent_params);
    let reports = parse_le_advertising_reports(&event).expect("should parse");
    assert_eq!(reports.len(), 1);
    assert_eq!(reports[0].event_type, 0x00);
    assert_eq!(reports[0].address_type, 0x01);
    assert_eq!(reports[0].address, [0x11, 0x22, 0x33, 0x44, 0x55, 0x66]);
    assert_eq!(reports[0].data, vec![0xDE, 0xAD]);
    assert_eq!(reports[0].rssi, 0xC5u8 as i8);
}

#[test]
fn parse_le_advertising_reports_parses_multiple_reports() {
    // Two advertising reports back-to-back
    let subevent_params: Vec<u8> = vec![
        LE_ADVERTISING_REPORT, // subevent
        0x02,                  // num_reports = 2
        // Report 1
        0x00,                  // event_type
        0x00,                  // address_type
        0x01, 0x02, 0x03, 0x04, 0x05, 0x06, // address
        0x01,                  // data_len = 1
        0xFF,                  // data
        0x10,                  // rssi
        // Report 2
        0x03,                  // event_type = SCAN_RSP
        0x01,                  // address_type = random
        0x0A, 0x0B, 0x0C, 0x0D, 0x0E, 0x0F, // address
        0x00,                  // data_len = 0
        0x20,                  // rssi
    ];
    let event = make_le_meta_event(&subevent_params);
    let reports = parse_le_advertising_reports(&event).expect("should parse");
    assert_eq!(reports.len(), 2);
    assert_eq!(reports[0].event_type, 0x00);
    assert_eq!(reports[0].address, [0x01, 0x02, 0x03, 0x04, 0x05, 0x06]);
    assert_eq!(reports[0].data, vec![0xFF]);
    assert_eq!(reports[0].rssi, 0x10i8);
    assert_eq!(reports[1].event_type, 0x03);
    assert_eq!(reports[1].address, [0x0A, 0x0B, 0x0C, 0x0D, 0x0E, 0x0F]);
    assert!(reports[1].data.is_empty());
    assert_eq!(reports[1].rssi, 0x20i8);
}

#[test]
fn parse_le_connection_complete_extracts_all_fields() {
    // Subevent(1) + status(1) + handle(2) + role(1) + addr_type(1) + addr(6)
    // + interval(2) + latency(2) + timeout(2) + mca(1) = 19
    let mut subevent_params: Vec<u8> = vec![
        LE_CONNECTION_COMPLETE, // subevent
        0x00,                   // status = success
        0x01, 0x00,             // connection_handle = 0x0001
        0x00,                   // role = master
        0x00,                   // peer_address_type = public
    ];
    subevent_params.extend_from_slice(&[0xAA, 0xBB, 0xCC, 0xDD, 0xEE, 0xFF]); // peer_address
    subevent_params.extend_from_slice(&0x0024u16.to_le_bytes()); // conn_interval
    subevent_params.extend_from_slice(&0x0000u16.to_le_bytes()); // conn_latency
    subevent_params.extend_from_slice(&0x01F4u16.to_le_bytes()); // supervision_timeout
    subevent_params.push(0x01);                                   // master_clock_accuracy
    let event = make_le_meta_event(&subevent_params);
    let result = parse_le_connection_complete(&event);
    let parsed = result.expect("should parse");
    assert_eq!(parsed.status, 0x00);
    assert_eq!(parsed.connection_handle, 0x0001);
    assert_eq!(parsed.role, 0x00);
    assert_eq!(parsed.peer_address_type, 0x00);
    assert_eq!(parsed.peer_address, [0xAA, 0xBB, 0xCC, 0xDD, 0xEE, 0xFF]);
    assert_eq!(parsed.conn_interval, 0x0024);
    assert_eq!(parsed.conn_latency, 0x0000);
    assert_eq!(parsed.supervision_timeout, 0x01F4);
    assert_eq!(parsed.master_clock_accuracy, 0x01);
}

#[test]
fn parse_le_connection_complete_returns_none_for_wrong_subevent() {
    let mut subevent_params = vec![LE_ADVERTISING_REPORT, 0x01]; // wrong subevent
    subevent_params.extend_from_slice(&[0u8; 16]);
    let event = make_le_meta_event(&subevent_params);
    assert!(parse_le_connection_complete(&event).is_none());
}

#[test]
fn parse_le_buffer_size_extracts_fields() {
    // status(1) + le_acl_data_packet_length(2) + total_num_le_acl_data_packets(1) = 4
    let return_params: [u8; 4] = [
        0x00,       // status
        0x1B, 0x02, // le_acl_data_packet_length = 0x021B (539)
        0x05,       // total_num_le_acl_data_packets = 5
    ];
    let event = make_cc_event(OP_LE_READ_BUFFER_SIZE, &return_params);
    let result = parse_le_buffer_size(&event);
    let parsed = result.expect("should parse");
    assert_eq!(parsed.status, 0x00);
    assert_eq!(parsed.le_acl_data_packet_length, 0x021B);
    assert_eq!(parsed.total_num_le_acl_data_packets, 5);
}

#[test]
fn parse_functions_return_none_for_truncated_data() {
    // Truncated Read BD_ADDR — only 3 bytes of return params (need 7)
    let return_params_short = [0x00, 0xAA, 0xBB];
    let event = make_cc_event(OP_READ_BD_ADDR, &return_params_short);
    assert!(parse_read_bd_addr(&event).is_none());

    // Truncated Local Version — only 5 bytes (need 9)
    let return_params_short = [0x00, 0x09, 0x00, 0x00, 0x09];
    let event = make_cc_event(OP_READ_LOCAL_VERSION, &return_params_short);
    assert!(parse_local_version(&event).is_none());

    // Truncated LE Connection Complete — too short
    let subevent_params = vec![LE_CONNECTION_COMPLETE, 0x00, 0x01, 0x00];
    let event = make_le_meta_event(&subevent_params);
    assert!(parse_le_connection_complete(&event).is_none());

    // Truncated LE Buffer Size — only 2 bytes of return params (need 3)
    let return_params_short = [0x00, 0x1B];
    let event = make_cc_event(OP_LE_READ_BUFFER_SIZE, &return_params_short);
    assert!(parse_le_buffer_size(&event).is_none());

    // Non-CC event for BD_ADDR parser
    let event = HciEvent {
        event_code: EVT_COMMAND_STATUS,
        parameters: vec![0x00, 0x01, 0x09, 0x10],
    };
    assert!(parse_read_bd_addr(&event).is_none());

    // Non-LE-Meta event for advertising parser
    let event = HciEvent {
        event_code: EVT_COMMAND_COMPLETE,
        parameters: vec![],
    };
    assert!(parse_le_advertising_reports(&event).is_none());
}

// -- ATT/GATT tests -------------------------------------------------------

#[test]
fn att_pdu_to_bytes_round_trip() {
    let pdu = AttPdu::new(ATT_READ_REQ, vec![0x0A, 0x00]);
    let bytes = pdu.to_bytes();
    assert_eq!(bytes, vec![ATT_READ_REQ, 0x0A, 0x00]);
    let restored = AttPdu::from_bytes(&bytes).unwrap();
    assert_eq!(restored, pdu);
}

#[test]
fn att_read_by_type_req_builds_correct_params() {
    let pdu = AttPdu::read_by_type_req(0x0001, 0xFFFF, UUID_BATTERY_LEVEL);
    assert_eq!(pdu.opcode, ATT_READ_BY_TYPE_REQ);
    assert_eq!(pdu.parameters.len(), 6);
    assert_eq!(u16::from_le_bytes([pdu.parameters[0], pdu.parameters[1]]), 0x0001);
    assert_eq!(u16::from_le_bytes([pdu.parameters[2], pdu.parameters[3]]), 0xFFFF);
    assert_eq!(u16::from_le_bytes([pdu.parameters[4], pdu.parameters[5]]), UUID_BATTERY_LEVEL);
}

#[test]
fn att_read_req_builds_correct_handle() {
    let pdu = AttPdu::read_req(0x0025);
    assert_eq!(pdu.opcode, ATT_READ_REQ);
    assert_eq!(pdu.parameters, vec![0x25, 0x00]);
}

#[test]
fn att_write_req_builds_correct_handle_and_value() {
    let pdu = AttPdu::write_req(0x002A, &[0x01, 0x00]);
    assert_eq!(pdu.opcode, ATT_WRITE_REQ);
    assert_eq!(pdu.parameters.len(), 4);
    assert_eq!(u16::from_le_bytes([pdu.parameters[0], pdu.parameters[1]]), 0x002A);
    assert_eq!(&pdu.parameters[2..], &[0x01, 0x00]);
}

#[test]
fn att_read_by_group_type_req_uses_primary_service_uuid() {
    let pdu = AttPdu::read_by_group_type_req(0x0001, 0xFFFF);
    assert_eq!(pdu.opcode, ATT_READ_BY_GROUP_TYPE_REQ);
    assert_eq!(pdu.parameters.len(), 6);
    assert_eq!(
        u16::from_le_bytes([pdu.parameters[4], pdu.parameters[5]]),
        UUID_PRIMARY_SERVICE
    );
}

#[test]
fn att_to_acl_wraps_in_l2cap_att_channel() {
    let att = AttPdu::read_req(0x0003);
    let acl = att_to_acl(0x0042, &att);
    assert_eq!(acl.handle, 0x0042);
    assert_eq!(acl.pb_flag, 0x00);
    assert_eq!(acl.bc_flag, 0x00);
    // data = l2cap_len(2) + cid(2) + att_bytes
    assert!(acl.data.len() >= 4);
    let cid = u16::from_le_bytes([acl.data[2], acl.data[3]]);
    assert_eq!(cid, L2CAP_ATT_CID);
    let l2cap_len = u16::from_le_bytes([acl.data[0], acl.data[1]]) as usize;
    assert_eq!(l2cap_len, acl.data.len() - 4);
}

#[test]
fn acl_to_att_extracts_att_pdu() {
    let original = AttPdu::write_req(0x0029, &[0xAA, 0xBB]);
    let acl = att_to_acl(0x0001, &original);
    let extracted = acl_to_att(&acl).unwrap();
    assert_eq!(extracted, original);
}

#[test]
fn acl_to_att_returns_none_for_non_att_cid() {
    let acl = HciAcl::new(0x0001, 0x00, 0x00, vec![0x01, 0x00, 0x05, 0x00, 0xFF]);
    assert!(acl_to_att(&acl).is_none());
}

#[test]
fn parse_read_by_type_rsp_extracts_characteristics() {
    let mut params = vec![5]; // length: props(1) + handle(2) + uuid(2) = 5
    params.push(CHAR_PROP_READ | CHAR_PROP_NOTIFY); // properties
    params.extend_from_slice(&0x0010u16.to_le_bytes()); // value_handle
    params.extend_from_slice(&UUID_BATTERY_LEVEL.to_le_bytes()); // uuid
    let pdu = AttPdu::new(ATT_READ_BY_TYPE_RSP, params);
    let chars = parse_read_by_type_rsp(&pdu).unwrap();
    assert_eq!(chars.len(), 1);
    assert_eq!(chars[0].properties, CHAR_PROP_READ | CHAR_PROP_NOTIFY);
    assert_eq!(chars[0].value_handle, 0x0010);
    assert_eq!(chars[0].handle, 0x000F);
    assert_eq!(
        u16::from_le_bytes([chars[0].uuid[0], chars[0].uuid[1]]),
        UUID_BATTERY_LEVEL
    );
}

#[test]
fn parse_read_by_group_type_rsp_extracts_services() {
    let mut params = vec![6]; // length: start(2) + end(2) + uuid(2) = 6
    params.extend_from_slice(&0x0001u16.to_le_bytes()); // start_handle
    params.extend_from_slice(&0x0005u16.to_le_bytes()); // end_handle
    params.extend_from_slice(&UUID_BATTERY_SERVICE.to_le_bytes()); // uuid
    let pdu = AttPdu::new(ATT_READ_BY_GROUP_TYPE_RSP, params);
    let services = parse_read_by_group_type_rsp(&pdu).unwrap();
    assert_eq!(services.len(), 1);
    assert_eq!(services[0].start_handle, 0x0001);
    assert_eq!(services[0].end_handle, 0x0005);
    assert_eq!(
        u16::from_le_bytes([services[0].uuid[0], services[0].uuid[1]]),
        UUID_BATTERY_SERVICE
    );
}

#[test]
fn parse_att_error_extracts_fields() {
    let params = vec![
        ATT_READ_REQ,       // request opcode
        0x0A, 0x00,         // handle (0x000A)
        ATT_ERR_ATTRIBUTE_NOT_FOUND, // error code
        0x00,               // padding to satisfy len < 5 check
    ];
    let pdu = AttPdu::new(ATT_ERROR_RSP, params);
    let result = parse_att_error(&pdu).unwrap();
    assert_eq!(result.0, ATT_READ_REQ);
    assert_eq!(result.1, 0x000A);
    assert_eq!(result.2, ATT_ERR_ATTRIBUTE_NOT_FOUND);
}

#[test]
fn parse_att_error_accepts_four_byte_response() {
    let pdu = AttPdu::new(ATT_ERROR_RSP, vec![0x0A, 0x0A, 0x00, 0x0A]);
    assert_eq!(parse_att_error(&pdu), Some((0x0A, 0x000A, 0x0A)));
    let short = AttPdu::new(ATT_ERROR_RSP, vec![0x0A, 0x0A, 0x00]);
    assert_eq!(parse_att_error(&short), None);
}

#[test]
fn is_att_error_identifies_error_responses() {
    let err = AttPdu::new(ATT_ERROR_RSP, vec![0x08, 0x01, 0x00, 0x0A, 0x00]);
    assert!(is_att_error(&err));
    let not_err = AttPdu::new(ATT_READ_RSP, vec![0x42]);
    assert!(!is_att_error(&not_err));
}
