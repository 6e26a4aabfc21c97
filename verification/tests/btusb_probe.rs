use redbear_drivers::btusb::UsbDeviceDescriptor;
use redbear_drivers::btusb_probe::{
    default_adapters_from_names, extract_jsonish_u64, parse_list, parse_numeric_value,
    parse_usb_device_descriptor,
};

#[test]
fn numeric_values_decimal_and_hex() {
    assert_eq!(parse_numeric_value("42"), Ok(42));
    assert_eq!(parse_numeric_value("  0x8087 "), Ok(0x8087));
    assert_eq!(parse_numeric_value("0XfF"), Ok(255));
    assert_eq!(parse_numeric_value("+5"), Ok(5));
    assert!(parse_numeric_value("").is_err());
    assert!(parse_numeric_value("0x").is_err());
    assert!(parse_numeric_value("12a").is_err());
    assert!(parse_numeric_value("18446744073709551616").is_err());
    assert_eq!(parse_numeric_value("18446744073709551615"), Ok(u64::MAX));
}

#[test]
fn jsonish_fields() {
    let raw = r#"{"class":224,"sub_class":1,"protocol":1,"vendor":32903,"product":50}"#;
    assert_eq!(extract_jsonish_u64(raw, &["vendor", "vendor_id"]), Ok(32903));
    assert_eq!(extract_jsonish_u64(raw, &["device", "product"]), Ok(50));
    assert_eq!(extract_jsonish_u64(raw, &["class"]), Ok(224));
    assert!(extract_jsonish_u64(raw, &["missing"]).is_err());
    assert_eq!(extract_jsonish_u64(r#"{"vendor": "0x0bda"}"#, &["vendor"]), Ok(0x0bda));
    assert_eq!(extract_jsonish_u64("\"vendor\" :  17\n", &["vendor"]), Ok(17));
    assert_eq!(extract_jsonish_u64(r#"{"vendor":"", "vendor_id": 9}"#, &["vendor", "vendor_id"]), Ok(9));
    assert!(extract_jsonish_u64(r#"{"vendor":"abc"}"#, &["vendor"]).is_err());
    assert!(extract_jsonish_u64(r#"{"vendor"}"#, &["vendor"]).is_err());
}

#[test]
fn usb_device_descriptors() {
    let d = parse_usb_device_descriptor(
        br#"{"class":224,"sub_class":1,"protocol":1,"vendor":32903,"product":50}"#,
    )
    .unwrap();
    assert_eq!(
        d,
        UsbDeviceDescriptor { vendor_id: 0x8087, device_id: 0x32, class: 224, subclass: 1, protocol: 1 }
    );
    assert!(d.looks_like_bluetooth());
    let d = parse_usb_device_descriptor(
        br#"{"device_class":3,"subclass":1,"device_protocol":1,"vendor_id":4660,"device_id":22136}"#,
    )
    .unwrap();
    assert_eq!(d.vendor_id, 4660);
    assert_eq!(d.device_id, 22136);
    assert!(!d.looks_like_bluetooth());
    assert!(parse_usb_device_descriptor(br#"{"class":224,"sub_class":1,"protocol":1,"vendor":70000,"product":1}"#).is_err());
    assert!(parse_usb_device_descriptor(br#"{"class":300,"sub_class":1,"protocol":1,"vendor":1,"product":1}"#).is_err());
    assert!(parse_usb_device_descriptor(b"").is_err());
}

#[test]
fn adapter_lists() {
    assert_eq!(parse_list(Some("hci0, hci1,,  "), &["x"]), vec!["hci0".to_string(), "hci1".to_string()]);
    assert_eq!(parse_list(Some(" , "), &["hci0"]), vec!["hci0".to_string()]);
    assert_eq!(parse_list(None, &["a", "b"]), vec!["a".to_string(), "b".to_string()]);
    let adapters = default_adapters_from_names(vec!["hci0".to_string(), "hci7".to_string()]);
    assert_eq!(adapters.len(), 2);
    assert_eq!(adapters[1].name, "hci7");
    assert_eq!(adapters[1].bus, "stub");
    assert_eq!(adapters[1].device_path, "/scheme/usb/stub/hci7");
}

fn adapter(bus: &str, path: &str, vendor: u16, device: u16) -> redbear_drivers::btusb::UsbBluetoothAdapter {
    redbear_drivers::btusb::UsbBluetoothAdapter {
        name: String::new(),
        vendor_id: vendor,
        device_id: device,
        bus: bus.to_string(),
        device_path: path.to_string(),
        endpoints: Default::default(),
    }
}

#[test]
fn adapters_are_ordered_and_named() {
    let mut adapters = vec![
        adapter("usb.0000:00:15.0", "/scheme/usb/usb.0000:00:15.0/port3", 0x0bda, 0x1234),
        adapter("usb.0000:00:14.0", "/scheme/usb/usb.0000:00:14.0/port2", 0x8087, 0x0033),
        adapter("usb.0000:00:14.0", "/scheme/usb/usb.0000:00:14.0/port1", 0x8087, 0x0032),
        adapter("usb.0000:00:14.0", "/scheme/usb/usb.0000:00:14.0/port1", 0x0a5c, 0x0001),
    ];
    redbear_drivers::btusb_probe::order_adapters(&mut adapters);
    let got: Vec<(String, u16, u16)> =
        adapters.iter().map(|a| (a.name.clone(), a.vendor_id, a.device_id)).collect();
    assert_eq!(
        got,
        vec![
            ("hci0".to_string(), 0x0a5c, 0x0001),
            ("hci1".to_string(), 0x8087, 0x0032),
            ("hci2".to_string(), 0x8087, 0x0033),
            ("hci3".to_string(), 0x0bda, 0x1234),
        ]
    );
    assert!(adapters[3].device_path.ends_with("port3"));
}
