use redbear_drivers::iwlwifi::{
    action_name, activation_lines, activation_target, candidate_for, failure_message,
    firmware_to_load, host_connect, host_stage, intel_firmware_candidates, intel_wifi_ids,
    is_bz_family, kpi_check_lines, kpi_lines, kpi_unavailable, location_string, mac_access_request,
    parse_command, parse_slot_name, prepared_lines, probe_lines, reply_line, select_candidate,
    status_lines, transport_lines, Action, Candidate, DriverError, FailurePhase, HostStage,
    IwlCommand, KpiStage, PciLocation,
};

fn bz_config() -> Vec<u8> {
    let mut cfg = vec![0u8; 48];
    cfg[0x00] = 0x86;
    cfg[0x01] = 0x80;
    cfg[0x02] = 0x40;
    cfg[0x03] = 0x77;
    cfg[0x0A] = 0x80;
    cfg[0x0B] = 0x02;
    cfg[0x2E] = 0x90;
    cfg[0x2F] = 0x40;
    cfg
}

fn bz_candidate() -> Candidate {
    Candidate {
        location: PciLocation { segment: 0, bus: 0, device: 0x14, function: 3 },
        config_path: "/tmp/config".to_string(),
        device_id: 0x7740,
        subsystem_id: 0x4090,
        family: "intel-bz-arrow-lake".to_string(),
        ucode_candidates: vec!["iwlwifi-bz-b0-gf-a0-92.ucode".to_string()],
        selected_ucode: Some("iwlwifi-bz-b0-gf-a0-92.ucode".to_string()),
        pnvm_candidate: Some("iwlwifi-bz-b0-gf-a0.pnvm".to_string()),
        pnvm_found: Some("iwlwifi-bz-b0-gf-a0.pnvm".to_string()),
    }
}

fn prepared(candidate: &Candidate) -> Vec<String> {
    let (ucode, _pnvm) = match firmware_to_load(candidate) {
        Ok(plan) => plan,
        Err(err) => panic!("{}", err.message()),
    };
    prepared_lines(candidate, &ucode)
}

fn unsupported(err: DriverError) -> String {
    match err {
        DriverError::Unsupported(m) => m,
        DriverError::Pci(m) => panic!("unexpected PCI error {m}"),
    }
}

fn pci(err: DriverError) -> String {
    match err {
        DriverError::Pci(m) => m,
        DriverError::Unsupported(m) => panic!("unexpected unsupported error {m}"),
    }
}

#[test]
fn detects_intel_candidate() {
    let (device_id, subsystem_id) = intel_wifi_ids(&bz_config()).expect("an Intel Wi-Fi function");
    let location = parse_slot_name("0000--00--14.3").expect("a slot name");
    let (_, names, _) = intel_firmware_candidates(device_id, subsystem_id);
    let present: Vec<bool> = names
        .iter()
        .map(|name| name == "iwlwifi-bz-b0-gf-a0-92.ucode")
        .collect();
    let candidates = vec![candidate_for(
        location,
        "/scheme/pci/0000--00--14.3/config".to_string(),
        device_id,
        subsystem_id,
        &present,
        false,
    )];
    assert_eq!(candidates.len(), 1);
    assert_eq!(candidates[0].family, "intel-bz-arrow-lake");
    assert!(candidates[0]
        .ucode_candidates
        .iter()
        .any(|name| name.contains("iwlwifi-bz-b0-gf-a0-92.ucode")));
}

#[test]
fn prepare_candidate_reports_selected_firmware() {
    let lines = prepared(&bz_candidate());
    assert!(lines.iter().any(|line| line == "status=firmware-ready"));
    assert!(lines
        .iter()
        .any(|line| line.contains("selected_pnvm=iwlwifi-bz-b0-gf-a0.pnvm")));
    assert!(lines
        .iter()
        .any(|line| line.contains("selected_ucode=iwlwifi-bz-b0-gf-a0-92.ucode")));
}

#[test]
fn init_transport_candidate_reports_transport_ready() {
    let lines = host_stage(prepared(&bz_candidate()), HostStage::Transport);
    assert!(lines.iter().any(|line| line == "status=transport-ready"));
    assert!(lines
        .iter()
        .any(|line| line.contains("bar0_addr=host-skipped")));
}

#[test]
fn activate_candidate_reports_nic_activated() {
    let transport = host_stage(prepared(&bz_candidate()), HostStage::Transport);
    let lines = host_stage(transport, HostStage::Activate);
    assert!(lines.iter().any(|line| line == "status=nic-activated"));
    assert!(lines
        .iter()
        .any(|line| line.contains("activation=host-skipped")));
}

#[test]
fn scan_candidate_reports_scanning() {
    let transport = host_stage(prepared(&bz_candidate()), HostStage::Transport);
    let activated = host_stage(transport, HostStage::Activate);
    let lines = host_stage(activated, HostStage::Scan);
    assert!(lines.iter().any(|line| line == "status=scanning"));
    assert!(lines.iter().any(|line| line.contains("scan_result=")));
}

#[test]
fn connect_candidate_reports_associating() {
    let transport = host_stage(prepared(&bz_candidate()), HostStage::Transport);
    let activated = host_stage(transport, HostStage::Activate);
    let lines = host_connect(activated, "demo", "wpa2-psk", Some("secret"))
        .unwrap_or_else(|err| panic!("{}", err.message()));
    assert!(lines.iter().any(|line| line == "status=associating"));
    assert!(lines.iter().any(|line| line.contains("connect_result=")));
}

#[test]
fn retry_candidate_reports_device_detected() {
    let lines = host_stage(prepared(&bz_candidate()), HostStage::Retry);
    assert!(lines.iter().any(|line| line == "status=device-detected"));
    assert!(lines.iter().any(|line| line == "link_state=link=retrying"));
}

#[test]
fn cli_flow_reports_bounded_intel_progression() {
    let (device_id, subsystem_id) = intel_wifi_ids(&bz_config()).unwrap();
    let location = parse_slot_name("0000--00--14.3").unwrap();
    let candidate = candidate_for(
        location,
        "/scheme/pci/0000--00--14.3/config".to_string(),
        device_id,
        subsystem_id,
        &[true, false, false],
        true,
    );

    let status = status_lines(&candidate, firmware_to_load(&candidate).is_ok()).join("\n");
    assert!(status.contains("status=firmware-ready"));
    assert!(status.contains("selected_pnvm=iwlwifi-bz-b0-gf-a0.pnvm"));

    let prepare = prepared(&candidate).join("\n");
    assert!(prepare.contains("status=firmware-ready"));
    assert!(prepare.contains("selected_ucode=iwlwifi-bz-b0-gf-a0-92.ucode"));

    let init = host_stage(prepared(&candidate), HostStage::Transport);
    assert!(init.join("\n").contains("status=transport-ready"));
    assert!(init.join("\n").contains("bar0_addr=host-skipped"));

    let activate = host_stage(init, HostStage::Activate);
    assert!(activate.join("\n").contains("status=nic-activated"));
    assert!(activate.join("\n").contains("activation=host-skipped"));

    let args: Vec<String> = ["--connect", "0000:00:14.3", "demo", "wpa2-psk", "secret"]
        .iter()
        .map(|s| s.to_string())
        .collect();
    match parse_command(&args) {
        Some(IwlCommand::Connect { target, ssid, security, key }) => {
            let chosen = select_candidate(vec![candidate.clone()], target.as_deref())
                .unwrap_or_else(|err| panic!("{}", err.message()));
            let connect = host_connect(activate.clone(), &ssid, &security, key.as_deref())
                .unwrap_or_else(|err| panic!("{}", err.message()))
                .join("\n");
            assert_eq!(chosen.location, candidate.location);
            assert!(connect.contains("status=associating"));
            assert!(connect.contains("connect_result="));
        }
        _ => panic!("connect command expected"),
    }

    let disconnect = host_stage(activate, HostStage::Disconnect).join("\n");
    assert!(disconnect.contains("status=device-detected"));
    assert!(disconnect.contains("disconnect_result="));
}

#[test]
fn other_pci_functions_are_not_candidates() {
    let mut cfg = bz_config();
    assert_eq!(intel_wifi_ids(&cfg), Some((0x7740, 0x4090)));
    cfg[0x00] = 0xec;
    cfg[0x01] = 0x10;
    assert_eq!(intel_wifi_ids(&cfg), None);
    let mut ethernet = bz_config();
    ethernet[0x0A] = 0x00;
    assert_eq!(intel_wifi_ids(&ethernet), None);
    assert_eq!(intel_wifi_ids(&bz_config()[..47]), None);
}

#[test]
fn firmware_table_rows() {
    let (family, ucode, pnvm) = intel_firmware_candidates(0x7740, 0x1234);
    assert_eq!(family, "intel-bz-arrow-lake");
    assert_eq!(
        ucode,
        vec![
            "iwlwifi-bz-b0-fm-c0-92.ucode",
            "iwlwifi-bz-b0-fm-c0-94.ucode",
            "iwlwifi-bz-b0-fm-c0-100.ucode"
        ]
    );
    assert_eq!(pnvm.as_deref(), Some("iwlwifi-bz-b0-fm-c0.pnvm"));

    let (family, ucode, pnvm) = intel_firmware_candidates(0x7af0, 0x0030);
    assert_eq!(family, "intel-9462-9560");
    assert_eq!(ucode[1], "iwlwifi-9000-pu-b0-jf-b0-46.ucode");
    assert_eq!(pnvm.as_deref(), Some("iwlwifi-so-a0-jf-b0.pnvm"));

    let (family, ucode, pnvm) = intel_firmware_candidates(0x7af0, 0x4070);
    assert_eq!(family, "intel-ax201");
    assert_eq!(ucode, vec!["iwlwifi-so-a0-hr-b0-64.ucode"]);
    assert_eq!(pnvm.as_deref(), Some("iwlwifi-so-a0-hr-b0.pnvm"));

    let (family, ucode, pnvm) = intel_firmware_candidates(0x7af0, 0x1111);
    assert_eq!(family, "intel-unknown");
    assert_eq!(ucode, vec!["iwlwifi-unknown"]);
    assert_eq!(pnvm, None);

    let (family, _, _) = intel_firmware_candidates(0x2725, 0x0024);
    assert_eq!(family, "intel-ax210");
}

#[test]
fn slot_names_parse_or_name_the_bad_field() {
    assert_eq!(
        parse_slot_name("00a1--3f--1c.7").ok(),
        Some(PciLocation { segment: 0xa1, bus: 0x3f, device: 0x1c, function: 7 })
    );
    assert_eq!(pci(parse_slot_name("0000-00-14.3").unwrap_err()), "invalid PCI scheme entry 0000-00-14.3");
    assert_eq!(pci(parse_slot_name("0000--0014.3").unwrap_err()), "invalid PCI scheme entry 0000--0014.3");
    assert_eq!(pci(parse_slot_name("zz--00--14.3").unwrap_err()), "invalid segment in zz--00--14.3");
    assert_eq!(pci(parse_slot_name("0000--100--14.3").unwrap_err()), "invalid bus in 0000--100--14.3");
    assert_eq!(pci(parse_slot_name("0000--00--14").unwrap_err()), "invalid device/function in 0000--00--14");
    assert_eq!(pci(parse_slot_name("0000--00--g4.3").unwrap_err()), "invalid device in 0000--00--g4.3");
    assert_eq!(pci(parse_slot_name("0000--00--14.").unwrap_err()), "invalid function in 0000--00--14.");
}

#[test]
fn locations_are_written_in_hex() {
    let l = PciLocation { segment: 0x1a, bus: 0xb0, device: 0x1f, function: 0xc };
    assert_eq!(location_string(l), "001a:b0:1f.c");
}

#[test]
fn selection_by_location_or_first() {
    let mut second = bz_candidate();
    second.location = PciLocation { segment: 0, bus: 2, device: 0, function: 0 };
    let both = vec![bz_candidate(), second.clone()];
    let chosen = select_candidate(both.clone(), Some("0000:02:00.0")).ok().unwrap();
    assert_eq!(chosen.location, second.location);
    let chosen = select_candidate(both.clone(), None).ok().unwrap();
    assert_eq!(chosen.location, bz_candidate().location);
    assert_eq!(
        unsupported(select_candidate(both, Some("0000:09:00.0")).unwrap_err()),
        "no Intel Wi-Fi candidate matches 0000:09:00.0"
    );
    assert_eq!(
        unsupported(select_candidate(Vec::new(), None).unwrap_err()),
        "no supported Intel Wi-Fi candidates detected"
    );
}

#[test]
fn present_files_decide_the_selection() {
    let location = PciLocation { segment: 0, bus: 0, device: 0x14, function: 3 };
    let c = candidate_for(location, "cfg".to_string(), 0x7740, 0x4090, &[false, true, true], true);
    assert_eq!(c.selected_ucode.as_deref(), Some("iwlwifi-bz-b0-gf-a0-94.ucode"));
    assert_eq!(c.pnvm_found.as_deref(), Some("iwlwifi-bz-b0-gf-a0.pnvm"));
    let none = candidate_for(location, "cfg".to_string(), 0x7740, 0x4090, &[false, false, false], false);
    assert_eq!(none.selected_ucode, None);
    assert_eq!(none.pnvm_found, None);
    assert_eq!(
        unsupported(firmware_to_load(&none).unwrap_err()),
        "missing firmware for intel-bz-arrow-lake (expected one of: iwlwifi-bz-b0-gf-a0-92.ucode, iwlwifi-bz-b0-gf-a0-94.ucode, iwlwifi-bz-b0-gf-a0-100.ucode)"
    );
}

#[test]
fn status_report_lines() {
    let mut c = bz_candidate();
    c.pnvm_found = None;
    assert_eq!(
        status_lines(&c, false),
        vec![
            "device=0000:00:14.3",
            "config_path=/tmp/config",
            "device_id=0x7740",
            "subsystem_id=0x4090",
            "family=intel-bz-arrow-lake",
            "selected_ucode=iwlwifi-bz-b0-gf-a0-92.ucode",
            "selected_pnvm=iwlwifi-bz-b0-gf-a0.pnvm",
            "status=device-detected",
        ]
    );
    c.pnvm_candidate = None;
    c.selected_ucode = None;
    let lines = status_lines(&c, true);
    assert_eq!(lines[5], "selected_ucode=missing");
    assert_eq!(lines[6], "selected_pnvm=none");
    assert_eq!(lines[7], "status=firmware-ready");
}

#[test]
fn connect_requests_are_checked() {
    let refused = |ssid: &str, security: &str, key: Option<&str>| {
        unsupported(host_connect(Vec::new(), ssid, security, key).unwrap_err())
    };
    assert_eq!(refused("", "open", None), "missing ssid");
    assert_eq!(refused("net", "wep", None), "unsupported security wep");
    assert_eq!(refused("net", "wpa2-psk", None), "missing key");
    assert_eq!(refused("net", "wpa2-psk", Some("")), "missing key");
    let open = host_connect(vec!["x".to_string()], "net", "open", None).ok().unwrap();
    assert_eq!(
        open,
        vec![
            "x",
            "status=associating",
            "connect_result=host-bounded-pending ssid=net security=open"
        ]
    );
}

#[test]
fn hardware_transport_and_activation_reports() {
    assert!(is_bz_family("intel-bz-arrow-lake"));
    assert!(!is_bz_family("intel-ax210"));
    assert_eq!(mac_access_request("intel-bz-arrow-lake"), 0x0020_0000);
    assert_eq!(mac_access_request("intel-ax211"), 0x0000_0008);
    assert_eq!(activation_target("intel-bz-arrow-lake"), (0x024, 0x8000_0000));
    assert_eq!(activation_target("intel-ax201"), (0x020, 0x0000_0080));

    let lines = transport_lines(Vec::new(), 0xfe00_0000, 0x4000, Some(17), 0x8, 0x9, 0x4);
    assert_eq!(
        lines,
        vec![
            "status=transport-ready",
            "bar0_addr=0xfe000000",
            "bar0_size=0x4000",
            "irq=17",
            "gp_cntrl_before=0x00000008",
            "gp_cntrl_after=0x00000009",
            "hw_if_config=0x00000004",
            "mac_clock_ready=yes",
            "nic_ready=yes",
        ]
    );
    let lines = transport_lines(Vec::new(), 0, 0, None, 0, 0, 0);
    assert_eq!(lines[3], "irq=none");
    assert_eq!(lines[7], "mac_clock_ready=no");

    let bz = activation_lines(Vec::new(), "intel-bz-arrow-lake", 0x1, 0x8000_0005);
    assert_eq!(
        bz,
        vec![
            "status=nic-activated",
            "activation_method=gp-cntrl-sw-reset",
            "activation_before=0x00000001",
            "activation_after=0x80000005",
            "init_done=yes",
        ]
    );
    let older = activation_lines(Vec::new(), "intel-ax210", 0x0, 0x80);
    assert_eq!(older.len(), 4);
    assert_eq!(older[1], "activation_method=csr-reset-sw-reset");
}

#[test]
fn probe_report_lines() {
    let mut c = bz_candidate();
    c.ucode_candidates.push("iwlwifi-bz-b0-gf-a0-94.ucode".to_string());
    assert_eq!(
        probe_lines(&vec![c]),
        vec![
            "candidates=1",
            "device=0000:00:14.3 family=intel-bz-arrow-lake ucode_selected=iwlwifi-bz-b0-gf-a0-92.ucode pnvm=iwlwifi-bz-b0-gf-a0.pnvm ucode_candidates=iwlwifi-bz-b0-gf-a0-92.ucode,iwlwifi-bz-b0-gf-a0-94.ucode",
        ]
    );
    assert_eq!(probe_lines(&Vec::new()), vec!["candidates=0"]);
}

#[test]
fn port_replies_and_reports() {
    let mut out = vec![0u8; 16];
    out[..9].copy_from_slice(b" ready=1\n");
    assert_eq!(reply_line(&out), "ready=1");
    assert_eq!(reply_line(&[0, 0, b'a', 0]), "a");
    assert_eq!(reply_line(&[0, 0]), "");

    let c = bz_candidate();
    assert_eq!(
        kpi_lines(&c, Vec::new(), KpiStage::Prepare, "fw=ok".to_string()),
        vec!["device=0000:00:14.3", "family=intel-bz-arrow-lake", "status=firmware-ready", "fw=ok"]
    );
    assert_eq!(
        kpi_lines(&c, vec!["a".to_string()], KpiStage::Connect, "assoc".to_string()),
        vec!["a", "status=associating", "assoc"]
    );
    assert_eq!(
        kpi_lines(&c, vec!["a".to_string()], KpiStage::Activate, "on".to_string()),
        vec!["a", "on", "status=nic-activated"]
    );
    assert_eq!(
        unsupported(kpi_unavailable(KpiStage::Scan, -19)),
        "linux-kpi scan path unavailable (-19)"
    );
    let status = vec![
        "device=0000:00:14.3".to_string(),
        "linux_kpi_status=irq-ok".to_string(),
        "family=x".to_string(),
    ];
    assert_eq!(
        kpi_check_lines(vec!["full".to_string()], &status, true),
        vec!["full", "linux_kpi_status=irq-ok", "irq_test=pass"]
    );
    assert_eq!(
        kpi_check_lines(Vec::new(), &status, false),
        vec!["linux_kpi_status=irq-ok", "dma_test=pass"]
    );
}

#[test]
fn command_lines_and_failures() {
    let args = |v: &[&str]| -> Vec<String> { v.iter().map(|s| s.to_string()).collect() };
    assert!(matches!(parse_command(&args(&["--probe"])), Some(IwlCommand::Probe)));
    match parse_command(&args(&["--full-init", "0000:00:14.3"])) {
        Some(IwlCommand::Device { action, target }) => {
            assert_eq!(action, Action::FullInit);
            assert_eq!(target.as_deref(), Some("0000:00:14.3"));
        }
        _ => panic!("device command expected"),
    }
    match parse_command(&args(&["--connect"])) {
        Some(IwlCommand::Connect { target, ssid, security, key }) => {
            assert_eq!(target, None);
            assert_eq!(ssid, "");
            assert_eq!(security, "open");
            assert_eq!(key, None);
        }
        _ => panic!("connect command expected"),
    }
    assert!(parse_command(&args(&[])).is_none());
    assert!(parse_command(&args(&["--bogus"])).is_none());
    assert_eq!(action_name(Action::ActivateNic), "activate-nic");
    let err = DriverError::Unsupported("missing ssid".to_string());
    assert_eq!(
        failure_message("connect", FailurePhase::Run, &err),
        "redbear-iwlwifi: connect failed: Unsupported device: missing ssid"
    );
    assert_eq!(
        failure_message("scan", FailurePhase::Selection, &DriverError::Pci("x".to_string())),
        "redbear-iwlwifi: scan selection failed: PCI error: x"
    );
}
