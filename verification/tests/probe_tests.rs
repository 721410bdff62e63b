use omniprobe::probe::{
    attach_plan, build_probe_id, chip_id_probe_addresses, classify_probe, collect_iface_caps,
    is_cmsis_dap_str, is_known_dap_vid, match_caps_for_probe, select_chip_id, CmsisDapCaps,
    ConnectOptions, UsbInterfaceInfo,
};
use omniprobe::session::{ConnectMode, InterfaceType};

fn iface(class: u8, s: Option<&str>) -> UsbInterfaceInfo {
    UsbInterfaceInfo {
        interface_number: 0,
        class,
        subclass: 0,
        protocol: 0,
        interface_string: s.map(|x| x.to_string()),
    }
}

#[test]
fn cmsis_dap_strings_match_case_insensitively() {
    assert!(is_cmsis_dap_str("CMSIS-DAP v2"));
    assert!(is_cmsis_dap_str("my cmsis_dap probe"));
    assert!(is_cmsis_dap_str("Cmsis-Dap"));
    assert!(!is_cmsis_dap_str("J-Link"));
    assert!(!is_cmsis_dap_str(""));
}

#[test]
fn known_vendor_ids() {
    assert!(is_known_dap_vid(0x0d28));
    assert!(is_known_dap_vid(0xfaed));
    assert!(is_known_dap_vid(0x0483));
    assert!(!is_known_dap_vid(0x1234));
}

#[test]
fn interface_classification_finds_both_transports() {
    let ifaces = vec![
        iface(0x03, Some("CMSIS-DAP v1")),
        iface(0xff, Some("CMSIS-DAP v2")),
        iface(0x0a, None),
    ];
    let (hid, v2) = collect_iface_caps(&ifaces, false);
    assert!(hid && v2);
    let (hid, v2) = collect_iface_caps(&vec![iface(0x03, None)], true);
    assert!(hid && !v2);
    let (hid, v2) = collect_iface_caps(&vec![iface(0x03, None)], false);
    assert!(!hid && !v2);
}

#[test]
fn dual_capability_probe_yields_one_combined_entry() {
    // A probe presenting both the HID and the WinUSB interface is one
    // entry whose capability names both transports.
    let cap = CmsisDapCaps {
        vendor_id: 0x0d28,
        product_id: 0x0204,
        serial_number: Some("SER1".to_string()),
        has_hid: true,
        has_v2: true,
        debug_info: "dual".to_string(),
    };
    let info = classify_probe(
        &"DAPLink".to_string(),
        0x0d28,
        0x0204,
        &Some("SER1".to_string()),
        &"CmsisDap".to_string(),
        Some(&cap),
    );
    assert_eq!(info.probe_type, "CmsisDap");
    assert_eq!(info.dap_version.as_deref(), Some("DAPv1+v2 (HID/WinUSB)"));
    assert_eq!(info.probe_id, "0d28:0204:SER1");
}

#[test]
fn single_transport_labels() {
    let mut cap = CmsisDapCaps {
        vendor_id: 1,
        product_id: 2,
        serial_number: None,
        has_hid: false,
        has_v2: true,
        debug_info: String::new(),
    };
    let v2 = classify_probe(&"p".to_string(), 1, 2, &None, &"t".to_string(), Some(&cap));
    assert_eq!(v2.probe_type, "CmsisDapV2");
    assert_eq!(v2.dap_version.as_deref(), Some("DAPv2 (WinUSB)"));
    cap.has_hid = true;
    cap.has_v2 = false;
    let v1 = classify_probe(&"p".to_string(), 1, 2, &None, &"t".to_string(), Some(&cap));
    assert_eq!(v1.probe_type, "CmsisDap");
    assert_eq!(v1.dap_version.as_deref(), Some("DAPv1 (HID)"));
}

#[test]
fn unmatched_probe_falls_back_to_type_string() {
    let info = classify_probe(
        &"probe".to_string(),
        9,
        9,
        &None,
        &"CmsisDapV2Device".to_string(),
        None,
    );
    assert_eq!(info.probe_type, "CmsisDapV2Device");
    assert_eq!(info.dap_version.as_deref(), Some("DAPv2 (WinUSB)"));
    let other = classify_probe(&"probe".to_string(), 9, 9, &None, &"StLink".to_string(), None);
    assert_eq!(other.dap_version, None);
}

#[test]
fn probe_id_pads_hex_fields() {
    assert_eq!(build_probe_id(0x0d28, 0x0204, &Some("ABC".to_string())), "0d28:0204:ABC");
    assert_eq!(build_probe_id(0xfaed, 0x1, &None), "faed:0001:");
}

#[test]
fn cap_matching_prefers_exact_serial() {
    let caps = vec![
        CmsisDapCaps {
            vendor_id: 1,
            product_id: 2,
            serial_number: Some("A".to_string()),
            has_hid: true,
            has_v2: false,
            debug_info: String::new(),
        },
        CmsisDapCaps {
            vendor_id: 1,
            product_id: 2,
            serial_number: Some("B".to_string()),
            has_hid: false,
            has_v2: true,
            debug_info: String::new(),
        },
    ];
    let hit = match_caps_for_probe(&caps, 1, 2, &Some("B".to_string())).unwrap();
    assert!(hit.has_v2 && !hit.has_hid);
    assert!(match_caps_for_probe(&caps, 1, 2, &Some("C".to_string())).is_none());
    // A serial-less probe falls back to the first entry of its ids.
    let fallback = match_caps_for_probe(&caps, 1, 2, &None).unwrap();
    assert!(fallback.has_hid);
}

#[test]
fn chip_id_walk_takes_first_valid_reading() {
    // Attaching an STM32F103C8Tx: the DBGMCU register at the first
    // probe address answers, and its device id field reads 0x410.
    let addrs = chip_id_probe_addresses();
    assert_eq!(addrs[0], 0xE004_2000);
    let reads = vec![Some(0x2003_6410u32), None, Some(0x1234_5678), None, None];
    let id = select_chip_id(&reads).unwrap();
    assert_eq!(id & 0x0000_0FFF, 0x410);
    // All-zero and all-one readings are skipped.
    let reads = vec![Some(0), Some(0xFFFF_FFFF), Some(0x4100_6413)];
    assert_eq!(select_chip_id(&reads), Some(0x4100_6413));
    assert_eq!(select_chip_id(&vec![Some(0), None]), None);
}

#[test]
fn attach_plan_converts_hertz_to_kilohertz() {
    // SWD at 1 000 000 Hz in Normal mode: the probe library is told
    // 1000 kHz and not to attach under reset.
    let plan = attach_plan(&ConnectOptions {
        probe_identifier: "0d28:0204:SER1".to_string(),
        target: "STM32F103C8Tx".to_string(),
        interface_type: InterfaceType::Swd,
        clock_speed: Some(1_000_000),
        connect_mode: ConnectMode::Normal,
    });
    assert_eq!(plan.protocol, InterfaceType::Swd);
    assert_eq!(plan.speed_khz, Some(1000));
    assert!(!plan.under_reset);
    let plan = attach_plan(&ConnectOptions {
        probe_identifier: String::new(),
        target: String::new(),
        interface_type: InterfaceType::Jtag,
        clock_speed: None,
        connect_mode: ConnectMode::UnderReset,
    });
    assert_eq!(plan.protocol, InterfaceType::Jtag);
    assert_eq!(plan.speed_khz, None);
    assert!(plan.under_reset);
}
