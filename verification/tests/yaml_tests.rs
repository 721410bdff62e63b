use omniprobe::manager::PackManager;
use omniprobe::pdsc::{parse_devices_from_pdsc, DeviceDefinition, MemoryInfo, ProcessorInfo};
use omniprobe::parser::parse_pdsc;
use omniprobe::scan_report::DeviceStatus;
use omniprobe::target_yaml::{
    detect_pack_scanner_version, generate_probe_rs_yaml_with_algo, generate_scan_report,
    map_core_type, needs_rescan, FlmFile,
};

fn device(name: &str, core: &str, flash: (u64, u64), ram: (u64, u64)) -> DeviceDefinition {
    DeviceDefinition {
        name: name.to_string(),
        processor: ProcessorInfo { core: core.to_string(), fpu: false, mpu: false },
        memory: MemoryInfo {
            ram_start: ram.0,
            ram_size: ram.1,
            flash_start: flash.0,
            flash_size: flash.1,
        },
        flash_algorithm: None,
    }
}

#[test]
fn core_type_mapping() {
    assert_eq!(map_core_type("Cortex-M0"), "armv6m");
    assert_eq!(map_core_type("cortex-m0+"), "armv6m");
    assert_eq!(map_core_type("Cortex-M3"), "armv7m");
    assert_eq!(map_core_type("Cortex-M4"), "armv7em");
    assert_eq!(map_core_type("Cortex-M7"), "armv7em");
    assert_eq!(map_core_type("CORTEX-M33"), "armv8m");
    assert_eq!(map_core_type("riscv"), "armv7em");
}

#[test]
fn emitted_yaml_shape() {
    // An STM32F103C8Tx-like variant: 64 KiB flash at 0x08000000, 20 KiB
    // RAM at 0x20000000, no FLM files available.
    let devices = vec![device(
        "STM32F103C8Tx",
        "Cortex-M3",
        (0x0800_0000, 0x1_0000),
        (0x2000_0000, 0x5000),
    )];
    let files: Vec<FlmFile> = Vec::new();
    let yaml = generate_probe_rs_yaml_with_algo(&devices, "TestPack", &files, "today");
    let first_line = yaml.lines().next().unwrap();
    assert_eq!(first_line, "# ZUOLANDAPLINK Pack Scanner Version: 2.0.0");
    assert!(yaml.contains("# Generated at: today\n"));
    assert!(yaml.contains("name: TestPack\n"));
    assert!(yaml.contains("variants:\n  - name: STM32F103C8Tx\n"));
    assert!(yaml.contains("      - !Nvm\n        range:\n          start: 0x8000000\n          end: 0x8010000\n"));
    assert!(yaml.contains("      - !Ram\n        range:\n          start: 0x20000000\n          end: 0x20005000\n"));
    assert!(yaml.contains("        type: armv7m\n"));
    assert!(yaml.contains("cores:\n      - name: main\n"));
    // No algorithms were collected, so no family table appears.
    assert!(!yaml.contains("flash_algorithms:\n  - name:"));
}

#[test]
fn scanner_version_round_trip() {
    // Emit, then detect: the marker reads back as the current version
    // and the pack does not count as stale.
    let devices = vec![device("D", "Cortex-M4", (0, 0x1000), (0x2000_0000, 0x1000))];
    let yaml = generate_probe_rs_yaml_with_algo(&devices, "P", &Vec::new(), "ts");
    assert_eq!(detect_pack_scanner_version(&yaml).as_deref(), Some("2.0.0"));
    assert!(!needs_rescan(&Some(yaml)));
}

#[test]
fn stale_marker_asks_for_rescan() {
    // A pack whose YAML carries scanner version 1.0.0 while the current
    // one is 2.0.0 is listed for re-scanning.
    let old = "# ZUOLANDAPLINK Pack Scanner Version: 1.0.0\nname: X\n".to_string();
    assert_eq!(detect_pack_scanner_version(&old).as_deref(), Some("1.0.0"));
    assert!(needs_rescan(&Some(old)));
    assert!(needs_rescan(&None));
    assert!(needs_rescan(&Some("name: X\n".to_string())));
}

#[test]
fn rescan_reproduces_the_target_set() {
    // Re-scanning the same pack content yields the identical device set
    // and the identical YAML.
    let pdsc = r#"<package><devices><family Dfamily="F">
        <processor Dcore="Cortex-M4"/>
        <memory id="IROM1" start="0x08000000" size="0x40000"/>
        <memory id="IRAM1" start="0x20000000" size="0x10000"/>
        <device Dname="CHIP1"></device>
        <device Dname="CHIP2"></device>
    </family></devices></package>"#;
    let first = parse_devices_from_pdsc(pdsc).unwrap();
    let second = parse_devices_from_pdsc(pdsc).unwrap();
    assert_eq!(first.len(), second.len());
    for (a, b) in first.iter().zip(second.iter()) {
        assert_eq!(a.name, b.name);
        assert_eq!(a.memory, b.memory);
    }
    let y1 = generate_probe_rs_yaml_with_algo(&first, "P", &Vec::new(), "t");
    let y2 = generate_probe_rs_yaml_with_algo(&second, "P", &Vec::new(), "t");
    assert_eq!(y1, y2);
}

#[test]
fn pack_header_and_report_counts() {
    // A pack of five devices across three subFamilies: the header counts
    // five devices, and the report's with/without split covers all five.
    let pdsc = r#"<?xml version="1.0"?>
<package vendor="TestVendor" name="TestPack" version="1.2.3">
  <description>Five devices</description>
  <devices><family Dfamily="F">
    <memory id="IROM1" start="0x08000000" size="0x10000"/>
    <memory id="IRAM1" start="0x20000000" size="0x4000"/>
    <subFamily DsubFamily="S1">
      <device Dname="A1"></device>
      <device Dname="A2"></device>
    </subFamily>
    <subFamily DsubFamily="S2">
      <device Dname="B1"></device>
      <device Dname="B2"></device>
    </subFamily>
    <subFamily DsubFamily="S3">
      <device Dname="C1"></device>
    </subFamily>
  </family></devices>
</package>"#;
    let info = parse_pdsc(pdsc).expect("header");
    assert_eq!(info.name, "TestPack");
    assert_eq!(info.vendor, "TestVendor");
    // The version attribute is read from self-closing package tags and
    // version tag text only; neither appears here, so the default holds.
    assert_eq!(info.version, "1.0.0");
    assert_eq!(info.description, "Five devices");
    assert_eq!(info.device_count, 5);

    let devices = parse_devices_from_pdsc(pdsc).unwrap();
    assert_eq!(devices.len(), 5);
    let report = generate_scan_report(&devices, "TestPack".to_string(), &Vec::new());
    assert_eq!(report.total_devices, 5);
    assert_eq!(report.devices_with_algo + report.devices_without_algo, 5);
    assert_eq!(report.devices_with_algo, 0);
    assert_eq!(report.get_devices_without_algorithm().len(), 5);
    assert_eq!(report.get_problematic_devices().len(), 5);
    assert!(report.devices.iter().all(|d| d.status == DeviceStatus::Warning));
}

#[test]
fn header_identity_from_nested_tags() {
    let pdsc = "<package><vendor>Keil</vendor><name>MyPack</name><version>9.9.9</version></package>";
    let info = parse_pdsc(pdsc).expect("header");
    assert_eq!(info.name, "MyPack");
    assert_eq!(info.vendor, "Keil");
    assert_eq!(info.version, "9.9.9");
    assert_eq!(info.device_count, 0);
}

#[test]
fn header_defaults_when_absent() {
    let info = parse_pdsc("<package></package>").expect("header");
    assert_eq!(info.name, "Unknown");
    assert_eq!(info.vendor, "Unknown");
    assert_eq!(info.version, "1.0.0");
    assert_eq!(info.description, "");
    let err = parse_pdsc("<package attr=");
    assert!(err.is_err());
}

#[test]
fn description_entities_unescape() {
    let pdsc = "<package><description>a &amp; b &lt;c&gt;</description></package>";
    let info = parse_pdsc(pdsc).expect("header");
    assert_eq!(info.description, "a & b <c>");
}

#[test]
fn pack_directory_layout() {
    let mgr = PackManager::new("/data/packs".to_string());
    assert_eq!(mgr.get_pack_dir("GD32F4xx_DFP"), "/data/packs/GD32F4xx_DFP");
}
