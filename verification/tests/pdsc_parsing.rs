use omniprobe::pdsc::{parse_devices_from_pdsc, parse_devices_with_progress};

#[test]
fn test_multiple_subfamily_parsing() {
    let pdsc_content = r#"<?xml version="1.0" encoding="UTF-8"?>
<package>
  <devices>
    <family Dfamily="TestFamily">
      <subFamily DsubFamily="SubFamily1">
        <device Dname="Device1A">
          <processor Dcore="Cortex-M4" Dfpu="1" Dmpu="0"/>
          <memory id="IROM1" start="0x08000000" size="0x100000"/>
          <memory id="IRAM1" start="0x20000000" size="0x20000"/>
        </device>
        <device Dname="Device1B">
          <processor Dcore="Cortex-M4" Dfpu="1" Dmpu="0"/>
          <memory id="IROM1" start="0x08000000" size="0x200000"/>
          <memory id="IRAM1" start="0x20000000" size="0x40000"/>
        </device>
      </subFamily>
      <subFamily DsubFamily="SubFamily2">
        <device Dname="Device2A">
          <processor Dcore="Cortex-M4" Dfpu="1" Dmpu="0"/>
          <memory id="IROM1" start="0x08000000" size="0x100000"/>
          <memory id="IRAM1" start="0x20000000" size="0x20000"/>
        </device>
        <device Dname="Device2B">
          <processor Dcore="Cortex-M4" Dfpu="1" Dmpu="0"/>
          <memory id="IROM1" start="0x08000000" size="0x200000"/>
          <memory id="IRAM1" start="0x20000000" size="0x40000"/>
        </device>
      </subFamily>
      <subFamily DsubFamily="SubFamily3">
        <device Dname="Device3A">
          <processor Dcore="Cortex-M4" Dfpu="1" Dmpu="0"/>
          <memory id="IROM1" start="0x08000000" size="0x100000"/>
          <memory id="IRAM1" start="0x20000000" size="0x20000"/>
        </device>
      </subFamily>
    </family>
  </devices>
</package>"#;

    let devices = parse_devices_from_pdsc(pdsc_content).expect("parse failed");

    assert_eq!(
        devices.len(),
        5,
        "expected 5 devices, parsed {}",
        devices.len()
    );

    let device_names: Vec<String> = devices.iter().map(|d| d.name.clone()).collect();
    assert!(device_names.contains(&"Device1A".to_string()));
    assert!(device_names.contains(&"Device1B".to_string()));
    assert!(device_names.contains(&"Device2A".to_string()));
    assert!(device_names.contains(&"Device2B".to_string()));
    assert!(device_names.contains(&"Device3A".to_string()));

    println!("parsed devices: {:?}", device_names);
}

#[test]
fn test_progress_callback() {
    let pdsc_content = r#"<?xml version="1.0" encoding="UTF-8"?>
<package>
  <devices>
    <family Dfamily="TestFamily">
      <device Dname="TestDevice">
        <processor Dcore="Cortex-M4" Dfpu="1" Dmpu="0"/>
        <memory id="IROM1" start="0x08000000" size="0x100000"/>
        <memory id="IRAM1" start="0x20000000" size="0x20000"/>
      </device>
    </family>
  </devices>
</package>"#;

    let (devices, progress) = parse_devices_with_progress(pdsc_content).expect("parse failed");

    assert_eq!(devices.len(), 1);

    let log: Vec<String> = progress
        .iter()
        .map(|p| format!("{:?}: {}", p.phase, p.message))
        .collect();
    assert!(!log.is_empty(), "progress reports expected");

    println!("progress log:");
    for entry in log.iter() {
        println!("  {}", entry);
    }
}

#[test]
fn family_level_memory_inherited_by_device() {
    let pdsc_content = r#"<?xml version="1.0"?>
<package>
  <devices>
    <family Dfamily="F">
      <processor Dcore="Cortex-M3"/>
      <memory id="IROM1" start="0x08000000" size="0x10000" default="1"/>
      <memory id="IRAM1" start="0x20000000" size="0x5000"/>
      <device Dname="OnlyChild"></device>
    </family>
  </devices>
</package>"#;

    let devices = parse_devices_from_pdsc(pdsc_content).expect("parse failed");
    assert_eq!(devices.len(), 1);
    let d = &devices[0];
    assert_eq!(d.name, "OnlyChild");
    assert_eq!(d.processor.core, "Cortex-M3");
    assert_eq!(d.memory.flash_start, 0x0800_0000);
    assert_eq!(d.memory.flash_size, 0x10000);
    assert_eq!(d.memory.ram_start, 0x2000_0000);
    assert_eq!(d.memory.ram_size, 0x5000);
}

#[test]
fn device_level_overrides_win() {
    let pdsc_content = r#"<?xml version="1.0"?>
<package>
  <devices>
    <family Dfamily="F">
      <processor Dcore="Cortex-M0"/>
      <memory id="IROM1" start="0x08000000" size="0x8000"/>
      <subFamily DsubFamily="S">
        <processor Dcore="Cortex-M4" Dfpu="1"/>
        <algorithm name="Flash/family.FLM"/>
        <device Dname="Override">
          <processor Dcore="Cortex-M7" Dfpu="sp_fpu" Dmpu="true"/>
          <memory name="FLASH" start="0x08000000" size="0x100000" default="1"/>
          <memory name="SRAM" start="0x20000000" size="0x20000"/>
          <algorithm name="Flash/device.FLM"/>
        </device>
      </subFamily>
    </family>
  </devices>
</package>"#;

    let devices = parse_devices_from_pdsc(pdsc_content).expect("parse failed");
    assert_eq!(devices.len(), 1);
    let d = &devices[0];
    assert_eq!(d.processor.core, "Cortex-M7");
    assert!(d.processor.fpu);
    assert!(d.processor.mpu);
    assert_eq!(d.memory.flash_size, 0x100000);
    assert_eq!(d.flash_algorithm.as_deref(), Some("Flash/device.FLM"));
}

#[test]
fn main_sram_preferred_over_tcm() {
    let pdsc_content = r#"<?xml version="1.0"?>
<package>
  <devices>
    <family Dfamily="F">
      <device Dname="TcmChip">
        <memory id="IRAM1" start="0x10000000" size="0x10000"/>
        <memory id="IRAM2" start="0x20000000" size="0x8000"/>
        <memory id="IROM1" start="0x08000000" size="0x20000"/>
      </device>
    </family>
  </devices>
</package>"#;

    let devices = parse_devices_from_pdsc(pdsc_content).expect("parse failed");
    assert_eq!(devices.len(), 1);
    assert_eq!(devices[0].memory.ram_start, 0x2000_0000);
    assert_eq!(devices[0].memory.ram_size, 0x8000);
}

#[test]
fn malformed_document_is_rejected() {
    let err = parse_devices_from_pdsc("<devices><device Dname=");
    assert!(err.is_err());
}

#[test]
fn empty_names_do_not_emit_devices() {
    let pdsc_content = r#"<package><devices><family Dfamily="F">
      <device Dname=""><memory id="IROM1" start="0x0" size="0x100"/></device>
    </family></devices></package>"#;
    let devices = parse_devices_from_pdsc(pdsc_content).expect("parse failed");
    assert_eq!(devices.len(), 0);
}
