use omniprobe::app_config::{get_custom_packs_dir, set_custom_packs_dir, AppConfig};
use omniprobe::pdsc::parse_hex_or_dec;
use omniprobe::registry::get_fallback_chip;
use omniprobe::error::AppError;
use omniprobe::memory::RamImage;
use omniprobe::progress::{PackScanProgress, ScanPhase};
use omniprobe::scan_report::{AlgorithmInfo, DeviceReport, DeviceStatus, PackScanReport};
use omniprobe::session::{
    ConnectionInfo, DeviceSettings, RttState, SerialState, SessionSlot,
};
use omniprobe::udev::{check_udev_rules_installed, get_manual_install_instructions, udev_rule_paths};

fn info(target: &str) -> ConnectionInfo {
    ConnectionInfo {
        probe_name: "probe".to_string(),
        probe_serial: None,
        target_name: target.to_string(),
        core_type: "armv7m".to_string(),
        chip_id: Some(0x410),
        target_idcode: Some(0x1BA01477),
    }
}

#[test]
fn slot_replacement_releases_the_predecessor() {
    // Replacing an occupied slot hands the old session back for release
    // and stamps the newcomer with a strictly newer generation, so no
    // event of the new session can be read against the old one.
    let mut slot = SessionSlot::new();
    assert!(!slot.is_occupied());
    assert!(slot.replace(info("STM32F103C8Tx")).is_none());
    assert!(slot.is_occupied());
    assert_eq!(slot.info().unwrap().target_name, "STM32F103C8Tx");
    let released = slot.replace(info("GD32F407")).expect("old session handed back");
    assert_eq!(released.info.target_name, "STM32F103C8Tx");
    assert_eq!(released.generation, 0);
    assert_eq!(slot.info().unwrap().target_name, "GD32F407");
    let cleared = slot.clear().expect("occupant");
    assert_eq!(cleared.generation, 1);
    assert_ne!(cleared.generation, released.generation);
    assert!(!slot.is_occupied());
}

#[test]
fn ram_model_write_then_read_round_trips() {
    // Writing RAM and reading the same addresses back yields the very
    // bytes written.
    let mut ram = RamImage::new(0x2000_0000, 0x1000);
    let data: Vec<u8> = (0u8..32).collect();
    ram.write_bytes(0x2000_0100, &data);
    assert_eq!(ram.read_bytes(0x2000_0100, 32), data);
    // Neighbouring bytes stay untouched.
    assert_eq!(ram.read_bytes(0x2000_00FF, 1), vec![0]);
    assert_eq!(ram.read_bytes(0x2000_0120, 1), vec![0]);
}

#[test]
fn device_settings_default() {
    let s = DeviceSettings::default();
    assert_eq!(s.clock_speed, 1_000_000);
    assert_eq!(s.voltage_mv, 3300);
}

#[test]
fn rtt_and_serial_state_flags() {
    let mut rtt = RttState::default();
    assert!(!rtt.is_running());
    assert_eq!(rtt.poll_interval_ms, 10);
    rtt.set_running(true);
    rtt.control_block_address = Some(0x2000_0100);
    assert!(rtt.is_running());
    rtt.reset();
    assert!(!rtt.is_running());
    assert_eq!(rtt.control_block_address, None);

    let mut ser = SerialState::default();
    ser.set_running(true);
    assert!(ser.is_running());
    ser.reset();
    assert!(!ser.is_running());
}

#[test]
fn scan_report_counts_and_stats() {
    let mut report = PackScanReport::new("P".to_string());
    let algo = AlgorithmInfo {
        name: "ALG_64".to_string(),
        flm_file: "ALG.FLM".to_string(),
        page_size: 1024,
        sector_count: 16,
    };
    for (name, has_algo, flash) in [
        ("A", true, 0x10000u64),
        ("B", true, 0x10000),
        ("C", false, 0x10000),
        ("D", false, 0),
    ] {
        report.add_device(DeviceReport {
            name: name.to_string(),
            core: "Cortex-M3".to_string(),
            flash_start: 0x0800_0000,
            flash_size: flash,
            ram_start: 0x2000_0000,
            ram_size: 0x5000,
            algorithm: if has_algo { Some(algo.clone()) } else { None },
            status: if has_algo || flash == 0 { DeviceStatus::Normal } else { DeviceStatus::Warning },
        });
    }
    assert_eq!(report.total_devices, 4);
    assert_eq!(report.devices_with_algo, 2);
    assert_eq!(report.devices_without_algo, 1);
    assert_eq!(report.get_devices_without_algorithm(), vec!["C".to_string()]);
    assert_eq!(report.get_problematic_devices().len(), 1);
    report.calculate_algorithm_stats();
    assert_eq!(report.algorithm_stats.len(), 1);
    assert_eq!(report.algorithm_stats[0].algorithm_name, "ALG_64");
    assert_eq!(report.algorithm_stats[0].device_count, 2);
    assert_eq!(report.algorithm_stats[0].devices, vec!["A".to_string(), "B".to_string()]);
}

#[test]
fn algorithm_stats_order_by_use() {
    let mut report = PackScanReport::new("P".to_string());
    for (name, algo_name) in [("A", "X"), ("B", "Y"), ("C", "Y"), ("D", "Y"), ("E", "X")] {
        report.add_device(DeviceReport {
            name: name.to_string(),
            core: String::new(),
            flash_start: 0,
            flash_size: 0x1000,
            ram_start: 0,
            ram_size: 0,
            algorithm: Some(AlgorithmInfo {
                name: algo_name.to_string(),
                flm_file: String::new(),
                page_size: 256,
                sector_count: 1,
            }),
            status: DeviceStatus::Normal,
        });
    }
    report.calculate_algorithm_stats();
    assert_eq!(report.algorithm_stats.len(), 2);
    assert_eq!(report.algorithm_stats[0].algorithm_name, "Y");
    assert_eq!(report.algorithm_stats[0].device_count, 3);
    assert_eq!(report.algorithm_stats[1].algorithm_name, "X");
    assert_eq!(report.algorithm_stats[1].device_count, 2);
}

#[test]
fn progress_reports_weighting() {
    let p = PackScanProgress::new(ScanPhase::Parsing, 0, 1, "".to_string());
    assert_eq!(p.overall_permille(), 0);
    let p = PackScanProgress::new(ScanPhase::ExtractingDevices, 5, 10, "".to_string())
        .with_item("dev".to_string());
    assert_eq!(p.current_item, "dev");
    assert_eq!(p.phase_permille(), 500);
    assert_eq!(p.overall_permille(), 100 + 500 * 400 / 1000);
    let p = PackScanProgress::new(ScanPhase::Complete, 1, 1, "".to_string());
    assert_eq!(p.overall_permille(), 1000);
}

#[test]
fn udev_rule_locations_and_verdict() {
    let paths = udev_rule_paths();
    assert_eq!(paths.len(), 3);
    assert_eq!(paths[0], "/etc/udev/rules.d/99-zuolan-daplink.rules");
    assert!(check_udev_rules_installed(&vec![false, true, false]));
    assert!(!check_udev_rules_installed(&vec![false, false, false]));
    assert!(!check_udev_rules_installed(&Vec::new()));
    assert!(get_manual_install_instructions().contains("udevadm"));
}

#[test]
fn custom_packs_dir_setting() {
    let mut cfg = AppConfig::default();
    assert!(get_custom_packs_dir(&cfg).is_none());
    set_custom_packs_dir(&mut cfg, Some("/mnt/packs".to_string()));
    assert_eq!(get_custom_packs_dir(&cfg).as_deref(), Some("/mnt/packs"));
    set_custom_packs_dir(&mut cfg, None);
    assert!(get_custom_packs_dir(&cfg).is_none());
}

#[test]
fn fallback_chip_rule() {
    assert_eq!(get_fallback_chip("GD32F470ZGT6").as_deref(), Some("GD32F407"));
    assert_eq!(get_fallback_chip("gd32f450vgt6").as_deref(), Some("GD32F407"));
    assert_eq!(get_fallback_chip("GD32F407VET6"), None);
    assert_eq!(get_fallback_chip("STM32F103C8Tx"), None);
    assert_eq!(get_fallback_chip(""), None);
}

#[test]
fn numeral_parsing() {
    assert_eq!(parse_hex_or_dec("0x08000000"), Some(0x0800_0000));
    assert_eq!(parse_hex_or_dec("0X20000"), Some(0x20000));
    assert_eq!(parse_hex_or_dec("4096"), Some(4096));
    assert_eq!(parse_hex_or_dec("  4096  "), Some(4096));
    assert_eq!(parse_hex_or_dec("+15"), Some(15));
    assert_eq!(parse_hex_or_dec("0xFFFFFFFFFFFFFFFF"), Some(u64::MAX));
    assert_eq!(parse_hex_or_dec("0x10000000000000000"), None);
    assert_eq!(parse_hex_or_dec(""), None);
    assert_eq!(parse_hex_or_dec("0x"), None);
    assert_eq!(parse_hex_or_dec("12ab"), None);
}

#[test]
fn error_kinds_and_details() {
    let e = AppError::PackError("broken".to_string());
    assert_eq!(e.kind_label(), "pack");
    assert_eq!(e.detail(), "broken");
    assert_eq!(AppError::NotConnected.kind_label(), "not-connected");
    assert_eq!(AppError::NotConnected.detail(), "");
    assert!(matches!(AppError::RttError("x".into()), AppError::RttError(_)));
}
