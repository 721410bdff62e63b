use omniprobe::flash::{
    bin_base_address, completion_events, detect_format, download_plan, final_flash_event,
    verify_firmware_bytes, EraseMode, FlashOptions, ImageFormat, LoaderEvent, ProgressOperation,
    ProgressState,
};

fn options(erase_mode: EraseMode, skip_erase: bool) -> FlashOptions {
    FlashOptions {
        file_path: "app.bin".to_string(),
        verify: true,
        skip_erase,
        reset_after: true,
        erase_mode,
        use_custom_address: None,
        custom_flash_address: None,
        custom_flash_size: None,
        flash_algorithm: None,
        preverify: false,
    }
}

#[test]
fn format_detection_by_extension() {
    assert_eq!(detect_format(&Some("hex".to_string())), ImageFormat::Hex);
    assert_eq!(detect_format(&Some("ihex".to_string())), ImageFormat::Hex);
    assert_eq!(detect_format(&Some("bin".to_string())), ImageFormat::Bin);
    assert_eq!(detect_format(&Some("elf".to_string())), ImageFormat::Elf);
    assert_eq!(detect_format(&Some("axf".to_string())), ImageFormat::Elf);
    assert_eq!(detect_format(&Some("out".to_string())), ImageFormat::Elf);
    assert_eq!(detect_format(&Some("xyz".to_string())), ImageFormat::Elf);
    assert_eq!(detect_format(&None), ImageFormat::Elf);
}

#[test]
fn bin_base_address_defaults() {
    assert_eq!(bin_base_address(Some(true), Some(0x0810_0000), Some(0x0800_0000)), 0x0810_0000);
    assert_eq!(bin_base_address(Some(true), None, Some(0x0800_4000)), 0x0800_0000);
    assert_eq!(bin_base_address(None, Some(0x0810_0000), Some(0x0800_4000)), 0x0800_4000);
    assert_eq!(bin_base_address(Some(false), None, None), 0x0800_0000);
}

#[test]
fn download_plan_erase_modes() {
    let p = download_plan(&options(EraseMode::ChipErase, false));
    assert!(p.do_chip_erase && !p.skip_erase && p.verify && !p.preverify);
    let p = download_plan(&options(EraseMode::SectorErase, false));
    assert!(!p.do_chip_erase && !p.skip_erase);
    let p = download_plan(&options(EraseMode::ChipErase, true));
    assert!(!p.do_chip_erase && p.skip_erase);
}

#[test]
fn progress_is_monotone_over_a_flash_run() {
    // A 4096-byte image written in SectorErase mode with verify and
    // reset: the fractions never fall, start in init and end complete.
    let mut st = ProgressState::new();
    let script = vec![
        LoaderEvent::FlashLayoutReady,
        LoaderEvent::AddProgressBar { operation: ProgressOperation::Erase, total: Some(4096) },
        LoaderEvent::AddProgressBar { operation: ProgressOperation::Program, total: Some(4096) },
        LoaderEvent::Started(ProgressOperation::Erase),
        LoaderEvent::Progress { operation: ProgressOperation::Erase, size: 2048 },
        LoaderEvent::Progress { operation: ProgressOperation::Erase, size: 2048 },
        LoaderEvent::Finished(ProgressOperation::Erase),
        LoaderEvent::Started(ProgressOperation::Program),
        LoaderEvent::Progress { operation: ProgressOperation::Program, size: 1024 },
        LoaderEvent::Progress { operation: ProgressOperation::Program, size: 3072 },
        LoaderEvent::Finished(ProgressOperation::Program),
    ];
    let mut phases: Vec<&'static str> = Vec::new();
    let mut last = 0u32;
    for ev in script.iter() {
        let phase = st.apply_event(ev);
        let now = st.calculate_progress();
        assert!(now >= last, "progress fell from {last} to {now}");
        last = now;
        phases.push(phase);
    }
    assert_eq!(phases[0], "init");
    assert_eq!(last, 9000);
    let trailing = completion_events(true);
    assert_eq!(trailing.len(), 3);
    for ev in trailing.iter() {
        assert!(ev.progress >= last);
        last = ev.progress;
    }
    let end = trailing.last().unwrap();
    assert_eq!(end.phase, "complete");
    assert_eq!(end.progress, 10000);
}

#[test]
fn final_event_is_exactly_complete_or_error() {
    let ok = final_flash_event(true);
    assert_eq!(ok.phase, "complete");
    assert_eq!(ok.progress, 10000);
    let bad = final_flash_event(false);
    assert_eq!(bad.phase, "error");
}

#[test]
fn verify_passes_on_identical_bytes() {
    let image = vec![0xAAu8; 4096];
    let read_back = vec![0xAAu8; 4096];
    assert_eq!(verify_firmware_bytes(&image, &read_back, 0x0800_0000), None);
}

#[test]
fn verify_reports_the_modified_address() {
    let image = vec![0xAAu8; 4096];
    let mut read_back = image.clone();
    read_back[1234] ^= 0x01;
    assert_eq!(
        verify_firmware_bytes(&image, &read_back, 0x0800_0000),
        Some(0x0800_0000 + 1234)
    );
}

#[test]
fn erase_progress_stretches_total_on_overrun() {
    let mut st = ProgressState::new();
    st.apply_event(&LoaderEvent::AddProgressBar {
        operation: ProgressOperation::Erase,
        total: Some(100),
    });
    st.apply_event(&LoaderEvent::Progress { operation: ProgressOperation::Erase, size: 150 });
    assert_eq!(st.erase_total, 150);
    assert_eq!(st.erase_current, 150);
    assert_eq!(st.calculate_progress(), 3000);
}
