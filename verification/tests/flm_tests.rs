use object::write::{Object, Symbol, SymbolSection};
use object::{Architecture, BinaryFormat, Endianness, SymbolFlags, SymbolKind, SymbolScope};
use omniprobe::flash_algo::{
    build_sectors_from_flash_device, extract_flash_algorithm_from_flm, generate_default_sectors,
    match_flm_for_device, FlashDevice, FlashSector,
};

/// A minimal FLM-style ELF: a PrgCode section holding `code`, with the
/// entry point symbols at the given offsets.
fn synthetic_flm(code: &[u8], symbols: &[(&str, u64)]) -> Vec<u8> {
    let mut obj = Object::new(BinaryFormat::Elf, Architecture::Arm, Endianness::Little);
    let section = obj.add_section(Vec::new(), b"PrgCode".to_vec(), object::SectionKind::Text);
    obj.append_section_data(section, code, 4);
    for (name, offset) in symbols {
        obj.add_symbol(Symbol {
            name: name.as_bytes().to_vec(),
            value: *offset,
            size: 0,
            kind: SymbolKind::Text,
            scope: SymbolScope::Linkage,
            weak: false,
            section: SymbolSection::Section(section),
            flags: SymbolFlags::None,
        });
    }
    obj.write().expect("synthetic object image")
}

#[test]
fn extraction_without_flash_device_falls_back_to_4k_sectors() {
    // An FLM without a FlashDevice descriptor: 4 KiB sectors cover the
    // flash, page size 256, timeouts 1000/2000, erased value 0xFF.
    let code = vec![0x70, 0x47, 0x00, 0xBF, 0x70, 0x47, 0x00, 0xBF];
    let data = synthetic_flm(
        &code,
        &[("Init", 0), ("ProgramPage", 2), ("EraseSector", 4), ("EraseChip", 6)],
    );
    let algo = extract_flash_algorithm_from_flm(&data, "SYN_ALGO", 0x0800_0000, 0x1_0000)
        .expect("extraction");
    assert_eq!(algo.name, "SYN_ALGO");
    assert!(algo.default);
    assert_eq!(algo.pc_init, Some(1));
    assert_eq!(algo.pc_program_page, 3);
    assert_eq!(algo.pc_erase_sector, 5);
    assert_eq!(algo.pc_erase_all, Some(7));
    assert_eq!(algo.pc_uninit, None);
    // The Thumb bit is set on every entry point.
    assert_eq!(algo.pc_program_page & 1, 1);
    assert_eq!(algo.pc_erase_sector & 1, 1);
    assert_eq!(algo.flash_properties.page_size, 256);
    assert_eq!(algo.flash_properties.erased_byte_value, 0xFF);
    assert_eq!(algo.flash_properties.program_page_timeout, 1000);
    assert_eq!(algo.flash_properties.erase_sector_timeout, 2000);
    assert_eq!(algo.flash_properties.address_range.start, 0x0800_0000);
    assert_eq!(algo.flash_properties.address_range.end, 0x0801_0000);
    let sectors = &algo.flash_properties.sectors;
    assert_eq!(sectors.len(), 16);
    assert_eq!(sectors[0].address, 0);
    for (i, s) in sectors.iter().enumerate() {
        assert_eq!(s.size, 4096);
        assert_eq!(s.address, 4096 * i as u64);
    }
    // The instruction blob is the code, base64-encoded: the trusted
    // encoder really transformed the bytes.
    assert_eq!(algo.instructions, "cEcAv3BHAL8=");
    assert_eq!(algo.data_section_offset, code.len() as u64);
}

#[test]
fn extraction_requires_program_page() {
    let code = vec![0x70, 0x47];
    let data = synthetic_flm(&code, &[("Init", 0), ("EraseSector", 0)]);
    assert!(extract_flash_algorithm_from_flm(&data, "X", 0, 0x1000).is_err());
}

#[test]
fn garbage_bytes_are_rejected() {
    assert!(extract_flash_algorithm_from_flm(b"not an object image", "X", 0, 0x1000).is_err());
}

/// The CMSIS FlashDevice descriptor bytes: name at 2, geometry from
/// 0x84 on, sector runs from 0xA0, ended by the sentinel.
fn flash_device_bytes(runs: &[(u32, u32)]) -> Vec<u8> {
    let mut d = vec![0u8; 0xA0];
    d[0] = 1; // driver version
    d[2..6].copy_from_slice(b"DEV\0");
    d[0x84..0x88].copy_from_slice(&0x0800_0000u32.to_le_bytes());
    d[0x88..0x8C].copy_from_slice(&0x2_0000u32.to_le_bytes()); // 128 KiB
    d[0x8C..0x90].copy_from_slice(&1024u32.to_le_bytes()); // page size
    d[0x94] = 0xFF;
    d[0x98..0x9C].copy_from_slice(&300u32.to_le_bytes());
    d[0x9C..0xA0].copy_from_slice(&3000u32.to_le_bytes());
    for (size, addr) in runs {
        d.extend_from_slice(&size.to_le_bytes());
        d.extend_from_slice(&addr.to_le_bytes());
    }
    d.extend_from_slice(&0xFFFF_FFFFu32.to_le_bytes());
    d.extend_from_slice(&0u32.to_le_bytes());
    d
}

#[test]
fn flash_device_descriptor_decodes() {
    let d = flash_device_bytes(&[(0x4000, 0), (0x8000, 0x8000)]);
    let fd = FlashDevice::from_elf_data(&d).expect("descriptor");
    assert_eq!(fd.start_address, 0x0800_0000);
    assert_eq!(fd.device_size, 0x2_0000);
    assert_eq!(fd.page_size, 1024);
    assert_eq!(fd.erased_default_value, 0xFF);
    assert_eq!(fd.program_page_timeout, 300);
    assert_eq!(fd.erase_sector_timeout, 3000);
    assert_eq!(fd.sectors.len(), 2);
    assert_eq!(fd.sectors[0], FlashSector { size: 0x4000, address: 0 });
    assert_eq!(fd.sectors[1], FlashSector { size: 0x8000, address: 0x8000 });
    // Too short to hold a descriptor:
    assert!(FlashDevice::from_elf_data(&vec![0u8; 0x9F]).is_none());
}

#[test]
fn sector_runs_expand_contiguously() {
    // Two 16 KiB sectors, then two 32 KiB sectors up to the device size:
    // the expansion starts at offset zero and is gapless.
    let d = flash_device_bytes(&[(0x4000, 0), (0x8000, 0x8000)]);
    let fd = FlashDevice::from_elf_data(&d).unwrap();
    let sectors = build_sectors_from_flash_device(&fd);
    assert_eq!(sectors.len(), 5);
    assert_eq!(sectors[0], omniprobe::flash_algo::SectorInfo { size: 0x4000, address: 0 });
    assert_eq!(sectors[1].address, 0x4000);
    assert_eq!(sectors[2].address, 0x8000);
    assert_eq!(sectors[2].size, 0x8000);
    assert_eq!(sectors[3].address, 0x10000);
    assert_eq!(sectors[4].address, 0x18000);
    for w in sectors.windows(2) {
        assert_eq!(w[0].address + w[0].size, w[1].address);
    }
    assert_eq!(sectors.last().unwrap().address + sectors.last().unwrap().size, 0x2_0000);
}

#[test]
fn empty_descriptor_list_gets_default_sectors() {
    let d = flash_device_bytes(&[]);
    let fd = FlashDevice::from_elf_data(&d).unwrap();
    let sectors = build_sectors_from_flash_device(&fd);
    assert_eq!(sectors.len(), 0x2_0000 / 4096);
    assert_eq!(sectors[0].address, 0);
    assert_eq!(sectors[0].size, 4096);
}

#[test]
fn default_sectors_cover_odd_sizes() {
    let sectors = generate_default_sectors(5000);
    assert_eq!(sectors.len(), 2);
    assert_eq!(sectors[1].address, 4096);
}

#[test]
fn flm_matching_strategy() {
    let files = vec![
        "STM32F10x_128.FLM".to_string(),
        "GD32F4xx_1MB.FLM".to_string(),
        "STM32F103C8Tx.FLM".to_string(),
        "STM32F4.FLM".to_string(),
    ];
    // Exact stem match wins.
    assert_eq!(
        match_flm_for_device(&files, "STM32F103C8Tx", 64 * 1024).as_deref(),
        Some("STM32F103C8Tx.FLM")
    );
    // Series prefix plus size token.
    assert_eq!(
        match_flm_for_device(&files, "GD32F470ZGT6", 1024 * 1024).as_deref(),
        Some("GD32F4xx_1MB.FLM")
    );
    // Fuzzy fallback: the first file naming the series prefix without
    // any size token wins.
    assert_eq!(
        match_flm_for_device(&files, "STM32F429ZI", 2 * 1024 * 1024).as_deref(),
        Some("STM32F10x_128.FLM")
    );
    // Nothing fits.
    assert_eq!(match_flm_for_device(&files, "NRF52840", 512 * 1024), None);
}
