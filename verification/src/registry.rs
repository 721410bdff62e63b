//! Target registry helpers: the chip facts shown to the user, the
//! project configuration record, and the fallback rule that maps a
//! variant the registry does not know onto a compatible series.

use vstd::prelude::*;
use crate::bytestr::{lit_bytes, upper_seq};

verus! {

use vstd::string::StringSliceAdditionalSpecFns;
use vstd::string::StringExecFns;

/// A registered chip, as presented to the user.
#[derive(Debug, Clone)]
pub struct ChipInfo {
    pub name: String,
    pub vendor: String,
    pub family: String,
    pub cores: Vec<CoreInfo>,
    pub memory_regions: Vec<MemoryRegionInfo>,
    pub flash_algorithms: Vec<FlashAlgorithmInfo>,
}

#[derive(Debug, Clone)]
pub struct CoreInfo {
    pub name: String,
    pub core_type: String,
}

#[derive(Debug, Clone)]
pub struct MemoryRegionInfo {
    pub name: String,
    pub kind: String,
    pub address: u64,
    pub size: u64,
    pub page_size: Option<u64>,
    pub sector_size: Option<u64>,
}

#[derive(Debug, Clone)]
pub struct FlashAlgorithmInfo {
    pub name: String,
    pub default: bool,
    pub load_address: u64,
    pub data_section_offset: u64,
}

/// One project's saved flashing configuration.
#[derive(Debug, Clone)]
pub struct ProjectConfig {
    pub name: String,
    pub chip: String,
    pub interface_type: String,
    pub clock_speed: u32,
    pub firmware_path: Option<String>,
    pub verify_after_flash: bool,
    pub reset_after_flash: bool,
}

/// Whether the upper-cased name begins with the pattern.
pub open spec fn upper_starts_with(name: Seq<u8>, pat: Seq<u8>) -> bool {
    let up = upper_seq(name);
    up.len() >= pat.len() && up.subrange(0, pat.len() as int) == pat
}

/// The compatible series for a chip the registry does not know: the
/// GD32F470 and GD32F450 lines are registered under the GD32F407's
/// similar core and memory layout; everything else has no fallback.
pub fn get_fallback_chip(chip_name: &str) -> (r: Option<String>)
    ensures
        ({
            let b = chip_name.spec_bytes();
            if upper_starts_with(b, lit_bytes("GD32F470")) || upper_starts_with(
                b,
                lit_bytes("GD32F450"),
            ) {
                r is Some && r->0@ == "GD32F407"@
            } else {
                r is None
            }
        }),
{
    proof {
        reveal_strlit("GD32F470");
        reveal_strlit("GD32F450");
        assert("GD32F470".is_ascii() && "GD32F450".is_ascii());
        assert(lit_bytes("GD32F470").len() == 8);
        assert(lit_bytes("GD32F450").len() == 8);
    }
    let up = crate::bytestr::upper_vec(chip_name.as_bytes());
    let starts_470 = if up.len() >= 8 {
        let head = vstd::slice::slice_subrange(up.as_slice(), 0, 8);
        crate::bytestr::bytes_eq_str(head, "GD32F470")
    } else {
        false
    };
    let starts_450 = if up.len() >= 8 {
        let head = vstd::slice::slice_subrange(up.as_slice(), 0, 8);
        crate::bytestr::bytes_eq_str(head, "GD32F450")
    } else {
        false
    };
    if starts_470 || starts_450 {
        Some(String::from_str("GD32F407"))
    } else {
        None
    }
}

} // verus!
