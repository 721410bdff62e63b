//! Host-side core for a CMSIS-DAP debug and provisioning service: pack
//! ingestion (PDSC parsing, FLM extraction, target YAML emission), probe
//! classification, flash-programming progress accounting, RTT polling
//! logic, and the serial data plane's bookkeeping.

use vstd::prelude::*;

pub mod app_config;
pub mod bytestr;
pub mod error;
pub mod flash;
pub mod flash_algo;
pub mod manager;
pub mod memory;
pub mod parser;
pub mod pdsc;
pub mod probe;
pub mod progress;
pub mod registry;
pub mod rtt;
pub mod scan_report;
pub mod serial;
pub mod session;
pub mod target_yaml;
pub mod udev;
pub mod xml;

verus! {

/// Scanner version emitted into generated target YAML; packs whose YAML
/// carries another version are considered stale.
pub const PACK_SCANNER_VERSION: &'static str = "2.0.0";

} // verus!
