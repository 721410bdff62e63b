//! Target YAML emission: algorithms collected and de-duplicated across
//! devices, keyed by name and flash size, then materialised as one
//! family-level document with per-variant memory maps. The first line
//! carries the scanner version so stale packs can be found later.

use vstd::prelude::*;
use crate::bytestr::{
    bytes_eq_str, bytes_to_string, clone_bytes, dec_repr, hex_repr, lit_bytes, lossy_of,
    lower_seq, push_bytes, push_dec_u64, push_hex_u64, push_str_bytes, trim_seq, trim_slice,
};
use crate::error::AppError;
use crate::flash_algo::{
    spec_extract, spec_match_flm, extract_flash_algorithm_from_flm, match_flm_for_device,
    FlashAlgorithm, FlashAlgorithmS,
};
use crate::pdsc::{DeviceDefinition, DeviceDefinitionS};
use crate::xml::find_byte;

verus! {

use vstd::string::StringSliceAdditionalSpecFns;
use vstd::utf8::encode_utf8;

/// One FLM file of a pack: its file name and its bytes.
pub struct FlmFile {
    pub name: String,
    pub data: Vec<u8>,
}

impl View for FlmFile {
    type V = (Seq<char>, Seq<u8>);

    open spec fn view(&self) -> (Seq<char>, Seq<u8>) {
        (self.name@, self.data@)
    }
}

/// Maps a PDSC core name onto the target database's core kind; unknown
/// cores default to the Cortex-M4/M7 kind.
pub open spec fn spec_map_core(core_up: Seq<u8>) -> Seq<char> {
    if core_up == lit_bytes("CORTEX-M0") || core_up == lit_bytes("CM0") || core_up == lit_bytes(
        "CORTEX-M0+",
    ) || core_up == lit_bytes("CM0PLUS") || core_up == lit_bytes("CM0+") {
        "armv6m"@
    } else if core_up == lit_bytes("CORTEX-M3") || core_up == lit_bytes("CM3") {
        "armv7m"@
    } else if core_up == lit_bytes("CORTEX-M33") || core_up == lit_bytes("CM33") {
        "armv8m"@
    } else {
        "armv7em"@
    }
}

/// The target kind for a PDSC core name, matched case-insensitively.
pub fn map_core_type(core: &str) -> (r: &'static str)
    ensures
        r@ == spec_map_core(crate::bytestr::upper_seq(core.spec_bytes())),
{
    proof {
        reveal_strlit("CORTEX-M0");
        reveal_strlit("CM0");
        reveal_strlit("CORTEX-M0+");
        reveal_strlit("CM0PLUS");
        reveal_strlit("CM0+");
        reveal_strlit("CORTEX-M3");
        reveal_strlit("CM3");
        reveal_strlit("CORTEX-M33");
        reveal_strlit("CM33");
        assert("CORTEX-M0".is_ascii() && "CM0".is_ascii() && "CORTEX-M0+".is_ascii());
        assert("CM0PLUS".is_ascii() && "CM0+".is_ascii());
        assert("CORTEX-M3".is_ascii() && "CM3".is_ascii());
        assert("CORTEX-M33".is_ascii() && "CM33".is_ascii());
    }
    let up = crate::bytestr::upper_vec(core.as_bytes());
    if bytes_eq_str(up.as_slice(), "CORTEX-M0") || bytes_eq_str(up.as_slice(), "CM0")
        || bytes_eq_str(up.as_slice(), "CORTEX-M0+") || bytes_eq_str(up.as_slice(), "CM0PLUS")
        || bytes_eq_str(up.as_slice(), "CM0+") {
        "armv6m"
    } else if bytes_eq_str(up.as_slice(), "CORTEX-M3") || bytes_eq_str(up.as_slice(), "CM3") {
        "armv7m"
    } else if bytes_eq_str(up.as_slice(), "CORTEX-M33") || bytes_eq_str(up.as_slice(), "CM33") {
        "armv8m"
    } else {
        "armv7em"
    }
}

// ---------------------------------------------------------------------
// Scanner version marker.
// ---------------------------------------------------------------------

/// Whether `s` begins with `p`.
pub open spec fn starts_with(s: Seq<u8>, p: Seq<u8>) -> bool {
    s.len() >= p.len() && s.subrange(0, p.len() as int) == p
}

/// The version found by walking the lines: the text after the marker on
/// the first line that carries it, trimmed.
pub open spec fn detect_from(s: Seq<u8>, pos: int) -> Option<Seq<u8>>
    decreases (if pos < s.len() {
        s.len() - pos
    } else {
        0int
    }),
{
    if pos < 0 || pos >= s.len() {
        None
    } else {
        let end = match find_byte(s, pos, 0x0a) {
            Option::Some(e) => e,
            Option::None => s.len() as int,
        };
        let line0 = s.subrange(pos, end);
        let line = if line0.len() > 0 && line0.last() == 0x0d {
            line0.drop_last()
        } else {
            line0
        };
        let marker = lit_bytes("# ZUOLANDAPLINK Pack Scanner Version:");
        if starts_with(line, marker) {
            Some(trim_seq(line.subrange(marker.len() as int, line.len() as int)))
        } else if end + 1 <= pos {
            None
        } else {
            detect_from(s, end + 1)
        }
    }
}

/// The scanner version recorded in a generated YAML text, if any.
pub open spec fn spec_detect_version(s: Seq<u8>) -> Option<Seq<u8>> {
    detect_from(s, 0)
}

fn detect_version_bytes(content: &[u8]) -> (r: Option<Vec<u8>>)
    ensures
        match r {
            Some(v) => spec_detect_version(content@) == Some(v@),
            None => spec_detect_version(content@) is None,
        },
{
    proof {
        reveal_strlit("# ZUOLANDAPLINK Pack Scanner Version:");
        assert("# ZUOLANDAPLINK Pack Scanner Version:".is_ascii());
        assert(lit_bytes("# ZUOLANDAPLINK Pack Scanner Version:").len() == 37);
    }
    let mut pos: usize = 0;
    while pos < content.len()
        invariant
            "# ZUOLANDAPLINK Pack Scanner Version:".is_ascii(),
            lit_bytes("# ZUOLANDAPLINK Pack Scanner Version:").len() == 37,
            detect_from(content@, 0) == detect_from(content@, pos as int),
        decreases (if pos < content@.len() {
            content@.len() - pos
        } else {
            0int
        }),
    {
        let end: usize = match crate::xml::exec_find_byte(content, pos, 0x0a) {
            Some(e) => e,
            None => content.len(),
        };
        proof {
            crate::xml::lemma_find_byte_props(content@, pos as int, 0x0a);
        }
        let line0 = vstd::slice::slice_subrange(content, pos, end);
        let line = if line0.len() > 0 && line0[line0.len() - 1] == 0x0d {
            vstd::slice::slice_subrange(line0, 0, line0.len() - 1)
        } else {
            line0
        };
        proof {
            if line0@.len() > 0 && line0@.last() == 0x0d {
                assert(line@ =~= line0@.drop_last());
            }
        }
        if line.len() >= 37 {
            let head = vstd::slice::slice_subrange(line, 0, 37);
            if bytes_eq_str(head, "# ZUOLANDAPLINK Pack Scanner Version:") {
                let rest = vstd::slice::slice_subrange(line, 37, line.len());
                return Some(trim_slice(rest));
            }
        }
        let new_pos: usize = if end >= content.len() {
            content.len()
        } else {
            end + 1
        };
        proof {
            let sv = content@;
            let sp_end: int = match find_byte(sv, pos as int, 0x0a) {
                Option::Some(e) => e,
                Option::None => sv.len() as int,
            };
            assert(sp_end == end as int);
            let line0g = sv.subrange(pos as int, sp_end);
            let lineg = if line0g.len() > 0 && line0g.last() == 0x0d {
                line0g.drop_last()
            } else {
                line0g
            };
            assert(lineg == line@);
            assert(!starts_with(lineg, lit_bytes("# ZUOLANDAPLINK Pack Scanner Version:")));
            assert(detect_from(sv, pos as int) == detect_from(sv, sp_end + 1));
            assert(detect_from(sv, sp_end + 1) == detect_from(sv, new_pos as int));
        }
        pos = new_pos;
    }
    None
}

/// The scanner version recorded in a generated YAML text, if any.
pub fn detect_pack_scanner_version(content: &str) -> (r: Option<String>)
    ensures
        match spec_detect_version(content.spec_bytes()) {
            Option::Some(v) => r is Some && r->0@ == lossy_of(v),
            Option::None => r is None,
        },
{
    match detect_version_bytes(content.as_bytes()) {
        Some(v) => Some(bytes_to_string(v.as_slice())),
        None => None,
    }
}

/// Whether a pack needs a re-scan: its YAML is absent, carries no
/// version marker, or carries one other than the current scanner
/// version.
pub fn needs_rescan(yaml_content: &Option<String>) -> (r: bool)
    ensures
        r == match yaml_content {
            Option::Some(c) => spec_detect_version(encode_utf8(c@)) != Some(lit_bytes("2.0.0")),
            Option::None => true,
        },
{
    proof {
        reveal_strlit("2.0.0");
        assert("2.0.0".is_ascii());
    }
    match yaml_content {
        None => true,
        Some(c) => match detect_version_bytes(c.as_str().as_bytes()) {
            None => true,
            Some(v) => !bytes_eq_str(v.as_slice(), "2.0.0"),
        },
    }
}

// ---------------------------------------------------------------------
// Algorithm collection.
// ---------------------------------------------------------------------

pub ghost struct CollectedAlgoS {
    pub algo: FlashAlgorithmS,
    pub load_address: u64,
}

struct CollectedAlgo {
    algo: FlashAlgorithm,
    load_address: u64,
}

impl View for CollectedAlgo {
    type V = CollectedAlgoS;

    closed spec fn view(&self) -> CollectedAlgoS {
        CollectedAlgoS { algo: self.algo@, load_address: self.load_address }
    }
}

pub ghost struct CollectS {
    pub algos: Seq<CollectedAlgoS>,
    pub dev_algo: Seq<(Seq<char>, Seq<char>)>,
}

/// The names of the FLM files, in order.
pub open spec fn file_names(files: Seq<(Seq<char>, Seq<u8>)>) -> Seq<Seq<char>> {
    files.map_values(|f: (Seq<char>, Seq<u8>)| f.0)
}

/// The bytes of the first file of that name.
pub open spec fn file_data(files: Seq<(Seq<char>, Seq<u8>)>, i: int, name: Seq<char>) -> Option<
    Seq<u8>,
>
    decreases files.len() - i,
{
    if i < 0 || i >= files.len() {
        None
    } else if files[i].0 == name {
        Some(files[i].1)
    } else {
        file_data(files, i + 1, name)
    }
}

/// Index of the last dot of a byte string, if any.
pub open spec fn last_dot(s: Seq<u8>, i: int) -> Option<int>
    decreases (if i >= 0 {
        i + 1
    } else {
        0int
    }),
{
    if i < 0 || i >= s.len() {
        None
    } else if s[i] == 0x2e {
        Some(i)
    } else {
        last_dot(s, i - 1)
    }
}

/// A file name's stem: everything before its final dot, unless the dot
/// leads.
pub open spec fn stem_bytes(s: Seq<u8>) -> Seq<u8> {
    match last_dot(s, s.len() - 1) {
        Option::Some(p) => if p > 0 {
            s.subrange(0, p)
        } else {
            s
        },
        Option::None => s,
    }
}

/// The registry key of an algorithm: its file stem with the flash size
/// in KiB appended, so same-named algorithms of different sizes stay
/// apart.
pub open spec fn algo_key_bytes(fname: Seq<char>, flash_size: u64) -> Seq<u8> {
    stem_bytes(encode_utf8(fname)) + lit_bytes("_") + dec_repr((flash_size / 1024) as int)
}

/// Whether an algorithm under this key was already collected.
pub open spec fn has_key(algos: Seq<CollectedAlgoS>, i: int, key: Seq<char>) -> bool
    decreases algos.len() - i,
{
    if i < 0 || i >= algos.len() {
        false
    } else if algos[i].algo.name == key {
        true
    } else {
        has_key(algos, i + 1, key)
    }
}

/// One device folded into the collection: match an FLM, extract it
/// under the size-keyed name, record the device's reference, and keep
/// the first algorithm of each key (at that first device's RAM start as
/// its load address).
pub open spec fn collect_step(
    st: CollectS,
    d: DeviceDefinitionS,
    files: Seq<(Seq<char>, Seq<u8>)>,
) -> CollectS {
    if d.memory.flash_size > 0 {
        match spec_match_flm(file_names(files), d.name, d.memory.flash_size) {
            Option::None => st,
            Option::Some(fname) => if d.memory.flash_start + d.memory.flash_size > u64::MAX {
                st
            } else {
                match file_data(files, 0, fname) {
                    Option::None => st,
                    Option::Some(data) => {
                        let key = lossy_of(algo_key_bytes(fname, d.memory.flash_size));
                        match spec_extract(data, key, d.memory.flash_start, d.memory.flash_size) {
                            Option::None => st,
                            Option::Some(algo) => {
                                let st1 = CollectS {
                                    dev_algo: st.dev_algo.push((d.name, key)),
                                    ..st
                                };
                                if has_key(st.algos, 0, key) {
                                    st1
                                } else {
                                    CollectS {
                                        algos: st.algos.push(
                                            CollectedAlgoS {
                                                algo,
                                                load_address: d.memory.ram_start,
                                            },
                                        ),
                                        ..st1
                                    }
                                }
                            },
                        }
                    },
                }
            },
        }
    } else {
        st
    }
}

pub open spec fn spec_collect(
    devices: Seq<DeviceDefinitionS>,
    files: Seq<(Seq<char>, Seq<u8>)>,
) -> CollectS
    decreases devices.len(),
{
    if devices.len() == 0 {
        CollectS { algos: Seq::empty(), dev_algo: Seq::empty() }
    } else {
        collect_step(spec_collect(devices.drop_last(), files), devices.last(), files)
    }
}

fn find_file_data<'a>(files: &'a Vec<FlmFile>, name: &String) -> (r: Option<&'a Vec<u8>>)
    ensures
        match r {
            Some(d) => file_data(files@.map_values(|f: FlmFile| f@), 0, name@) == Some(d@),
            None => file_data(files@.map_values(|f: FlmFile| f@), 0, name@) is None,
        },
{
    let ghost all = files@.map_values(|f: FlmFile| f@);
    let mut i: usize = 0;
    while i < files.len()
        invariant
            i <= all.len(),
            all == files@.map_values(|f: FlmFile| f@),
            file_data(all, 0, name@) == file_data(all, i as int, name@),
        decreases all.len() - i,
    {
        if files[i].name.eq(name) {
            return Some(&files[i].data);
        }
        i = i + 1;
    }
    None
}

fn algo_key_exec(fname: &String, flash_size: u64) -> (r: String)
    ensures
        r@ == lossy_of(algo_key_bytes(fname@, flash_size)),
{
    proof {
        reveal_strlit("_");
        assert("_".is_ascii());
    }
    let name_bytes = fname.as_str().as_bytes();
    let mut p: usize = name_bytes.len();
    let mut dot: Option<usize> = None;
    while p > 0
        invariant
            p <= name_bytes@.len(),
            match dot {
                Option::Some(dp) => dp < name_bytes@.len() && last_dot(
                    name_bytes@,
                    name_bytes@.len() - 1,
                ) == Some(dp as int),
                Option::None => last_dot(name_bytes@, name_bytes@.len() - 1) == last_dot(
                    name_bytes@,
                    p - 1,
                ),
            },
            dot is Some ==> p == 0,
        decreases p,
    {
        if name_bytes[p - 1] == 0x2e {
            dot = Some(p - 1);
            p = 0;
        } else {
            p = p - 1;
        }
    }
    let stem: &[u8] = match dot {
        Some(dp) => if dp > 0 {
            vstd::slice::slice_subrange(name_bytes, 0, dp)
        } else {
            name_bytes
        },
        None => name_bytes,
    };
    let mut key: Vec<u8> = Vec::new();
    push_bytes(&mut key, stem);
    push_str_bytes(&mut key, "_");
    push_dec_u64(&mut key, flash_size / 1024);
    proof {
        assert(key@ =~= algo_key_bytes(fname@, flash_size));
    }
    bytes_to_string(key.as_slice())
}

fn has_key_exec(algos: &Vec<CollectedAlgo>, key: &String) -> (r: bool)
    ensures
        r == has_key(algos@.map_values(|c: CollectedAlgo| c@), 0, key@),
{
    let ghost all = algos@.map_values(|c: CollectedAlgo| c@);
    let mut i: usize = 0;
    while i < algos.len()
        invariant
            i <= all.len(),
            all == algos@.map_values(|c: CollectedAlgo| c@),
            has_key(all, 0, key@) == has_key(all, i as int, key@),
        decreases all.len() - i,
    {
        if algos[i].algo.name.eq(key) {
            return true;
        }
        i = i + 1;
    }
    false
}

fn collect_algorithms(devices: &Vec<DeviceDefinition>, files: &Vec<FlmFile>) -> (r: (
    Vec<CollectedAlgo>,
    Vec<(String, String)>,
))
    ensures
        ({
            let g = spec_collect(
                devices@.map_values(|d: DeviceDefinition| d@),
                files@.map_values(|f: FlmFile| f@),
            );
            r.0@.map_values(|c: CollectedAlgo| c@) == g.algos && r.1@.map_values(
                |p: (String, String)| (p.0@, p.1@),
            ) == g.dev_algo
        }),
{
    let ghost devs = devices@.map_values(|d: DeviceDefinition| d@);
    let ghost fls = files@.map_values(|f: FlmFile| f@);
    let mut algos: Vec<CollectedAlgo> = Vec::new();
    let mut dev_algo: Vec<(String, String)> = Vec::new();
    let mut i: usize = 0;
    while i < devices.len()
        invariant
            i <= devs.len(),
            devs == devices@.map_values(|d: DeviceDefinition| d@),
            fls == files@.map_values(|f: FlmFile| f@),
            ({
                let g = spec_collect(devs.subrange(0, i as int), fls);
                algos@.map_values(|c: CollectedAlgo| c@) == g.algos && dev_algo@.map_values(
                    |p: (String, String)| (p.0@, p.1@),
                ) == g.dev_algo
            }),
        decreases devs.len() - i,
    {
        proof {
            assert(devs.subrange(0, i + 1 as int).drop_last() =~= devs.subrange(0, i as int));
            assert(devs.subrange(0, i + 1 as int).last() == devs[i as int]);
        }
        let d = &devices[i];
        if d.memory.flash_size > 0 {
            let mut names: Vec<String> = Vec::new();
            let mut k: usize = 0;
            while k < files.len()
                invariant
                    k <= fls.len(),
                    fls == files@.map_values(|f: FlmFile| f@),
                    names@.map_values(|s: String| s@) == file_names(fls).subrange(0, k as int),
                decreases fls.len() - k,
            {
                names.push(files[k].name.clone());
                proof {
                    assert(file_names(fls).subrange(0, k + 1 as int).drop_last()
                        =~= file_names(fls).subrange(0, k as int));
                    assert(file_names(fls)[k as int] == fls[k as int].0);
                    assert(names@.map_values(|s: String| s@) =~= file_names(fls).subrange(
                        0,
                        k + 1 as int,
                    ));
                }
                k = k + 1;
            }
            proof {
                assert(file_names(fls).subrange(0, fls.len() as int) =~= file_names(fls));
            }
            match match_flm_for_device(&names, d.name.as_str(), d.memory.flash_size) {
                None => {},
                Some(fname) => {
                    if d.memory.flash_start <= u64::MAX - d.memory.flash_size {
                        match find_file_data(files, &fname) {
                            None => {},
                            Some(data) => {
                                let key = algo_key_exec(&fname, d.memory.flash_size);
                                let data_c = clone_bytes(data);
                                match extract_flash_algorithm_from_flm(
                                    data_c.as_slice(),
                                    key.as_str(),
                                    d.memory.flash_start,
                                    d.memory.flash_size,
                                ) {
                                    Err(_) => {},
                                    Ok(algo) => {
                                        dev_algo.push((d.name.clone(), key.clone()));
                                        proof {
                                            assert(dev_algo@.map_values(
                                                |p: (String, String)| (p.0@, p.1@),
                                            ) =~= dev_algo@.map_values(
                                                |p: (String, String)| (p.0@, p.1@),
                                            ).drop_last().push((d.name@, key@)));
                                        }
                                        if !has_key_exec(&algos, &key) {
                                            let la = d.memory.ram_start;
                                            algos.push(CollectedAlgo { algo, load_address: la });
                                            proof {
                                                assert(algos@.map_values(
                                                    |c: CollectedAlgo| c@,
                                                ) =~= algos@.map_values(
                                                    |c: CollectedAlgo| c@,
                                                ).drop_last().push(algos@.last()@));
                                            }
                                        }
                                    },
                                }
                            },
                        }
                    }
                },
            }
        }
        i = i + 1;
    }
    proof {
        assert(devs.subrange(0, devs.len() as int) =~= devs);
    }
    (algos, dev_algo)
}


// ---------------------------------------------------------------------
// Emission.
// ---------------------------------------------------------------------

/// Saturating addition, for the few address sums a hostile input could
/// overflow.
pub open spec fn sat_add(a: u64, b: u64) -> u64 {
    if a + b > u64::MAX {
        u64::MAX
    } else {
        (a + b) as u64
    }
}

fn sat_add_exec(a: u64, b: u64) -> (r: u64)
    ensures
        r == sat_add(a, b),
{
    if a > u64::MAX - b {
        u64::MAX
    } else {
        a + b
    }
}

pub open spec fn yaml_sector(sec: crate::flash_algo::SectorInfo) -> Seq<u8> {
    lit_bytes("        - size: ") + dec_repr(sec.size as int) + lit_bytes(
        "\n          address: 0x",
    ) + hex_repr(sec.address as int) + lit_bytes("\n")
}

pub open spec fn yaml_sectors(secs: Seq<crate::flash_algo::SectorInfo>, i: int) -> Seq<u8>
    decreases secs.len() - i,
{
    if i < 0 || i >= secs.len() {
        Seq::empty()
    } else {
        yaml_sector(secs[i]) + yaml_sectors(secs, i + 1)
    }
}

pub open spec fn yaml_opt_pc(label: Seq<u8>, v: Option<u64>) -> Seq<u8> {
    match v {
        Option::Some(x) => label + hex_repr(x as int) + lit_bytes("\n"),
        Option::None => Seq::empty(),
    }
}

/// The first half of an algorithm's block: identity and entry points.
pub open spec fn yaml_algo_head(c: CollectedAlgoS) -> Seq<u8> {
    let a = c.algo;
    lit_bytes("  - name: ") + encode_utf8(a.name) + lit_bytes("\n    description: ") + encode_utf8(
        a.description,
    ) + lit_bytes("\n    default: true\n    load_address: 0x") + hex_repr(
        sat_add(c.load_address, 0x20) as int,
    ) + lit_bytes("\n    data_section_offset: 0x") + hex_repr(a.data_section_offset as int)
        + lit_bytes("\n    transfer_encoding: raw\n") + yaml_opt_pc(
        lit_bytes("    pc_init: 0x"),
        a.pc_init,
    ) + yaml_opt_pc(lit_bytes("    pc_uninit: 0x"), a.pc_uninit) + lit_bytes(
        "    pc_program_page: 0x",
    ) + hex_repr(a.pc_program_page as int) + lit_bytes("\n    pc_erase_sector: 0x") + hex_repr(
        a.pc_erase_sector as int,
    ) + lit_bytes("\n") + yaml_opt_pc(lit_bytes("    pc_erase_all: 0x"), a.pc_erase_all)
}

/// The second half: flash properties, sector list and instruction blob.
pub open spec fn yaml_algo_props(a: FlashAlgorithmS) -> Seq<u8> {
    lit_bytes("    flash_properties:\n      address_range:\n        start: 0x") + hex_repr(
        a.flash_properties.address_range.start as int,
    ) + lit_bytes("\n        end: 0x") + hex_repr(a.flash_properties.address_range.end as int)
        + lit_bytes("\n      page_size: ") + dec_repr(a.flash_properties.page_size as int)
        + lit_bytes("\n      erased_byte_value: 0x") + hex_repr(
        a.flash_properties.erased_byte_value as int,
    ) + lit_bytes("\n      program_page_timeout: ") + dec_repr(
        a.flash_properties.program_page_timeout as int,
    ) + lit_bytes("\n      erase_sector_timeout: ") + dec_repr(
        a.flash_properties.erase_sector_timeout as int,
    ) + lit_bytes("\n      sectors:\n") + yaml_sectors(a.flash_properties.sectors, 0) + lit_bytes(
        "    instructions: \"",
    ) + encode_utf8(a.instructions) + lit_bytes("\"\n")
}

/// One algorithm's block in the family table.
pub open spec fn yaml_algo(c: CollectedAlgoS) -> Seq<u8> {
    yaml_algo_head(c) + yaml_algo_props(c.algo)
}

pub open spec fn yaml_algos(algos: Seq<CollectedAlgoS>, i: int) -> Seq<u8>
    decreases algos.len() - i,
{
    if i < 0 || i >= algos.len() {
        Seq::empty()
    } else {
        yaml_algo(algos[i]) + yaml_algos(algos, i + 1)
    }
}

/// The algorithm key recorded for a device, the latest record winning.
pub open spec fn algo_ref(dev_algo: Seq<(Seq<char>, Seq<char>)>, name: Seq<char>) -> Option<
    Seq<char>,
>
    decreases dev_algo.len(),
{
    if dev_algo.len() == 0 {
        None
    } else if dev_algo.last().0 == name {
        Some(dev_algo.last().1)
    } else {
        algo_ref(dev_algo.drop_last(), name)
    }
}

pub open spec fn yaml_region(tag: Seq<u8>, start: u64, size: u64) -> Seq<u8> {
    tag + lit_bytes("        range:\n          start: 0x") + hex_repr(start as int) + lit_bytes(
        "\n          end: 0x",
    ) + hex_repr(sat_add(start, size) as int) + lit_bytes(
        "\n        cores:\n          - main\n",
    )
}

/// One device's variant block.
pub open spec fn yaml_variant(d: DeviceDefinitionS, ar: Option<Seq<char>>) -> Seq<u8> {
    lit_bytes("  - name: ") + encode_utf8(d.name) + lit_bytes("\n    memory_map:\n") + (
    if d.memory.ram_size > 0 {
        yaml_region(lit_bytes("      - !Ram\n"), d.memory.ram_start, d.memory.ram_size)
    } else {
        Seq::empty()
    }) + (if d.memory.flash_size > 0 {
        yaml_region(lit_bytes("      - !Nvm\n"), d.memory.flash_start, d.memory.flash_size)
    } else {
        Seq::empty()
    }) + lit_bytes("    cores:\n      - name: main\n        type: ") + encode_utf8(
        spec_map_core(crate::bytestr::upper_seq(encode_utf8(d.processor.core))),
    ) + lit_bytes("\n        core_access_options: !Arm\n          ap: !v1 0\n") + (match ar {
        Option::Some(k) => lit_bytes("    flash_algorithms:\n      - ") + encode_utf8(k)
            + lit_bytes("\n"),
        Option::None => Seq::empty(),
    }) + lit_bytes("\n")
}

pub open spec fn yaml_variants(
    devices: Seq<DeviceDefinitionS>,
    dev_algo: Seq<(Seq<char>, Seq<char>)>,
    i: int,
) -> Seq<u8>
    decreases devices.len() - i,
{
    if i < 0 || i >= devices.len() {
        Seq::empty()
    } else {
        yaml_variant(devices[i], algo_ref(dev_algo, devices[i].name)) + yaml_variants(
            devices,
            dev_algo,
            i + 1,
        )
    }
}

/// The whole document: the version marker, a generation stamp, the
/// family header, the de-duplicated algorithm table, and one variant
/// per device.
pub open spec fn spec_yaml(
    devices: Seq<DeviceDefinitionS>,
    family: Seq<char>,
    files: Seq<(Seq<char>, Seq<u8>)>,
    generated_at: Seq<char>,
) -> Seq<u8> {
    let col = spec_collect(devices, files);
    lit_bytes("# ZUOLANDAPLINK Pack Scanner Version: 2.0.0\n# Generated at: ") + encode_utf8(
        generated_at,
    ) + lit_bytes("\n\nname: ") + encode_utf8(family) + lit_bytes(
        "\nmanufacturer:\n  id: 0x0\n  cc: 0x0\ngenerated_from_pack: true\npack_file_release: \"unknown\"\n",
    ) + (if col.algos.len() > 0 {
        lit_bytes("flash_algorithms:\n") + yaml_algos(col.algos, 0)
    } else {
        Seq::empty()
    }) + lit_bytes("variants:\n") + yaml_variants(devices, col.dev_algo, 0)
}

fn emit_str(out: &mut Vec<u8>, s: &String)
    ensures
        final(out)@ == old(out)@ + encode_utf8(s@),
{
    push_bytes(out, s.as_str().as_bytes());
}

fn emit_sector(out: &mut Vec<u8>, sec: crate::flash_algo::SectorInfo)
    ensures
        final(out)@ == old(out)@ + yaml_sector(sec),
{
    proof {
        reveal_strlit("        - size: ");
        reveal_strlit("\n          address: 0x");
        reveal_strlit("\n");
        assert("        - size: ".is_ascii());
        assert("\n          address: 0x".is_ascii());
        assert("\n".is_ascii());
    }
    push_str_bytes(out, "        - size: ");
    push_dec_u64(out, sec.size);
    push_str_bytes(out, "\n          address: 0x");
    push_hex_u64(out, sec.address);
    push_str_bytes(out, "\n");
    proof {
        assert(out@ =~= old(out)@ + yaml_sector(sec));
    }
}

fn emit_opt_pc(out: &mut Vec<u8>, label: &str, v: Option<u64>)
    requires
        label.is_ascii(),
    ensures
        final(out)@ == old(out)@ + yaml_opt_pc(lit_bytes(label), v),
{
    proof {
        reveal_strlit("\n");
        assert("\n".is_ascii());
    }
    match v {
        Some(x) => {
            push_str_bytes(out, label);
            push_hex_u64(out, x);
            push_str_bytes(out, "\n");
            proof {
                assert(out@ =~= old(out)@ + yaml_opt_pc(lit_bytes(label), v));
            }
        },
        None => {
            proof {
                assert(out@ =~= old(out)@ + yaml_opt_pc(lit_bytes(label), v));
            }
        },
    }
}

#[verifier::rlimit(80)]
fn emit_algo_head(out: &mut Vec<u8>, c: &CollectedAlgo)
    ensures
        final(out)@ == old(out)@ + yaml_algo_head(c@),
{
    proof {
        reveal_strlit("  - name: ");
        reveal_strlit("\n    description: ");
        reveal_strlit("\n    default: true\n    load_address: 0x");
        reveal_strlit("\n    data_section_offset: 0x");
        reveal_strlit("\n    transfer_encoding: raw\n");
        reveal_strlit("    pc_init: 0x");
        reveal_strlit("    pc_uninit: 0x");
        reveal_strlit("    pc_program_page: 0x");
        reveal_strlit("\n    pc_erase_sector: 0x");
        reveal_strlit("\n");
        reveal_strlit("    pc_erase_all: 0x");
        assert("  - name: ".is_ascii());
        assert("\n    description: ".is_ascii());
        assert("\n    default: true\n    load_address: 0x".is_ascii());
        assert("\n    data_section_offset: 0x".is_ascii());
        assert("\n    transfer_encoding: raw\n".is_ascii());
        assert("    pc_init: 0x".is_ascii());
        assert("    pc_uninit: 0x".is_ascii());
        assert("    pc_program_page: 0x".is_ascii());
        assert("\n    pc_erase_sector: 0x".is_ascii());
        assert("\n".is_ascii());
        assert("    pc_erase_all: 0x".is_ascii());
    }
    let a = &c.algo;
    push_str_bytes(out, "  - name: ");
    emit_str(out, &a.name);
    push_str_bytes(out, "\n    description: ");
    emit_str(out, &a.description);
    push_str_bytes(out, "\n    default: true\n    load_address: 0x");
    push_hex_u64(out, sat_add_exec(c.load_address, 0x20));
    push_str_bytes(out, "\n    data_section_offset: 0x");
    push_hex_u64(out, a.data_section_offset);
    push_str_bytes(out, "\n    transfer_encoding: raw\n");
    emit_opt_pc(out, "    pc_init: 0x", a.pc_init);
    emit_opt_pc(out, "    pc_uninit: 0x", a.pc_uninit);
    push_str_bytes(out, "    pc_program_page: 0x");
    push_hex_u64(out, a.pc_program_page);
    push_str_bytes(out, "\n    pc_erase_sector: 0x");
    push_hex_u64(out, a.pc_erase_sector);
    push_str_bytes(out, "\n");
    emit_opt_pc(out, "    pc_erase_all: 0x", a.pc_erase_all);
    proof {
        assert(out@ =~= old(out)@ + yaml_algo_head(c@));
    }
}

#[verifier::rlimit(60)]
fn emit_algo_props(out: &mut Vec<u8>, a: &FlashAlgorithm)
    ensures
        final(out)@ == old(out)@ + yaml_algo_props(a@),
{
    proof {
        reveal_strlit("    flash_properties:\n      address_range:\n        start: 0x");
        reveal_strlit("\n        end: 0x");
        reveal_strlit("\n      page_size: ");
        reveal_strlit("\n      erased_byte_value: 0x");
        reveal_strlit("\n      program_page_timeout: ");
        reveal_strlit("\n      erase_sector_timeout: ");
        reveal_strlit("\n      sectors:\n");
        reveal_strlit("    instructions: \"");
        reveal_strlit("\"\n");
        assert("    flash_properties:\n      address_range:\n        start: 0x".is_ascii());
        assert("\n        end: 0x".is_ascii());
        assert("\n      page_size: ".is_ascii());
        assert("\n      erased_byte_value: 0x".is_ascii());
        assert("\n      program_page_timeout: ".is_ascii());
        assert("\n      erase_sector_timeout: ".is_ascii());
        assert("\n      sectors:\n".is_ascii());
        assert("    instructions: \"".is_ascii());
        assert("\"\n".is_ascii());
    }
    push_str_bytes(out, "    flash_properties:\n      address_range:\n        start: 0x");
    push_hex_u64(out, a.flash_properties.address_range.start);
    push_str_bytes(out, "\n        end: 0x");
    push_hex_u64(out, a.flash_properties.address_range.end);
    push_str_bytes(out, "\n      page_size: ");
    push_dec_u64(out, a.flash_properties.page_size);
    push_str_bytes(out, "\n      erased_byte_value: 0x");
    push_hex_u64(out, a.flash_properties.erased_byte_value as u64);
    push_str_bytes(out, "\n      program_page_timeout: ");
    push_dec_u64(out, a.flash_properties.program_page_timeout);
    push_str_bytes(out, "\n      erase_sector_timeout: ");
    push_dec_u64(out, a.flash_properties.erase_sector_timeout);
    push_str_bytes(out, "\n      sectors:\n");
    let ghost pre_sectors = out@;
    let mut si: usize = 0;
    while si < a.flash_properties.sectors.len()
        invariant
            si <= a.flash_properties.sectors@.len(),
            pre_sectors + yaml_sectors(a.flash_properties.sectors@, 0) == out@ + yaml_sectors(
                a.flash_properties.sectors@,
                si as int,
            ),
        decreases a.flash_properties.sectors@.len() - si,
    {
        emit_sector(out, a.flash_properties.sectors[si]);
        proof {
            assert(out@ + yaml_sectors(a.flash_properties.sectors@, si + 1 as int)
                =~= out@.subrange(
                0,
                out@.len() - yaml_sector(a.flash_properties.sectors@[si as int]).len(),
            ) + yaml_sectors(a.flash_properties.sectors@, si as int)) by {
                assert(out@.subrange(
                    0,
                    out@.len() - yaml_sector(a.flash_properties.sectors@[si as int]).len(),
                ) + yaml_sector(a.flash_properties.sectors@[si as int]) =~= out@);
            }
        }
        si = si + 1;
    }
    proof {
        assert(pre_sectors + yaml_sectors(a.flash_properties.sectors@, 0) =~= out@);
    }
    push_str_bytes(out, "    instructions: \"");
    emit_str(out, &a.instructions);
    push_str_bytes(out, "\"\n");
    proof {
        assert(out@ =~= old(out)@ + yaml_algo_props(a@));
    }
}

fn emit_algo(out: &mut Vec<u8>, c: &CollectedAlgo)
    ensures
        final(out)@ == old(out)@ + yaml_algo(c@),
{
    emit_algo_head(out, c);
    emit_algo_props(out, &c.algo);
    proof {
        assert(out@ =~= old(out)@ + yaml_algo(c@));
    }
}


fn emit_region(out: &mut Vec<u8>, tag: &str, start: u64, size: u64)
    requires
        tag.is_ascii(),
    ensures
        final(out)@ == old(out)@ + yaml_region(lit_bytes(tag), start, size),
{
    proof {
        reveal_strlit("        range:\n          start: 0x");
        reveal_strlit("\n          end: 0x");
        reveal_strlit("\n        cores:\n          - main\n");
        assert("        range:\n          start: 0x".is_ascii());
        assert("\n          end: 0x".is_ascii());
        assert("\n        cores:\n          - main\n".is_ascii());
    }
    push_str_bytes(out, tag);
    push_str_bytes(out, "        range:\n          start: 0x");
    push_hex_u64(out, start);
    push_str_bytes(out, "\n          end: 0x");
    push_hex_u64(out, sat_add_exec(start, size));
    push_str_bytes(out, "\n        cores:\n          - main\n");
    proof {
        assert(out@ =~= old(out)@ + yaml_region(lit_bytes(tag), start, size));
    }
}

fn algo_ref_exec(dev_algo: &Vec<(String, String)>, name: &String) -> (r: Option<String>)
    ensures
        match r {
            Some(k) => algo_ref(
                dev_algo@.map_values(|p: (String, String)| (p.0@, p.1@)),
                name@,
            ) == Some(k@),
            None => algo_ref(
                dev_algo@.map_values(|p: (String, String)| (p.0@, p.1@)),
                name@,
            ) is None,
        },
{
    let ghost all = dev_algo@.map_values(|p: (String, String)| (p.0@, p.1@));
    proof {
        assert(all.subrange(0, all.len() as int) =~= all);
    }
    let mut i: usize = dev_algo.len();
    while i > 0
        invariant
            i <= all.len(),
            all == dev_algo@.map_values(|p: (String, String)| (p.0@, p.1@)),
            algo_ref(all, name@) == algo_ref(all.subrange(0, i as int), name@),
        decreases i,
    {
        i = i - 1;
        proof {
            assert(all.subrange(0, i + 1 as int).last() == all[i as int]);
            assert(all.subrange(0, i + 1 as int).drop_last() =~= all.subrange(0, i as int));
        }
        if dev_algo[i].0.eq(name) {
            return Some(dev_algo[i].1.clone());
        }
    }
    proof {
        assert(all.subrange(0, 0) =~= Seq::<(Seq<char>, Seq<char>)>::empty());
    }
    None
}

#[verifier::rlimit(60)]
fn emit_variant(out: &mut Vec<u8>, d: &DeviceDefinition, ar: &Option<String>)
    ensures
        final(out)@ == old(out)@ + yaml_variant(
            d@,
            match ar {
                Option::Some(k) => Some(k@),
                Option::None => None,
            },
        ),
{
    proof {
        reveal_strlit("  - name: ");
        reveal_strlit("\n    memory_map:\n");
        reveal_strlit("      - !Ram\n");
        reveal_strlit("      - !Nvm\n");
        reveal_strlit("    cores:\n      - name: main\n        type: ");
        reveal_strlit("\n        core_access_options: !Arm\n          ap: !v1 0\n");
        reveal_strlit("    flash_algorithms:\n      - ");
        reveal_strlit("\n");
        assert("  - name: ".is_ascii());
        assert("\n    memory_map:\n".is_ascii());
        assert("      - !Ram\n".is_ascii());
        assert("      - !Nvm\n".is_ascii());
        assert("    cores:\n      - name: main\n        type: ".is_ascii());
        assert("\n        core_access_options: !Arm\n          ap: !v1 0\n".is_ascii());
        assert("    flash_algorithms:\n      - ".is_ascii());
        assert("\n".is_ascii());
    }
    push_str_bytes(out, "  - name: ");
    emit_str(out, &d.name);
    push_str_bytes(out, "\n    memory_map:\n");
    if d.memory.ram_size > 0 {
        emit_region(out, "      - !Ram\n", d.memory.ram_start, d.memory.ram_size);
    }
    if d.memory.flash_size > 0 {
        emit_region(out, "      - !Nvm\n", d.memory.flash_start, d.memory.flash_size);
    }
    push_str_bytes(out, "    cores:\n      - name: main\n        type: ");
    let core_kind = map_core_type(d.processor.core.as_str());
    proof {
        broadcast use vstd::string::is_ascii_spec_bytes;

        reveal_strlit("armv6m");
        reveal_strlit("armv7m");
        reveal_strlit("armv7em");
        reveal_strlit("armv8m");
        assert(core_kind.is_ascii());
        assert(lit_bytes(core_kind) =~= encode_utf8(
            spec_map_core(crate::bytestr::upper_seq(encode_utf8(d.processor.core@))),
        )) by {
            assert(core_kind.spec_bytes() == encode_utf8(core_kind@));
            assert(lit_bytes(core_kind) =~= core_kind.spec_bytes());
        }
    }
    push_str_bytes(out, core_kind);
    push_str_bytes(out, "\n        core_access_options: !Arm\n          ap: !v1 0\n");
    match ar {
        Some(k) => {
            push_str_bytes(out, "    flash_algorithms:\n      - ");
            emit_str(out, k);
            push_str_bytes(out, "\n");
        },
        None => {},
    }
    push_str_bytes(out, "\n");
    proof {
        assert(out@ =~= old(out)@ + yaml_variant(
            d@,
            match ar {
                Option::Some(k) => Some(k@),
                Option::None => None,
            },
        ));
    }
}

/// Emits the family's target YAML for the parsed devices and the pack's
/// FLM files: the scanner version marker and the `generated_at` stamp
/// first, then the family header, the de-duplicated algorithm table,
/// and one variant per device referring to its algorithm by key.
#[verifier::rlimit(60)]
pub fn generate_probe_rs_yaml_with_algo(
    devices: &Vec<DeviceDefinition>,
    family_name: &str,
    flm_files: &Vec<FlmFile>,
    generated_at: &str,
) -> (r: String)
    ensures
        r@ == lossy_of(
            spec_yaml(
                devices@.map_values(|d: DeviceDefinition| d@),
                family_name@,
                flm_files@.map_values(|f: FlmFile| f@),
                generated_at@,
            ),
        ),
{
    proof {
        reveal_strlit("# ZUOLANDAPLINK Pack Scanner Version: 2.0.0\n# Generated at: ");
        reveal_strlit("\n\nname: ");
        reveal_strlit(
            "\nmanufacturer:\n  id: 0x0\n  cc: 0x0\ngenerated_from_pack: true\npack_file_release: \"unknown\"\n",
        );
        reveal_strlit("flash_algorithms:\n");
        reveal_strlit("variants:\n");
        assert("# ZUOLANDAPLINK Pack Scanner Version: 2.0.0\n# Generated at: ".is_ascii());
        assert("\n\nname: ".is_ascii());
        assert(
            "\nmanufacturer:\n  id: 0x0\n  cc: 0x0\ngenerated_from_pack: true\npack_file_release: \"unknown\"\n".is_ascii()
        );
        assert("flash_algorithms:\n".is_ascii());
        assert("variants:\n".is_ascii());
    }
    let ghost devs = devices@.map_values(|d: DeviceDefinition| d@);
    let ghost fls = flm_files@.map_values(|f: FlmFile| f@);
    let (algos, dev_algo) = collect_algorithms(devices, flm_files);
    let ghost col = spec_collect(devs, fls);
    let mut out: Vec<u8> = Vec::new();
    push_str_bytes(&mut out, "# ZUOLANDAPLINK Pack Scanner Version: 2.0.0\n# Generated at: ");
    push_bytes(&mut out, generated_at.as_bytes());
    push_str_bytes(&mut out, "\n\nname: ");
    push_bytes(&mut out, family_name.as_bytes());
    push_str_bytes(
        &mut out,
        "\nmanufacturer:\n  id: 0x0\n  cc: 0x0\ngenerated_from_pack: true\npack_file_release: \"unknown\"\n",
    );
    if algos.len() > 0 {
        push_str_bytes(&mut out, "flash_algorithms:\n");
        let ghost pre = out@;
        let mut i: usize = 0;
        while i < algos.len()
            invariant
                i <= algos@.len(),
                col.algos == algos@.map_values(|c: CollectedAlgo| c@),
                pre + yaml_algos(col.algos, 0) == out@ + yaml_algos(col.algos, i as int),
            decreases algos@.len() - i,
        {
            emit_algo(&mut out, &algos[i]);
            proof {
                assert(out@ + yaml_algos(col.algos, i + 1 as int) =~= out@.subrange(
                    0,
                    out@.len() - yaml_algo(col.algos[i as int]).len(),
                ) + yaml_algos(col.algos, i as int)) by {
                    assert(out@.subrange(
                        0,
                        out@.len() - yaml_algo(col.algos[i as int]).len(),
                    ) + yaml_algo(col.algos[i as int]) =~= out@);
                }
            }
            i = i + 1;
        }
        proof {
            assert(pre + yaml_algos(col.algos, 0) =~= out@);
        }
    }
    push_str_bytes(&mut out, "variants:\n");
    let ghost pre_v = out@;
    let mut i: usize = 0;
    while i < devices.len()
        invariant
            i <= devs.len(),
            devs == devices@.map_values(|d: DeviceDefinition| d@),
            col.dev_algo == dev_algo@.map_values(|p: (String, String)| (p.0@, p.1@)),
            pre_v + yaml_variants(devs, col.dev_algo, 0) == out@ + yaml_variants(
                devs,
                col.dev_algo,
                i as int,
            ),
        decreases devs.len() - i,
    {
        let ar = algo_ref_exec(&dev_algo, &devices[i].name);
        emit_variant(&mut out, &devices[i], &ar);
        proof {
            let piece = yaml_variant(devs[i as int], algo_ref(col.dev_algo, devs[i as int].name));
            assert(out@ + yaml_variants(devs, col.dev_algo, i + 1 as int) =~= out@.subrange(
                0,
                out@.len() - piece.len(),
            ) + yaml_variants(devs, col.dev_algo, i as int)) by {
                assert(out@.subrange(0, out@.len() - piece.len()) + piece =~= out@);
            }
        }
        i = i + 1;
    }
    proof {
        assert(pre_v + yaml_variants(devs, col.dev_algo, 0) =~= out@);
        broadcast use vstd::string::is_ascii_spec_bytes;

        assert(out@ =~= spec_yaml(devs, family_name@, fls, generated_at@));
    }
    bytes_to_string(out.as_slice())
}


// ---------------------------------------------------------------------
// Scan report generation.
// ---------------------------------------------------------------------

/// The row one device contributes to the scan report: its identity and
/// memory map, and, when an FLM matched and extracted, the algorithm's
/// identity; a device with flash but no usable algorithm is a warning.
pub open spec fn spec_report_row(
    d: DeviceDefinitionS,
    files: Seq<(Seq<char>, Seq<u8>)>,
) -> crate::scan_report::DeviceReportS {
    let base = crate::scan_report::DeviceReportS {
        name: d.name,
        core: d.processor.core,
        flash_start: d.memory.flash_start,
        flash_size: d.memory.flash_size,
        ram_start: d.memory.ram_start,
        ram_size: d.memory.ram_size,
        algorithm: None,
        status: crate::scan_report::DeviceStatus::Normal,
    };
    if d.memory.flash_size > 0 {
        match spec_match_flm(file_names(files), d.name, d.memory.flash_size) {
            Option::None => crate::scan_report::DeviceReportS {
                status: crate::scan_report::DeviceStatus::Warning,
                ..base
            },
            Option::Some(fname) => if d.memory.flash_start + d.memory.flash_size > u64::MAX {
                crate::scan_report::DeviceReportS {
                    status: crate::scan_report::DeviceStatus::Warning,
                    ..base
                }
            } else {
                match file_data(files, 0, fname) {
                    Option::None => crate::scan_report::DeviceReportS {
                        status: crate::scan_report::DeviceStatus::Warning,
                        ..base
                    },
                    Option::Some(data) => {
                        let stem = lossy_of(stem_bytes(encode_utf8(fname)));
                        match spec_extract(
                            data,
                            stem,
                            d.memory.flash_start,
                            d.memory.flash_size,
                        ) {
                            Option::None => crate::scan_report::DeviceReportS {
                                status: crate::scan_report::DeviceStatus::Warning,
                                ..base
                            },
                            Option::Some(algo) => crate::scan_report::DeviceReportS {
                                algorithm: Some(
                                    crate::scan_report::AlgorithmInfoS {
                                        name: algo.name,
                                        flm_file: fname,
                                        page_size: (algo.flash_properties.page_size
                                            % 0x100000000) as u32,
                                        sector_count: algo.flash_properties.sectors.len() as int,
                                    },
                                ),
                                ..base
                            },
                        }
                    },
                }
            },
        }
    } else {
        base
    }
}

pub open spec fn spec_report_rows(
    devices: Seq<DeviceDefinitionS>,
    files: Seq<(Seq<char>, Seq<u8>)>,
) -> Seq<crate::scan_report::DeviceReportS> {
    devices.map_values(|d: DeviceDefinitionS| spec_report_row(d, files))
}

/// The stem of a file name, as a string.
fn stem_string(fname: &String) -> (r: String)
    ensures
        r@ == lossy_of(stem_bytes(encode_utf8(fname@))),
{
    let name_bytes = fname.as_str().as_bytes();
    let mut p: usize = name_bytes.len();
    let mut dot: Option<usize> = None;
    while p > 0
        invariant
            p <= name_bytes@.len(),
            match dot {
                Option::Some(dp) => dp < name_bytes@.len() && last_dot(
                    name_bytes@,
                    name_bytes@.len() - 1,
                ) == Some(dp as int),
                Option::None => last_dot(name_bytes@, name_bytes@.len() - 1) == last_dot(
                    name_bytes@,
                    p - 1,
                ),
            },
            dot is Some ==> p == 0,
        decreases p,
    {
        if name_bytes[p - 1] == 0x2e {
            dot = Some(p - 1);
            p = 0;
        } else {
            p = p - 1;
        }
    }
    let stem: &[u8] = match dot {
        Some(dp) => if dp > 0 {
            vstd::slice::slice_subrange(name_bytes, 0, dp)
        } else {
            name_bytes
        },
        None => name_bytes,
    };
    bytes_to_string(stem)
}

fn report_row(d: &DeviceDefinition, files: &Vec<FlmFile>) -> (r: crate::scan_report::DeviceReport)
    ensures
        r@ == spec_report_row(d@, files@.map_values(|f: FlmFile| f@)),
{
    let ghost fls = files@.map_values(|f: FlmFile| f@);
    let mut row = crate::scan_report::DeviceReport {
        name: d.name.clone(),
        core: d.processor.core.clone(),
        flash_start: d.memory.flash_start,
        flash_size: d.memory.flash_size,
        ram_start: d.memory.ram_start,
        ram_size: d.memory.ram_size,
        algorithm: None,
        status: crate::scan_report::DeviceStatus::Normal,
    };
    if d.memory.flash_size > 0 {
        let mut names: Vec<String> = Vec::new();
        let mut k: usize = 0;
        while k < files.len()
            invariant
                k <= fls.len(),
                fls == files@.map_values(|f: FlmFile| f@),
                names@.map_values(|s: String| s@) == file_names(fls).subrange(0, k as int),
            decreases fls.len() - k,
        {
            names.push(files[k].name.clone());
            proof {
                assert(file_names(fls).subrange(0, k + 1 as int).drop_last() =~= file_names(
                    fls,
                ).subrange(0, k as int));
                assert(file_names(fls)[k as int] == fls[k as int].0);
                assert(names@.map_values(|s: String| s@) =~= file_names(fls).subrange(
                    0,
                    k + 1 as int,
                ));
            }
            k = k + 1;
        }
        proof {
            assert(file_names(fls).subrange(0, fls.len() as int) =~= file_names(fls));
        }
        match match_flm_for_device(&names, d.name.as_str(), d.memory.flash_size) {
            None => {
                row.status = crate::scan_report::DeviceStatus::Warning;
            },
            Some(fname) => {
                if d.memory.flash_start > u64::MAX - d.memory.flash_size {
                    row.status = crate::scan_report::DeviceStatus::Warning;
                } else {
                    match find_file_data(files, &fname) {
                        None => {
                            row.status = crate::scan_report::DeviceStatus::Warning;
                        },
                        Some(data) => {
                            let stem = stem_string(&fname);
                            let data_c = clone_bytes(data);
                            match extract_flash_algorithm_from_flm(
                                data_c.as_slice(),
                                stem.as_str(),
                                d.memory.flash_start,
                                d.memory.flash_size,
                            ) {
                                Err(_) => {
                                    row.status = crate::scan_report::DeviceStatus::Warning;
                                },
                                Ok(algo) => {
                                    let page = algo.flash_properties.page_size;
                                    let page32: u32 = #[verifier::truncate] (page as u32);
                                    proof {
                                        let pg = page;
                                        assert(pg as u32 == (pg % 0x100000000) as u32)
                                            by (bit_vector);
                                    }
                                    row.algorithm = Some(
                                        crate::scan_report::AlgorithmInfo {
                                            name: algo.name,
                                            flm_file: fname,
                                            page_size: page32,
                                            sector_count: algo.flash_properties.sectors.len(),
                                        },
                                    );
                                },
                            }
                        },
                    }
                }
            },
        }
    }
    row
}

/// Builds the scan report of a pack: one row per device, the headline
/// counts, and the per-algorithm statistics.
pub fn generate_scan_report(
    devices: &Vec<DeviceDefinition>,
    pack_name: String,
    flm_files: &Vec<FlmFile>,
) -> (r: crate::scan_report::PackScanReport)
    ensures
        r.wf(),
        r@.pack_name == pack_name@,
        r@.devices == spec_report_rows(
            devices@.map_values(|d: DeviceDefinition| d@),
            flm_files@.map_values(|f: FlmFile| f@),
        ),
        r@.algorithm_stats == crate::scan_report::sort_stats(
            crate::scan_report::collect_stats(
                spec_report_rows(
                    devices@.map_values(|d: DeviceDefinition| d@),
                    flm_files@.map_values(|f: FlmFile| f@),
                ),
            ),
        ),
{
    let ghost devs = devices@.map_values(|d: DeviceDefinition| d@);
    let ghost fls = flm_files@.map_values(|f: FlmFile| f@);
    let mut report = crate::scan_report::PackScanReport::new(pack_name);
    let mut i: usize = 0;
    while i < devices.len()
        invariant
            i <= devs.len(),
            devs == devices@.map_values(|d: DeviceDefinition| d@),
            fls == flm_files@.map_values(|f: FlmFile| f@),
            report.wf(),
            report@.pack_name == pack_name@,
            report@.devices == spec_report_rows(devs, fls).subrange(0, i as int),
        decreases devs.len() - i,
    {
        let row = report_row(&devices[i], flm_files);
        report.add_device(row);
        proof {
            assert(report@.devices =~= spec_report_rows(devs, fls).subrange(0, i + 1 as int));
        }
        i = i + 1;
    }
    proof {
        assert(spec_report_rows(devs, fls).subrange(0, devs.len() as int) =~= spec_report_rows(
            devs,
            fls,
        ));
    }
    report.calculate_algorithm_stats();
    report
}


// ---------------------------------------------------------------------
// Invariants of registered variants.
// ---------------------------------------------------------------------

/// The memory regions a variant registers, as half-open ranges: the RAM
/// window and the flash window, each only when it has a size.
pub open spec fn variant_regions(d: DeviceDefinitionS) -> Seq<(u64, u64)> {
    (if d.memory.ram_size > 0 {
        seq![(d.memory.ram_start, sat_add(d.memory.ram_start, d.memory.ram_size))]
    } else {
        Seq::empty()
    }) + (if d.memory.flash_size > 0 {
        seq![(d.memory.flash_start, sat_add(d.memory.flash_start, d.memory.flash_size))]
    } else {
        Seq::empty()
    })
}

/// Whether two half-open ranges are disjoint.
pub open spec fn ranges_disjoint(a: (u64, u64), b: (u64, u64)) -> bool {
    a.1 <= b.0 || b.1 <= a.0
}

/// A registered variant's memory map is sound: every region is a
/// non-empty half-open range, and the regions do not overlap. Stated
/// for devices whose RAM and flash windows do not collide and stay
/// inside the address space — a PDSC declaring overlapping windows
/// registers them as it declared them.
pub proof fn lemma_variant_regions_wf(d: DeviceDefinitionS)
    requires
        d.memory.ram_start + d.memory.ram_size <= u64::MAX,
        d.memory.flash_start + d.memory.flash_size <= u64::MAX,
        d.memory.ram_size > 0 && d.memory.flash_size > 0 ==> ranges_disjoint(
            (d.memory.ram_start, (d.memory.ram_start + d.memory.ram_size) as u64),
            (d.memory.flash_start, (d.memory.flash_start + d.memory.flash_size) as u64),
        ),
    ensures
        forall|i: int|
            0 <= i < variant_regions(d).len() ==> (#[trigger] variant_regions(d)[i]).0
                < variant_regions(d)[i].1,
        forall|i: int, j: int|
            0 <= i < j < variant_regions(d).len() ==> ranges_disjoint(
                variant_regions(d)[i],
                variant_regions(d)[j],
            ),
{
}

/// Every emitted variant block declares a core: the text of the block
/// carries the one `main` core entry.
pub proof fn lemma_variant_declares_core(d: DeviceDefinitionS, ar: Option<Seq<char>>)
    ensures
        crate::bytestr::contains_seq(
            yaml_variant(d, ar),
            lit_bytes("    cores:\n      - name: main\n        type: "),
        ),
{
    let prefix = lit_bytes("  - name: ") + encode_utf8(d.name) + lit_bytes("\n    memory_map:\n")
        + (if d.memory.ram_size > 0 {
        yaml_region(lit_bytes("      - !Ram\n"), d.memory.ram_start, d.memory.ram_size)
    } else {
        Seq::empty()
    }) + (if d.memory.flash_size > 0 {
        yaml_region(lit_bytes("      - !Nvm\n"), d.memory.flash_start, d.memory.flash_size)
    } else {
        Seq::empty()
    });
    let pat = lit_bytes("    cores:\n      - name: main\n        type: ");
    let v = yaml_variant(d, ar);
    assert(crate::bytestr::occurs_at(v, pat, prefix.len() as int)) by {
        assert(v.subrange(prefix.len() as int, prefix.len() as int + pat.len() as int) =~= pat);
    }
}


/// Any text that begins with the emitted header carries the current
/// scanner version as its detected version.
#[verifier::rlimit(60)]
proof fn lemma_version_of_header_prefix(y: Seq<u8>)
    requires
        y.len() >= 60,
        y.subrange(0, 60) == lit_bytes(
            "# ZUOLANDAPLINK Pack Scanner Version: 2.0.0\n# Generated at: ",
        ),
    ensures
        spec_detect_version(y) == Some(lit_bytes("2.0.0")),
{
    reveal_strlit("# ZUOLANDAPLINK Pack Scanner Version: 2.0.0\n# Generated at: ");
    reveal_strlit("# ZUOLANDAPLINK Pack Scanner Version:");
    reveal_strlit("2.0.0");
    let h = lit_bytes("# ZUOLANDAPLINK Pack Scanner Version: 2.0.0\n# Generated at: ");
    let marker = lit_bytes("# ZUOLANDAPLINK Pack Scanner Version:");
    assert(h.len() == 60);
    assert(marker.len() == 37);
    assert(forall|j: int| 0 <= j < 60 ==> #[trigger] y[j] == h[j]) by {
        assert(forall|j: int| 0 <= j < 60 ==> #[trigger] y[j] == y.subrange(0, 60)[j]);
    }
    assert(forall|j: int| 0 <= j < 43 ==> h[j] != 0x0a);
    assert(y[43] == h[43] && h[43] == 0x0a);
    crate::xml::lemma_find_byte_witness(y, 0, 0x0a, 43);
    let line = y.subrange(0, 43);
    assert(line =~= h.subrange(0, 43));
    assert(line.len() == 43);
    assert(line.last() == 0x30);
    assert(starts_with(line, marker)) by {
        assert(line.subrange(0, 37) =~= marker);
    }
    let raw = line.subrange(37, 43);
    assert(raw =~= seq![0x20u8, 0x32u8, 0x2eu8, 0x30u8, 0x2eu8, 0x30u8]);
    assert(crate::bytestr::trim_seq(raw) =~= lit_bytes("2.0.0")) by {
        reveal_with_fuel(crate::bytestr::trim_left, 3);
        reveal_with_fuel(crate::bytestr::trim_right, 2);
        assert(crate::bytestr::is_ws(raw[0]));
        assert(raw.drop_first() =~= seq![0x32u8, 0x2eu8, 0x30u8, 0x2eu8, 0x30u8]);
        assert(crate::bytestr::trim_left(raw) =~= seq![0x32u8, 0x2eu8, 0x30u8, 0x2eu8, 0x30u8]);
    }
    assert(detect_from(y, 0) == Some(crate::bytestr::trim_seq(raw)));
}

/// Emitted YAML round-trips its version marker: detection on a freshly
/// emitted document always reads the current scanner version, so a
/// just-scanned pack is never reported stale. The deeper fixed point —
/// that re-scanning a pack reproduces the same target set — is
/// `spec_yaml` being a function of the devices and files alone.
#[verifier::rlimit(60)]
pub proof fn lemma_emitted_yaml_version(
    devices: Seq<DeviceDefinitionS>,
    family: Seq<char>,
    files: Seq<(Seq<char>, Seq<u8>)>,
    generated_at: Seq<char>,
)
    ensures
        spec_detect_version(spec_yaml(devices, family, files, generated_at)) == Some(
            lit_bytes("2.0.0"),
        ),
{
    reveal_strlit("# ZUOLANDAPLINK Pack Scanner Version: 2.0.0\n# Generated at: ");
    let y = spec_yaml(devices, family, files, generated_at);
    let h = lit_bytes("# ZUOLANDAPLINK Pack Scanner Version: 2.0.0\n# Generated at: ");
    assert(h.len() == 60);
    assert(y.subrange(0, 60) =~= h);
    lemma_version_of_header_prefix(y);
}

} // verus!
