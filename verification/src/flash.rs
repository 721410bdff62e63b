//! Flash programming: image format selection, download planning, the
//! progress model that folds the loader's callbacks into one overall
//! fraction, and byte-exact verification. Fractions are kept in basis
//! points (ten-thousandths), never floating point: erase fills 0–30%,
//! programming 30–90%, finishing 95%, reset 98%, completion 100%.

use vstd::prelude::*;
use crate::bytestr::{bytes_eq_str, lit_bytes};

verus! {

use vstd::utf8::encode_utf8;

/// Whether erase covers the whole chip or only the touched sectors.
#[derive(Debug, Clone, Copy, PartialEq, Eq, Structural)]
pub enum EraseMode {
    ChipErase,
    SectorErase,
}

impl Default for EraseMode {
    fn default() -> (r: Self)
        ensures
            r == EraseMode::ChipErase,
    {
        EraseMode::ChipErase
    }
}

/// A flash request as the caller states it.
#[derive(Debug, Clone)]
pub struct FlashOptions {
    pub file_path: String,
    pub verify: bool,
    pub skip_erase: bool,
    pub reset_after: bool,
    pub erase_mode: EraseMode,
    pub use_custom_address: Option<bool>,
    pub custom_flash_address: Option<u64>,
    pub custom_flash_size: Option<u64>,
    pub flash_algorithm: Option<String>,
    pub preverify: bool,
}

/// One progress report: the phase, the overall position in basis
/// points (0 to 10000), and a short message.
#[derive(Debug, Clone)]
pub struct FlashProgressEvent {
    pub phase: String,
    pub progress: u32,
    pub message: String,
}

#[derive(Debug, Clone, Copy, PartialEq, Eq, Structural)]
pub struct EraseChipOptions {
    pub erase_mode: EraseMode,
}

#[derive(Debug, Clone, Copy, PartialEq, Eq, Structural)]
pub struct EraseSectorOptions {
    pub address: u64,
    pub size: u64,
}

#[derive(Debug, Clone, Copy, PartialEq, Eq, Structural)]
pub struct ReadFlashOptions {
    pub address: u64,
    pub size: u64,
}

/// Facts about a firmware file on disk.
#[derive(Debug, Clone)]
pub struct FirmwareFileInfo {
    pub path: String,
    pub size: u64,
    pub modified: Option<u64>,
    pub exists: bool,
}

// ---------------------------------------------------------------------
// Image format selection.
// ---------------------------------------------------------------------

/// The firmware container formats the engine downloads.
#[derive(Debug, Clone, Copy, PartialEq, Eq, Structural)]
pub enum ImageFormat {
    Hex,
    Bin,
    Elf,
}

/// The format selected by a file extension, already lower-cased:
/// `hex`/`ihex` are Intel HEX, `bin` raw binary, everything else
/// (the ELF family and unknown extensions alike) ELF.
pub open spec fn spec_format_for(ext_lower: Option<Seq<char>>) -> ImageFormat {
    match ext_lower {
        Option::Some(e) => if encode_utf8(e) == lit_bytes("hex") || encode_utf8(e) == lit_bytes(
            "ihex",
        ) {
            ImageFormat::Hex
        } else if encode_utf8(e) == lit_bytes("bin") {
            ImageFormat::Bin
        } else {
            ImageFormat::Elf
        },
        Option::None => ImageFormat::Elf,
    }
}

/// Selects the image format from the lower-cased file extension.
pub fn detect_format(ext_lower: &Option<String>) -> (r: ImageFormat)
    ensures
        r == spec_format_for(
            match ext_lower {
                Option::Some(e) => Some(e@),
                Option::None => None,
            },
        ),
{
    proof {
        reveal_strlit("hex");
        reveal_strlit("ihex");
        reveal_strlit("bin");
        assert("hex".is_ascii() && "ihex".is_ascii() && "bin".is_ascii());
    }
    match ext_lower {
        Some(e) => {
            if bytes_eq_str(e.as_str().as_bytes(), "hex") || bytes_eq_str(
                e.as_str().as_bytes(),
                "ihex",
            ) {
                ImageFormat::Hex
            } else if bytes_eq_str(e.as_str().as_bytes(), "bin") {
                ImageFormat::Bin
            } else {
                ImageFormat::Elf
            }
        },
        None => ImageFormat::Elf,
    }
}

/// The base address for a raw binary image: the caller's custom address
/// when requested, else the target's first flash region, else the
/// conventional `0x0800_0000`.
pub fn bin_base_address(
    use_custom: Option<bool>,
    custom_address: Option<u64>,
    first_nvm_start: Option<u64>,
) -> (r: u64)
    ensures
        r == (if use_custom is Some && use_custom->0 {
            match custom_address {
                Option::Some(a) => a,
                Option::None => 0x08000000u64,
            }
        } else {
            match first_nvm_start {
                Option::Some(a) => a,
                Option::None => 0x08000000u64,
            }
        }),
{
    let use_it = match use_custom {
        Some(b) => b,
        None => false,
    };
    if use_it {
        match custom_address {
            Some(a) => a,
            None => 0x08000000,
        }
    } else {
        match first_nvm_start {
            Some(a) => a,
            None => 0x08000000,
        }
    }
}

/// What the downloader is told to do about erasing and checking.
#[derive(Debug, Clone, Copy, PartialEq, Eq, Structural)]
pub struct DownloadPlan {
    pub do_chip_erase: bool,
    pub skip_erase: bool,
    pub verify: bool,
    pub preverify: bool,
}

/// Turns the caller's request into the downloader's switches:
/// `skip_erase` suppresses erasing entirely; otherwise chip erase is
/// chosen exactly for `ChipErase` mode; verify and preverify pass
/// through unchanged.
pub fn download_plan(options: &FlashOptions) -> (r: DownloadPlan)
    ensures
        r.skip_erase == options.skip_erase,
        r.do_chip_erase == (!options.skip_erase && options.erase_mode == EraseMode::ChipErase),
        r.verify == options.verify,
        r.preverify == options.preverify,
{
    let mut plan = DownloadPlan {
        do_chip_erase: false,
        skip_erase: false,
        verify: options.verify,
        preverify: options.preverify,
    };
    if options.skip_erase {
        plan.skip_erase = true;
    } else {
        match options.erase_mode {
            EraseMode::ChipErase => {
                plan.do_chip_erase = true;
            },
            EraseMode::SectorErase => {},
        }
    }
    plan
}

// ---------------------------------------------------------------------
// Progress accounting.
// ---------------------------------------------------------------------

/// The loader's operations, as its callbacks name them.
#[derive(Debug, Clone, Copy, PartialEq, Eq, Structural)]
pub enum ProgressOperation {
    Fill,
    Erase,
    Program,
    Verify,
}

/// One callback from the flash loader.
#[derive(Debug, Clone)]
pub enum LoaderEvent {
    FlashLayoutReady,
    AddProgressBar { operation: ProgressOperation, total: Option<u64> },
    Started(ProgressOperation),
    Progress { operation: ProgressOperation, size: u64 },
    Failed(ProgressOperation),
    Finished(ProgressOperation),
    DiagnosticMessage { message: String },
}

/// Byte totals and positions of the erase and program phases.
#[derive(Debug, Clone, Copy, PartialEq, Eq, Structural)]
pub struct ProgressState {
    pub erase_total: u64,
    pub erase_current: u64,
    pub program_total: u64,
    pub program_current: u64,
}

/// Positions never pass their totals.
pub open spec fn progress_wf(st: ProgressState) -> bool {
    &&& st.erase_current <= st.erase_total
    &&& st.program_current <= st.program_total
}

/// The overall fraction in basis points: programming maps onto
/// 3000–9000, erase before it onto 0–3000, nothing yet is zero.
pub open spec fn spec_progress(st: ProgressState) -> int {
    if st.program_total > 0 {
        3000 + (st.program_current * 6000) / (st.program_total as int)
    } else if st.erase_total > 0 {
        (st.erase_current * 3000) / (st.erase_total as int)
    } else {
        0
    }
}

pub open spec fn sat_add64(a: u64, b: u64) -> u64 {
    if a + b > u64::MAX {
        u64::MAX
    } else {
        (a + b) as u64
    }
}

/// The state after one loader event: a bar's total arrives with
/// `AddProgressBar`, `Started` zeroes the position, `Progress` advances
/// it (the erase total stretches to cover overruns); everything else
/// leaves the counters alone.
pub open spec fn spec_apply_event(st: ProgressState, ev: LoaderEvent) -> ProgressState {
    match ev {
        LoaderEvent::AddProgressBar { operation, total } => match operation {
            ProgressOperation::Erase => ProgressState {
                erase_total: match total {
                    Option::Some(t) => t,
                    Option::None => 0,
                },
                ..st
            },
            ProgressOperation::Program => ProgressState {
                program_total: match total {
                    Option::Some(t) => t,
                    Option::None => 0,
                },
                ..st
            },
            _ => st,
        },
        LoaderEvent::Started(op) => match op {
            ProgressOperation::Erase => ProgressState { erase_current: 0, ..st },
            ProgressOperation::Program => ProgressState { program_current: 0, ..st },
            _ => st,
        },
        LoaderEvent::Progress { operation, size } => match operation {
            ProgressOperation::Erase => {
                let ec = sat_add64(st.erase_current, size);
                ProgressState {
                    erase_current: ec,
                    erase_total: if ec > st.erase_total {
                        ec
                    } else {
                        st.erase_total
                    },
                    ..st
                }
            },
            ProgressOperation::Program => ProgressState {
                program_current: sat_add64(st.program_current, size),
                ..st
            },
            _ => st,
        },
        _ => st,
    }
}

/// The phase name an event reports under.
pub open spec fn spec_phase_of(ev: LoaderEvent) -> Seq<char> {
    match ev {
        LoaderEvent::FlashLayoutReady => "init"@,
        LoaderEvent::AddProgressBar { .. } => "init"@,
        LoaderEvent::Started(op) | LoaderEvent::Progress { operation: op, .. } | LoaderEvent::Failed(
            op,
        ) | LoaderEvent::Finished(op) => match op {
            ProgressOperation::Fill => "fill"@,
            ProgressOperation::Erase => "erase"@,
            ProgressOperation::Program => "program"@,
            ProgressOperation::Verify => "verify"@,
        },
        LoaderEvent::DiagnosticMessage { .. } => "info"@,
    }
}

impl ProgressState {
    /// Counters at zero: nothing planned, nothing done.
    pub fn new() -> (r: Self)
        ensures
            r.erase_total == 0,
            r.erase_current == 0,
            r.program_total == 0,
            r.program_current == 0,
            progress_wf(r),
    {
        ProgressState { erase_total: 0, erase_current: 0, program_total: 0, program_current: 0 }
    }

    /// The overall fraction in basis points, at most 9000 while the
    /// loader still runs.
    pub fn calculate_progress(&self) -> (r: u32)
        requires
            progress_wf(*self),
        ensures
            r as int == spec_progress(*self),
            r <= 9000,
    {
        proof {
            lemma_progress_bounds(*self);
        }
        if self.program_total > 0 {
            3000 + ((self.program_current as u128 * 6000) / (self.program_total as u128)) as u32
        } else if self.erase_total > 0 {
            ((self.erase_current as u128 * 3000) / (self.erase_total as u128)) as u32
        } else {
            0
        }
    }

    /// Folds one loader event in and names its phase.
    pub fn apply_event(&mut self, ev: &LoaderEvent) -> (phase: &'static str)
        ensures
            *final(self) == spec_apply_event(*old(self), *ev),
            phase@ == spec_phase_of(*ev),
    {
        match ev {
            LoaderEvent::FlashLayoutReady => "init",
            LoaderEvent::AddProgressBar { operation, total } => {
                let t = match total {
                    Some(t) => *t,
                    None => 0,
                };
                match operation {
                    ProgressOperation::Erase => {
                        self.erase_total = t;
                    },
                    ProgressOperation::Program => {
                        self.program_total = t;
                    },
                    _ => {},
                }
                "init"
            },
            LoaderEvent::Started(op) => {
                match op {
                    ProgressOperation::Erase => {
                        self.erase_current = 0;
                    },
                    ProgressOperation::Program => {
                        self.program_current = 0;
                    },
                    _ => {},
                }
                op_phase(*op)
            },
            LoaderEvent::Progress { operation, size } => {
                match operation {
                    ProgressOperation::Erase => {
                        let ec = if self.erase_current > u64::MAX - *size {
                            u64::MAX
                        } else {
                            self.erase_current + *size
                        };
                        self.erase_current = ec;
                        if ec > self.erase_total {
                            self.erase_total = ec;
                        }
                    },
                    ProgressOperation::Program => {
                        self.program_current = if self.program_current > u64::MAX - *size {
                            u64::MAX
                        } else {
                            self.program_current + *size
                        };
                    },
                    _ => {},
                }
                op_phase(*operation)
            },
            LoaderEvent::Failed(op) => op_phase(*op),
            LoaderEvent::Finished(op) => op_phase(*op),
            LoaderEvent::DiagnosticMessage { .. } => "info",
        }
    }
}

fn op_phase(op: ProgressOperation) -> (r: &'static str)
    ensures
        r@ == match op {
            ProgressOperation::Fill => "fill"@,
            ProgressOperation::Erase => "erase"@,
            ProgressOperation::Program => "program"@,
            ProgressOperation::Verify => "verify"@,
        },
{
    match op {
        ProgressOperation::Fill => "fill",
        ProgressOperation::Erase => "erase",
        ProgressOperation::Program => "program",
        ProgressOperation::Verify => "verify",
    }
}

proof fn lemma_progress_bounds(st: ProgressState)
    requires
        progress_wf(st),
    ensures
        0 <= spec_progress(st) <= 9000,
        st.program_total > 0 ==> (st.program_current * 6000) / (st.program_total as int) <= 6000,
        st.erase_total > 0 ==> (st.erase_current * 3000) / (st.erase_total as int) <= 3000,
{
    if st.program_total > 0 {
        let pc = st.program_current as int;
        let pt = st.program_total as int;
        assert(pc * 6000 >= 0) by (nonlinear_arith)
            requires
                pc >= 0,
        ;
        vstd::arithmetic::div_mod::lemma_div_pos_is_pos(pc * 6000, pt);
        assert(pc * 6000 <= pt * 6000) by (nonlinear_arith)
            requires
                pc <= pt,
        ;
        vstd::arithmetic::div_mod::lemma_div_is_ordered(pc * 6000, pt * 6000, pt);
        vstd::arithmetic::div_mod::lemma_div_multiples_vanish(6000, pt);
    }
    if st.erase_total > 0 {
        let ec = st.erase_current as int;
        let et = st.erase_total as int;
        assert(ec * 3000 >= 0) by (nonlinear_arith)
            requires
                ec >= 0,
        ;
        vstd::arithmetic::div_mod::lemma_div_pos_is_pos(ec * 3000, et);
        assert(ec * 3000 <= et * 3000) by (nonlinear_arith)
            requires
                ec <= et,
        ;
        vstd::arithmetic::div_mod::lemma_div_is_ordered(ec * 3000, et * 3000, et);
        vstd::arithmetic::div_mod::lemma_div_multiples_vanish(3000, et);
    }
}

/// Whether an event may arrive in this state if the loader behaves:
/// bars are announced before their phase moves, phases start once, and
/// programming never reports past its announced total.
pub open spec fn event_permitted(st: ProgressState, ev: LoaderEvent) -> bool {
    match ev {
        LoaderEvent::AddProgressBar { operation, .. } => match operation {
            ProgressOperation::Erase => st.erase_current == 0 && st.erase_total == 0,
            ProgressOperation::Program => st.program_current == 0 && st.program_total == 0,
            _ => true,
        },
        LoaderEvent::Started(op) => match op {
            ProgressOperation::Erase => st.erase_current == 0,
            ProgressOperation::Program => st.program_current == 0,
            _ => true,
        },
        LoaderEvent::Progress { operation, size } => match operation {
            ProgressOperation::Program => st.program_current + size <= st.program_total,
            _ => true,
        },
        _ => true,
    }
}

/// The progress fraction never falls: folding any permitted loader
/// event into a well-formed state keeps the state well-formed and keeps
/// the overall fraction non-decreasing.
pub proof fn lemma_progress_monotone(st: ProgressState, ev: LoaderEvent)
    requires
        progress_wf(st),
        event_permitted(st, ev),
    ensures
        progress_wf(spec_apply_event(st, ev)),
        spec_progress(spec_apply_event(st, ev)) >= spec_progress(st),
{
    let st2 = spec_apply_event(st, ev);
    lemma_progress_bounds(st);
    match ev {
        LoaderEvent::AddProgressBar { operation, total } => {
            lemma_progress_bounds(st2);
            match operation {
                ProgressOperation::Program => {
                    assert(st.program_current == 0);
                    assert(st2.program_current == 0);
                    assert(st.program_current * 6000 == 0) by (nonlinear_arith)
                        requires
                            st.program_current == 0,
                    ;
                    assert(st2.program_current * 6000 == 0) by (nonlinear_arith)
                        requires
                            st2.program_current == 0,
                    ;
                    if st.program_total > 0 {
                        vstd::arithmetic::div_mod::lemma_div_of0(st.program_total as int);
                    }
                    if st2.program_total > 0 {
                        vstd::arithmetic::div_mod::lemma_div_of0(st2.program_total as int);
                    }
                },
                ProgressOperation::Erase => {
                    assert(st.erase_current == 0);
                    assert(st2.erase_current == 0);
                    assert(st.erase_current * 3000 == 0) by (nonlinear_arith)
                        requires
                            st.erase_current == 0,
                    ;
                    assert(st2.erase_current * 3000 == 0) by (nonlinear_arith)
                        requires
                            st2.erase_current == 0,
                    ;
                    if st.erase_total > 0 {
                        vstd::arithmetic::div_mod::lemma_div_of0(st.erase_total as int);
                    }
                    if st2.erase_total > 0 {
                        vstd::arithmetic::div_mod::lemma_div_of0(st2.erase_total as int);
                    }
                },
                _ => {},
            }
        },
        LoaderEvent::Started(op) => {
            lemma_progress_bounds(st2);
        },
        LoaderEvent::Progress { operation, size } => {
            match operation {
                ProgressOperation::Erase => {
                    lemma_progress_bounds(st2);
                    if st.program_total == 0 && st.erase_total > 0 {
                        let ec = st.erase_current as int;
                        let et = st.erase_total as int;
                        let ec2 = st2.erase_current as int;
                        let et2 = st2.erase_total as int;
                        if et2 == et {
                            assert(ec2 * 3000 >= ec * 3000) by (nonlinear_arith)
                                requires
                                    ec2 >= ec,
                            ;
                            vstd::arithmetic::div_mod::lemma_div_is_ordered(
                                ec * 3000,
                                ec2 * 3000,
                                et,
                            );
                        } else {
                            assert(ec2 == et2);
                            assert(ec2 * 3000 == et2 * 3000) by (nonlinear_arith)
                                requires
                                    ec2 == et2,
                            ;
                            vstd::arithmetic::div_mod::lemma_div_multiples_vanish(3000, et2);
                            assert(spec_progress(st2) == 3000);
                        }
                    }
                },
                ProgressOperation::Program => {
                    if st.program_total > 0 {
                        let pc = st.program_current as int;
                        let pc2 = st2.program_current as int;
                        let pt = st.program_total as int;
                        assert(pc2 * 6000 >= pc * 6000) by (nonlinear_arith)
                            requires
                                pc2 >= pc,
                        ;
                        vstd::arithmetic::div_mod::lemma_div_is_ordered(pc * 6000, pc2 * 6000, pt);
                        lemma_progress_bounds(st2);
                    }
                },
                _ => {},
            }
        },
        _ => {},
    }
}

/// The terminal event of a flash run: `complete` at the full fraction
/// on success, `error` on failure — exactly one of the two.
pub fn final_flash_event(success: bool) -> (r: FlashProgressEvent)
    ensures
        success ==> r.phase@ == "complete"@ && r.progress == 10000,
        !success ==> r.phase@ == "error"@,
        r.phase@ == "complete"@ || r.phase@ == "error"@,
        !(r.phase@ == "complete"@ && r.phase@ == "error"@),
{
    proof {
        reveal_strlit("complete");
        reveal_strlit("error");
        assert("complete"@.len() == 8);
        assert("error"@.len() == 5);
    }
    if success {
        FlashProgressEvent {
            phase: String::from_str("complete"),
            progress: 10000,
            message: String::from_str("flash finished"),
        }
    } else {
        FlashProgressEvent {
            phase: String::from_str("error"),
            progress: 0,
            message: String::from_str("flash failed"),
        }
    }
}

/// The fixed trailing reports after the loader returns: finishing at
/// 95%, optionally reset at 98%, then the terminal event at 100%; the
/// fractions never fall and the last event is `complete`.
pub fn completion_events(reset_after: bool) -> (r: Vec<FlashProgressEvent>)
    ensures
        r@.len() == (if reset_after {
            3int
        } else {
            2int
        }),
        r@.last().phase@ == "complete"@,
        r@.last().progress == 10000,
        forall|i: int| 0 <= i < r@.len() - 1 ==> #[trigger] r@[i].progress <= r@[i + 1].progress,
{
    let mut out: Vec<FlashProgressEvent> = Vec::new();
    out.push(
        FlashProgressEvent {
            phase: String::from_str("finishing"),
            progress: 9500,
            message: String::from_str("download finished"),
        },
    );
    if reset_after {
        out.push(
            FlashProgressEvent {
                phase: String::from_str("reset"),
                progress: 9800,
                message: String::from_str("resetting the core"),
            },
        );
    }
    out.push(final_flash_event(true));
    out
}

// ---------------------------------------------------------------------
// Verification.
// ---------------------------------------------------------------------

/// The first index at which the two byte strings differ, `None` when
/// none differs over the image's length.
pub open spec fn first_mismatch(image: Seq<u8>, read: Seq<u8>) -> Option<int>
    decreases image.len(),
{
    if image.len() == 0 {
        None
    } else if image[0] != read[0] {
        Some(0)
    } else {
        match first_mismatch(image.drop_first(), read.drop_first()) {
            Option::Some(i) => Some(i + 1),
            Option::None => None,
        }
    }
}

proof fn lemma_first_mismatch(image: Seq<u8>, read: Seq<u8>, j: int)
    requires
        read.len() >= image.len(),
        0 <= j <= image.len(),
        forall|k: int| 0 <= k < j ==> image[k] == read[k],
        j < image.len() ==> image[j] != read[j],
    ensures
        j < image.len() ==> first_mismatch(image, read) == Some(j),
        j == image.len() ==> first_mismatch(image, read) is None,
    decreases j, image.len(),
{
    if image.len() == 0 {
    } else if j == 0 {
    } else {
        assert(image[0] == read[0]);
        lemma_first_mismatch(image.drop_first(), read.drop_first(), j - 1);
        assert(forall|k: int|
            0 <= k < j - 1 ==> image.drop_first()[k] == image[k + 1] && read.drop_first()[k]
                == read[k + 1]);
    }
}

/// Compares the flashed image against what was read back: `None` when
/// every byte agrees, else the target address of the first mismatch.
pub fn verify_firmware_bytes(image: &[u8], read_back: &[u8], flash_start: u64) -> (r: Option<u64>)
    requires
        read_back@.len() >= image@.len(),
        flash_start + image@.len() <= u64::MAX,
    ensures
        match r {
            Option::None => first_mismatch(image@, read_back@) is None && image@ == read_back@.subrange(
                0,
                image@.len() as int,
            ),
            Option::Some(addr) => {
                let i = first_mismatch(image@, read_back@);
                i is Some && addr == flash_start + i->0
            },
        },
{
    let mut j: usize = 0;
    while j < image.len()
        invariant
            j <= image@.len(),
            read_back@.len() >= image@.len(),
            flash_start + image@.len() <= u64::MAX,
            forall|k: int| 0 <= k < j ==> image@[k] == read_back@[k],
        decreases image@.len() - j,
    {
        if image[j] != read_back[j] {
            proof {
                lemma_first_mismatch(image@, read_back@, j as int);
            }
            return Some(flash_start + j as u64);
        }
        j = j + 1;
    }
    proof {
        lemma_first_mismatch(image@, read_back@, image@.len() as int);
        assert(image@ =~= read_back@.subrange(0, image@.len() as int));
    }
    None
}


/// Verifying an image against itself always passes: reading back
/// exactly what was flashed reports no mismatch.
pub proof fn lemma_verify_same_image(image: Seq<u8>)
    ensures
        first_mismatch(image, image) is None,
    decreases image.len(),
{
    if image.len() > 0 {
        lemma_verify_same_image(image.drop_first());
    }
}

/// Changing exactly one byte of what is read back makes verification
/// fail at exactly that byte: the first mismatch is the modified index.
pub proof fn lemma_verify_modified_byte(image: Seq<u8>, read_back: Seq<u8>, j: int)
    requires
        read_back.len() >= image.len(),
        0 <= j < image.len(),
        forall|k: int| 0 <= k < image.len() && k != j ==> image[k] == read_back[k],
        image[j] != read_back[j],
    ensures
        first_mismatch(image, read_back) == Some(j),
{
    lemma_first_mismatch(image, read_back, j);
}

} // verus!
