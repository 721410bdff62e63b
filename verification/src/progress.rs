//! Progress reporting for pack scans. A scan walks several phases; each
//! report names the phase, the item in hand, and a `current / total`
//! position inside the phase. Fractions are kept as integer pairs; the
//! presentation layer turns them into whatever ratio display it wants.

use vstd::prelude::*;

verus! {

/// The phases a pack scan goes through, in order.
#[derive(Clone, Copy, Debug, PartialEq, Eq, Structural)]
pub enum ScanPhase {
    Parsing,
    ExtractingDevices,
    FindingAlgorithms,
    MatchingAlgorithms,
    GeneratingYaml,
    Registering,
    Complete,
}

/// One progress report of a pack scan.
#[derive(Clone, Debug)]
pub struct PackScanProgress {
    pub phase: ScanPhase,
    pub current_item: String,
    pub current: usize,
    pub total: usize,
    pub message: String,
}

pub ghost struct PackScanProgressS {
    pub phase: ScanPhase,
    pub current_item: Seq<char>,
    pub current: int,
    pub total: int,
    pub message: Seq<char>,
}

impl View for PackScanProgress {
    type V = PackScanProgressS;

    open spec fn view(&self) -> PackScanProgressS {
        PackScanProgressS {
            phase: self.phase,
            current_item: self.current_item@,
            current: self.current as int,
            total: self.total as int,
            message: self.message@,
        }
    }
}

impl PackScanProgress {
    /// A report for `phase` at `current` of `total`, with no item.
    pub fn new(phase: ScanPhase, current: usize, total: usize, message: String) -> (r: Self)
        ensures
            r@ == (PackScanProgressS {
                phase,
                current_item: Seq::<char>::empty(),
                current: current as int,
                total: total as int,
                message: message@,
            }),
    {
        PackScanProgress { phase, current_item: String::new(), current, total, message }
    }

    /// The same report naming the item in hand.
    pub fn with_item(self, item: String) -> (r: Self)
        ensures
            r@ == (PackScanProgressS { current_item: item@, ..self@ }),
    {
        PackScanProgress { current_item: item, ..self }
    }

    /// Position of this report inside its phase, in parts per thousand;
    /// an empty phase counts as not started.
    pub fn phase_permille(&self) -> (r: u64)
        requires
            self.current <= self.total,
        ensures
            r == spec_phase_permille(self.current as int, self.total as int),
            r <= 1000,
    {
        proof {
            lemma_permille_bound(self.current as int, self.total as int);
        }
        if self.total > 0 {
            (((self.current as u128) * 1000) / (self.total as u128)) as u64
        } else {
            0
        }
    }

    /// Overall scan position in parts per thousand, weighting each phase
    /// by its share of the whole scan.
    pub fn overall_permille(&self) -> (r: u64)
        requires
            self.current <= self.total,
        ensures
            r == spec_overall_permille(self@),
    {
        let base: u64 = match self.phase {
            ScanPhase::Parsing => 0,
            ScanPhase::ExtractingDevices => 100,
            ScanPhase::FindingAlgorithms => 500,
            ScanPhase::MatchingAlgorithms => 600,
            ScanPhase::GeneratingYaml => 900,
            ScanPhase::Registering => 950,
            ScanPhase::Complete => 1000,
        };
        let range: u64 = match self.phase {
            ScanPhase::Parsing => 100,
            ScanPhase::ExtractingDevices => 400,
            ScanPhase::FindingAlgorithms => 100,
            ScanPhase::MatchingAlgorithms => 300,
            ScanPhase::GeneratingYaml => 50,
            ScanPhase::Registering => 50,
            ScanPhase::Complete => 0,
        };
        let pm = self.phase_permille();
        proof {
            lemma_permille_bound(self.current as int, self.total as int);
            assert(pm * range <= 1000 * 400) by (nonlinear_arith)
                requires
                    pm <= 1000,
                    range <= 400,
            ;
        }
        base + (pm * range) / 1000
    }
}

/// `current / total` in parts per thousand, zero for an empty total.
pub open spec fn spec_phase_permille(current: int, total: int) -> int {
    if total > 0 {
        (current * 1000) / total
    } else {
        0
    }
}

proof fn lemma_permille_bound(current: int, total: int)
    requires
        0 <= current,
        0 <= total,
    ensures
        current <= total ==> spec_phase_permille(current, total) <= 1000,
        spec_phase_permille(current, total) >= 0,
{
    if total > 0 {
        assert(current * 1000 >= 0) by (nonlinear_arith)
            requires
                current >= 0,
        ;
        vstd::arithmetic::div_mod::lemma_div_pos_is_pos(current * 1000, total);
        if current <= total {
            assert(current * 1000 <= total * 1000) by (nonlinear_arith)
                requires
                    current <= total,
            ;
            vstd::arithmetic::div_mod::lemma_div_is_ordered(current * 1000, total * 1000, total);
            vstd::arithmetic::div_mod::lemma_div_multiples_vanish(1000, total);
        }
    }
}

/// The weighted overall position that `overall_permille` reports.
pub open spec fn spec_overall_permille(p: PackScanProgressS) -> int {
    let base: int = match p.phase {
        ScanPhase::Parsing => 0,
        ScanPhase::ExtractingDevices => 100,
        ScanPhase::FindingAlgorithms => 500,
        ScanPhase::MatchingAlgorithms => 600,
        ScanPhase::GeneratingYaml => 900,
        ScanPhase::Registering => 950,
        ScanPhase::Complete => 1000,
    };
    let range: int = match p.phase {
        ScanPhase::Parsing => 100,
        ScanPhase::ExtractingDevices => 400,
        ScanPhase::FindingAlgorithms => 100,
        ScanPhase::MatchingAlgorithms => 300,
        ScanPhase::GeneratingYaml => 50,
        ScanPhase::Registering => 50,
        ScanPhase::Complete => 0,
    };
    base + (spec_phase_permille(p.current, p.total) * range) / 1000
}

} // verus!
