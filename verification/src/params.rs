//! The tunable numeric constants the search consumes, with their defaults
//! and legal ranges, and the value kinds a tuning interface distinguishes.
//!
//! Ratios that a tuner would express as fractions are held here as
//! integers scaled by one hundred, so that the search stays in integer
//! arithmetic throughout.

use vstd::prelude::*;

verus! {

/// The tunable search parameters. Each sits inside the range its
/// well-formedness demands; `Default` gives the played defaults.
pub struct SearchParams {
    /// Initial half-width of the aspiration window, centipawns.
    pub asp_init_delta: i16,
    /// Greatest depth at which reverse futility pruning applies, plies.
    pub rfp_ubound: u8,
    /// Reverse-futility margin per ply, centipawns.
    pub rfp_margin_coeff: i16,
    /// Greatest depth at which futility pruning applies, plies.
    pub fp_ubound: u8,
    /// Futility margin per ply, centipawns.
    pub fp_margin_coeff: i16,
    /// Slope of the late-move-reduction curve, hundredths.
    pub lmr_coeff_x100: i32,
    /// Base of the late-move-reduction curve, hundredths.
    pub lmr_const_x100: i32,
    /// Reduction adjustment when the position is improving, hundredths.
    pub lmr_improv_x100: i32,
    /// Reduction adjustment at principal-variation nodes, hundredths.
    pub lmr_pv_x100: i32,
    /// Slope of the history bonus in the depth.
    pub hist_bonus_coeff: i32,
    /// Constant term of the history bonus.
    pub hist_bonus_const: i32,
    /// Quiescence big-delta threshold, centipawns.
    pub dp_big_delta: i16,
    /// Quiescence delta-pruning margin, centipawns.
    pub dp_delta: i16,
}

impl SearchParams {
    pub open spec fn wf(self) -> bool {
        &&& 1 <= self.asp_init_delta <= 100
        &&& 1 <= self.rfp_ubound <= 16
        &&& 10 <= self.rfp_margin_coeff <= 200
        &&& 2 <= self.fp_ubound <= 16
        &&& 10 <= self.fp_margin_coeff <= 200
        &&& 10 <= self.lmr_coeff_x100 <= 300
        &&& 10 <= self.lmr_const_x100 <= 500
        &&& 10 <= self.lmr_improv_x100 <= 300
        &&& 10 <= self.lmr_pv_x100 <= 300
        &&& 10 <= self.hist_bonus_coeff <= 650
        &&& -650 <= self.hist_bonus_const <= -10
        &&& 700 <= self.dp_big_delta <= 2000
        &&& 50 <= self.dp_delta <= 500
    }
}

impl Default for SearchParams {
    fn default() -> (r: SearchParams)
        ensures
            r.wf(),
            r.asp_init_delta == 13,
            r.rfp_ubound == 2,
            r.rfp_margin_coeff == 120,
            r.fp_ubound == 2,
            r.fp_margin_coeff == 150,
            r.hist_bonus_coeff == 300,
            r.hist_bonus_const == -250,
            r.dp_big_delta == 1100,
            r.dp_delta == 200,
    {
        SearchParams {
            asp_init_delta: 13,
            rfp_ubound: 2,
            rfp_margin_coeff: 120,
            fp_ubound: 2,
            fp_margin_coeff: 150,
            lmr_coeff_x100: 40,
            lmr_const_x100: 278,
            lmr_improv_x100: 100,
            lmr_pv_x100: 100,
            hist_bonus_coeff: 300,
            hist_bonus_const: -250,
            dp_big_delta: 1100,
            dp_delta: 200,
        }
    }
}

/// The value kinds a tuning interface tells apart.
#[derive(Debug, Clone, Copy, PartialEq, Eq, Structural, Hash)]
pub enum Type {
    Int,
    Float,
}

impl Type {
    /// The option type a chess interface advertises for this kind.
    pub fn uci_type(&self) -> (r: &'static str)
        ensures
            (*self is Int) ==> r@ == "spin"@,
            (*self is Float) ==> r@ == "string"@,
    {
        match self {
            Type::Int => "spin",
            Type::Float => "string",
        }
    }

    /// The kind name a tuning harness expects.
    pub fn spsa_type(&self) -> (r: &'static str)
        ensures
            (*self is Int) ==> r@ == "int"@,
            (*self is Float) ==> r@ == "float"@,
    {
        match self {
            Type::Int => "int",
            Type::Float => "float",
        }
    }

    /// The language type a generated parameter field uses.
    pub fn rust_type(&self) -> (r: &'static str)
        ensures
            (*self is Int) ==> r@ == "i16"@,
            (*self is Float) ==> r@ == "f32"@,
    {
        match self {
            Type::Int => "i16",
            Type::Float => "f32",
        }
    }
}

} // verus!
