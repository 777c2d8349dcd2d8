//! The three per-cell injection points of the map: the jitter-seed
//! function, the roughness hook and the post hook. Each is a one-method
//! trait whose executable method is pinned to a specification function,
//! so that the map's contracts can speak about the hooked values.

use vstd::prelude::*;

use crate::height::HEIGHT_LIMIT;
use crate::noise::jitter;
use crate::noise::jitter_spec;

verus! {

/// Supplies the per-cell jitter seed that feeds the 16-bit draw.
pub trait GenRand: Sized {
    /// What the hook returns, as a specification value.
    spec fn spec_rand(&self, x: u32, y: u32, seed: u64) -> u64;

    /// Returns the jitter seed for the cell `(x, y)`.
    fn rand(&self, x: u32, y: u32, seed: u64) -> (r: u64)
        ensures
            r == self.spec_rand(x, y, seed),
    ;
}

/// Maps the stored roughness to the roughness used at one cell.
pub trait CalcRoughness: Sized {
    /// What the hook returns, as a specification value.
    spec fn spec_roughness(&self, x: u32, y: u32, r: u16) -> u16;

    /// Returns the roughness for the cell `(x, y)`.
    fn roughness(&self, x: u32, y: u32, r: u16) -> (out: u16)
        ensures
            out == self.spec_roughness(x, y, r),
    ;
}

/// Rewrites a freshly blended height before it is stored.
pub trait ChangeCalcedH: Sized {
    /// What the hook returns, as a specification value.
    spec fn spec_change(&self, x: u32, y: u32, h: i64) -> i64;

    /// The hook keeps heights inside the storable range.
    proof fn lemma_change_bounded(&self, x: u32, y: u32, h: i64)
        requires
            -HEIGHT_LIMIT <= h <= HEIGHT_LIMIT,
        ensures
            -HEIGHT_LIMIT <= self.spec_change(x, y, h) <= HEIGHT_LIMIT,
    ;

    /// Rewrites the blended height for the cell `(x, y)`.
    fn change(&self, x: u32, y: u32, h: i64) -> (out: i64)
        requires
            -HEIGHT_LIMIT <= h <= HEIGHT_LIMIT,
        ensures
            out == self.spec_change(x, y, h),
    ;
}

/// The default jitter-seed hook: the deterministic residue mix.
#[derive(Clone, Copy)]
pub struct DefaultGenRand;

/// The default roughness hook: the identity.
#[derive(Clone, Copy)]
pub struct DefaultCalcRoughness;

/// The default post hook: the identity.
#[derive(Clone, Copy)]
pub struct DefaultChangeCalcedH;

impl GenRand for DefaultGenRand {
    open spec fn spec_rand(&self, x: u32, y: u32, seed: u64) -> u64 {
        jitter_spec(x, y, seed)
    }

    fn rand(&self, x: u32, y: u32, seed: u64) -> (r: u64) {
        jitter(x, y, seed)
    }
}

impl CalcRoughness for DefaultCalcRoughness {
    open spec fn spec_roughness(&self, x: u32, y: u32, r: u16) -> u16 {
        r
    }

    fn roughness(&self, x: u32, y: u32, r: u16) -> (out: u16) {
        r
    }
}

impl ChangeCalcedH for DefaultChangeCalcedH {
    open spec fn spec_change(&self, x: u32, y: u32, h: i64) -> i64 {
        h
    }

    proof fn lemma_change_bounded(&self, x: u32, y: u32, h: i64) {
    }

    fn change(&self, x: u32, y: u32, h: i64) -> (out: i64) {
        h
    }
}

} // verus!
