//! Crosslink protocol parameters given as a type, so that users can plug in
//! their own.

use vstd::prelude::*;

verus! {

/// Zcash Crosslink protocol parameters.
pub trait ZcashCrosslinkParameters {
    /// The best-chain confirmation depth, `σ`.
    const BC_CONFIRMATION_DEPTH_SIGMA: usize;
    /// The depth of unfinalized PoW blocks past which "Stalled Mode" activates, `L`.
    const FINALIZATION_GAP_BOUND: usize;
}

/// Crosslink parameters chosen for prototyping and testing.
#[derive(Clone, Copy, Debug)]
pub struct PrototypeParameters;

impl ZcashCrosslinkParameters for PrototypeParameters {
    const BC_CONFIRMATION_DEPTH_SIGMA: usize = 3;
    const FINALIZATION_GAP_BOUND: usize = 7;
}

} // verus!
