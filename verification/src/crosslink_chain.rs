//! Crosslink protocol parameters and the BFT payload: protocol types without
//! networking, BFT-engine details or I/O.

pub mod bft;
pub mod params;
pub mod util;

use vstd::prelude::*;
use crate::block_header::{
    check_headers, headers_valid, is_first_header_fault, Header, HeaderFault,
};

verus! {

/// The BFT block content for Crosslink: the PoW headers of a proposal,
/// starting from the latest known PoW tip and going back in time.
///
/// `try_from` is the only constructor and checks the number of headers.
#[derive(Clone, Debug, PartialEq, Eq, PartialOrd, Ord)]
pub struct BftPayload {
    /// The PoW Headers
    pub headers: Vec<Header>,
}

/// Validation error for `BftPayload`.
#[derive(Clone, Copy, Debug, PartialEq, Eq)]
pub enum InvalidBftPayload {
    /// An incorrect number of headers was present.
    IncorrectConfirmationDepth {
        /// The expected number of headers: σ.
        expected: u64,
        /// The number of headers present.
        actual: u64,
    },
    /// A header has an unaccepted version, or the headers are not a run
    /// from the tip back in time.
    InvalidHeader(HeaderFault),
}

/// Zcash Crosslink protocol parameters.
#[derive(Clone, Copy, Debug, PartialEq, Eq)]
pub struct ZcashCrosslinkParameters {
    /// The best-chain confirmation depth, `σ`: at least this many PoW blocks
    /// must be atop the PoW block used to obtain a finalized view.
    pub bc_confirmation_depth_sigma: u64,
    /// The depth of unfinalized PoW blocks past which "Stalled Mode" activates, `L`.
    pub finalization_gap_bound: u64,
}

/// Crosslink parameters chosen for prototyping and testing.
pub fn prototype_parameters() -> (res: ZcashCrosslinkParameters)
    ensures
        res.bc_confirmation_depth_sigma == 3,
        res.finalization_gap_bound == 7,
{
    ZcashCrosslinkParameters { bc_confirmation_depth_sigma: 3, finalization_gap_bound: 7 }
}

impl BftPayload {
    /// The header that is the finalization candidate of this payload: the last one.
    pub fn finalization_candidate(&self) -> (res: &Header)
        requires
            self.headers@.len() > 0,
        ensures
            *res == self.headers@.last(),
    {
        let n = self.headers.len();
        &self.headers[n - 1]
    }

    /// Constructs a payload from headers, tip first, performing the immediate
    /// validations: exactly σ headers; each with an accepted version; each
    /// naming the next as its previous block. The PoW solutions are not
    /// checked.
    pub fn try_from(params: &ZcashCrosslinkParameters, headers: Vec<Header>) -> (res: Result<
        BftPayload,
        InvalidBftPayload,
    >)
        ensures
            (headers@.len() == params.bc_confirmation_depth_sigma && headers_valid(headers@)) ==> res
                == Ok::<_, InvalidBftPayload>(BftPayload { headers }),
            headers@.len() != params.bc_confirmation_depth_sigma ==> res == Err::<BftPayload, _>(
                InvalidBftPayload::IncorrectConfirmationDepth {
                    expected: params.bc_confirmation_depth_sigma,
                    actual: headers@.len() as u64,
                },
            ),
            (headers@.len() == params.bc_confirmation_depth_sigma && !headers_valid(headers@)) ==> (
            res matches Err(InvalidBftPayload::InvalidHeader(f)) && is_first_header_fault(
                headers@,
                f,
            )),
    {
        let expected = params.bc_confirmation_depth_sigma;
        let actual = headers.len() as u64;
        if actual != expected {
            return Err(InvalidBftPayload::IncorrectConfirmationDepth { expected, actual });
        }
        if let Some(f) = check_headers(&headers) {
            return Err(InvalidBftPayload::InvalidHeader(f));
        }
        Ok(BftPayload { headers })
    }
}

} // verus!
