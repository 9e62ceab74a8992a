//! The BFT payload parameterized by a parameter type.

use std::marker::PhantomData;
use vstd::prelude::*;
use crate::block_header::Header;
use super::params::ZcashCrosslinkParameters;

verus! {

/// The BFT block content for Crosslink, for the parameters `ZCP`.
#[derive(Debug)]
pub struct BftPayload<ZCP: ZcashCrosslinkParameters> {
    headers: Vec<Header>,
    ph: PhantomData<ZCP>,
}

/// The number of headers did not match the confirmation depth.
#[derive(Clone, Copy, Debug, PartialEq, Eq)]
pub struct InvalidConfirmationDepth {
    expected: usize,
    actual: usize,
}

impl InvalidConfirmationDepth {
    /// The number of headers that was required.
    pub closed spec fn spec_expected(&self) -> usize {
        self.expected
    }

    /// The number of headers that was present.
    pub closed spec fn spec_actual(&self) -> usize {
        self.actual
    }

    /// The number of headers that was required.
    pub fn expected(&self) -> (res: usize)
        ensures
            res == self.spec_expected(),
    {
        self.expected
    }

    /// The number of headers that was present.
    pub fn actual(&self) -> (res: usize)
        ensures
            res == self.spec_actual(),
    {
        self.actual
    }
}

impl<ZCP: ZcashCrosslinkParameters> BftPayload<ZCP> {
    /// The payload's headers.
    pub closed spec fn spec_headers(&self) -> Seq<Header> {
        self.headers@
    }

    /// The payload's headers.
    pub fn headers(&self) -> (res: &Vec<Header>)
        ensures
            res@ == self.spec_headers(),
    {
        &self.headers
    }

    /// Constructs a payload, checking that there are exactly σ headers.
    pub fn try_from(headers: Vec<Header>) -> (res: Result<Self, InvalidConfirmationDepth>)
        ensures
            headers@.len() == ZCP::BC_CONFIRMATION_DEPTH_SIGMA ==> (res matches Ok(p)
                && p.spec_headers() == headers@),
            headers@.len() != ZCP::BC_CONFIRMATION_DEPTH_SIGMA ==> (res matches Err(e)
                && e.spec_expected() == ZCP::BC_CONFIRMATION_DEPTH_SIGMA && e.spec_actual() == headers@.len()),
    {
        let expected = ZCP::BC_CONFIRMATION_DEPTH_SIGMA;
        let actual = headers.len();
        if actual == expected {
            Ok(BftPayload { headers, ph: PhantomData })
        } else {
            Err(InvalidConfirmationDepth { expected, actual })
        }
    }
}

} // verus!
