//! Errors and little-endian integer helpers for the Zcash-style stream encodings.

use vstd::prelude::*;
use vstd::bytes::*;
use vstd::slice::slice_subrange;
use crate::bytes::append_bytes;

verus! {

/// Why a decoder rejected its input.
#[derive(Clone, Copy, Debug, PartialEq, Eq)]
pub enum ParseFailure {
    /// A block header version below 4.
    VersionTooLow,
    /// An Equihash solution whose length is neither the mainnet nor the regtest size.
    BadSolutionSize,
    /// A BFT block that declares more than 2048 headers.
    TooManyHeaders,
}

/// An error from one of the stream decoders.
#[derive(Clone, Copy, Debug, PartialEq, Eq)]
pub enum SerializationError {
    /// The input ended before the value did.
    UnexpectedEnd,
    /// The input was long enough but held a value that is not accepted.
    Parse(ParseFailure),
}

/// Reads a little-endian `u16` at `pos`, if two bytes are left there.
pub fn read_u16_le(bytes: &[u8], pos: usize) -> (res: Option<u16>)
    requires
        pos <= bytes@.len(),
    ensures
        res == if pos + 2 <= bytes@.len() {
            Some(spec_u16_from_le_bytes(bytes@.subrange(pos as int, pos + 2)))
        } else {
            None::<u16>
        },
{
    if bytes.len() - pos < 2 {
        None
    } else {
        Some(u16_from_le_bytes(slice_subrange(bytes, pos, pos + 2)))
    }
}

/// Reads a little-endian `u32` at `pos`, if four bytes are left there.
pub fn read_u32_le(bytes: &[u8], pos: usize) -> (res: Option<u32>)
    requires
        pos <= bytes@.len(),
    ensures
        res == if pos + 4 <= bytes@.len() {
            Some(spec_u32_from_le_bytes(bytes@.subrange(pos as int, pos + 4)))
        } else {
            None::<u32>
        },
{
    if bytes.len() - pos < 4 {
        None
    } else {
        Some(u32_from_le_bytes(slice_subrange(bytes, pos, pos + 4)))
    }
}

/// Reads a little-endian `u64` at `pos`, if eight bytes are left there.
pub fn read_u64_le(bytes: &[u8], pos: usize) -> (res: Option<u64>)
    requires
        pos <= bytes@.len(),
    ensures
        res == if pos + 8 <= bytes@.len() {
            Some(spec_u64_from_le_bytes(bytes@.subrange(pos as int, pos + 8)))
        } else {
            None::<u64>
        },
{
    if bytes.len() - pos < 8 {
        None
    } else {
        Some(u64_from_le_bytes(slice_subrange(bytes, pos, pos + 8)))
    }
}

/// Appends `x` as eight little-endian bytes.
pub fn write_u64_le(out: &mut Vec<u8>, x: u64)
    ensures
        final(out)@ == old(out)@ + spec_u64_to_le_bytes(x),
{
    let b = u64_to_le_bytes(x);
    append_bytes(out, b.as_slice());
}

/// Values with a Zcash-style byte encoding.
pub trait ZcashSerialize {
    /// Whether the value can be encoded (a count that the encoding holds
    /// in a fixed-width field fits it).
    spec fn serializable(&self) -> bool;

    /// The value's encoding.
    spec fn zcash_bytes(&self) -> Seq<u8>;

    /// Appends the value's encoding to `writer`.
    fn zcash_serialize_into(&self, writer: &mut Vec<u8>)
        requires
            self.serializable(),
        ensures
            final(writer)@ == old(writer)@ + self.zcash_bytes(),
    ;
}

/// Appends `x` as four little-endian bytes.
pub fn write_u32_le(out: &mut Vec<u8>, x: u32)
    ensures
        final(out)@ == old(out)@ + spec_u32_to_le_bytes(x),
{
    let b = u32_to_le_bytes(x);
    append_bytes(out, b.as_slice());
}

/// Appends `x` as two little-endian bytes.
pub fn write_u16_le(out: &mut Vec<u8>, x: u16)
    ensures
        final(out)@ == old(out)@ + spec_u16_to_le_bytes(x),
{
    let b = u16_to_le_bytes(x);
    append_bytes(out, b.as_slice());
}

} // verus!
