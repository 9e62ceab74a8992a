//! BFT blocks: their content, validation on construction, stream encoding
//! and BLAKE3 identity.

use vstd::prelude::*;
use vstd::bytes::*;
use crate::block_header::{
    encode_header, header_view_wf, law_header_encoding_roundtrip, null_fat_pointer_view,
    parse_header, check_headers, headers_valid, is_first_header_fault, Header, HeaderFault,
    BlockHeaderView,
};
use crate::bytes::{append_bytes, copy_into_array};
use crate::crypto::{blake3_digest, blake3_of};
use crate::fat_pointer::{
    encode_fat_pointer, fat_pointer_view_wf, law_fat_pointer_encoding_roundtrip, parse_fat_pointer,
};
use crate::hex_text::{append_hex, hex_lower};
use crate::mal_system::FatPointerToBftBlock2;
use crate::serialization::{
    read_u32_le, write_u32_le, ParseFailure, SerializationError, ZcashSerialize,
};

verus! {

/// The largest number of headers a decoded BFT block may declare.
pub const MAX_DECODED_HEADERS: u32 = 2048;

/// The abstract content of a BFT block.
pub struct BftBlockView {
    pub version: u32,
    pub height: u32,
    pub previous_block_fat_ptr: (Seq<u8>, Seq<Seq<u8>>),
    pub finalization_candidate_height: u32,
    pub headers: Seq<BlockHeaderView>,
}

/// The BFT block content for Crosslink.
///
/// `try_from` is the constructor that performs the immediate validation: the
/// number of headers must equal the confirmation depth σ. The headers are
/// ordered from the latest PoW tip backwards.
#[derive(Clone, Debug, PartialEq, Eq, PartialOrd, Ord)]
pub struct BftBlock {
    /// The Version Number
    pub version: u32,
    /// The Height of this BFT Payload
    pub height: u32,
    /// Hash of the previous BFT Block.
    pub previous_block_fat_ptr: FatPointerToBftBlock2,
    /// The height of the PoW block that is the finalization candidate.
    pub finalization_candidate_height: u32,
    /// The PoW Headers
    pub headers: Vec<Header>,
}

impl View for BftBlock {
    type V = BftBlockView;

    open spec fn view(&self) -> BftBlockView {
        BftBlockView {
            version: self.version,
            height: self.height,
            previous_block_fat_ptr: self.previous_block_fat_ptr@,
            finalization_candidate_height: self.finalization_candidate_height,
            headers: self.headers@.map_values(|h: Header| h@),
        }
    }
}

/// The encodings of headers, one after another.
pub open spec fn encode_headers(hs: Seq<BlockHeaderView>) -> Seq<u8>
    decreases hs.len(),
{
    if hs.len() == 0 {
        Seq::empty()
    } else {
        encode_header(hs[0]) + encode_headers(hs.drop_first())
    }
}

/// The stream encoding of a BFT block: version, height, previous fat pointer,
/// finalization candidate height, header count (`u32`, little-endian) and the headers.
pub open spec fn encode_bft_block(b: BftBlockView) -> Seq<u8> {
    spec_u32_to_le_bytes(b.version) + spec_u32_to_le_bytes(b.height) + encode_fat_pointer(
        b.previous_block_fat_ptr,
    ) + spec_u32_to_le_bytes(b.finalization_candidate_height) + spec_u32_to_le_bytes(
        b.headers.len() as u32,
    ) + encode_headers(b.headers)
}

/// Reads `n` headers one after another from the front of `b`.
pub open spec fn parse_headers(b: Seq<u8>, n: nat) -> Result<(Seq<BlockHeaderView>, nat), SerializationError>
    decreases n,
{
    if n == 0 {
        Ok((Seq::empty(), 0))
    } else {
        match parse_header(b) {
            Err(e) => Err(e),
            Ok((h, k)) => match parse_headers(b.skip(k as int), (n - 1) as nat) {
                Err(e) => Err(e),
                Ok((hs, m)) => Ok((seq![h] + hs, k + m)),
            },
        }
    }
}

/// What the BFT block decoder reads from the front of `b`, and how many bytes
/// it took; a declared header count above 2048 is rejected before any header is read.
pub open spec fn parse_bft_block(b: Seq<u8>) -> Result<(BftBlockView, nat), SerializationError> {
    if b.len() < 8 {
        Err(SerializationError::UnexpectedEnd)
    } else {
        match parse_fat_pointer(b.skip(8)) {
            None => Err(SerializationError::UnexpectedEnd),
            Some((fp, n)) => {
                let p = 8 + n as int;
                if b.len() < p + 8 {
                    Err(SerializationError::UnexpectedEnd)
                } else {
                    let count = spec_u32_from_le_bytes(b.subrange(p + 4, p + 8));
                    if count > 2048 {
                        Err(SerializationError::Parse(ParseFailure::TooManyHeaders))
                    } else {
                        match parse_headers(b.skip(p + 8), count as nat) {
                            Err(e) => Err(e),
                            Ok((hs, m)) => Ok(
                                (
                                    BftBlockView {
                                        version: spec_u32_from_le_bytes(b.subrange(0, 4)),
                                        height: spec_u32_from_le_bytes(b.subrange(4, 8)),
                                        previous_block_fat_ptr: fp,
                                        finalization_candidate_height: spec_u32_from_le_bytes(
                                            b.subrange(p, p + 4),
                                        ),
                                        headers: hs,
                                    },
                                    (p + 8 + m) as nat,
                                ),
                            ),
                        }
                    }
                }
            },
        }
    }
}

/// A header view that decodes back to itself: well formed, and carrying the
/// null fat pointer below version 5.
pub open spec fn header_view_roundtrips(h: BlockHeaderView) -> bool {
    header_view_wf(h) && (h.version < 5 ==> h.fat_pointer == null_fat_pointer_view())
}

/// A BFT block view that decodes back to itself.
pub open spec fn bft_block_view_roundtrips(b: BftBlockView) -> bool {
    &&& fat_pointer_view_wf(b.previous_block_fat_ptr)
    &&& b.headers.len() <= 2048
    &&& forall|i: int| 0 <= i < b.headers.len() ==> header_view_roundtrips(#[trigger] b.headers[i])
}

/// Encoding a list of headers piecewise gives the encoding of the whole list.
pub proof fn lemma_encode_headers_append(a: Seq<BlockHeaderView>, b: Seq<BlockHeaderView>)
    ensures
        encode_headers(a + b) == encode_headers(a) + encode_headers(b),
    decreases a.len(),
{
    if a.len() == 0 {
        assert(a + b =~= b);
    } else {
        assert((a + b).drop_first() =~= a.drop_first() + b);
        lemma_encode_headers_append(a.drop_first(), b);
        assert((a + b)[0] == a[0]);
    }
}

/// Decoding a list of encoded headers gives them back.
pub proof fn lemma_headers_roundtrip(hs: Seq<BlockHeaderView>, rest: Seq<u8>)
    requires
        forall|i: int| 0 <= i < hs.len() ==> header_view_roundtrips(#[trigger] hs[i]),
    ensures
        parse_headers(encode_headers(hs) + rest, hs.len()) == Ok::<_, SerializationError>(
            (hs, encode_headers(hs).len()),
        ),
    decreases hs.len(),
{
    if hs.len() == 0 {
        assert(parse_headers(encode_headers(hs) + rest, 0) == Ok::<_, SerializationError>(
            (Seq::<BlockHeaderView>::empty(), 0nat),
        ));
        assert(hs =~= Seq::<BlockHeaderView>::empty());
    } else {
        let tail = hs.drop_first();
        assert forall|i: int| 0 <= i < tail.len() implies header_view_roundtrips(#[trigger] tail[i]) by {
            assert(tail[i] == hs[i + 1]);
        }
        assert(header_view_roundtrips(hs[0]));
        lemma_headers_roundtrip(tail, rest);
        let b = encode_headers(hs) + rest;
        let h0 = encode_header(hs[0]);
        let after = encode_headers(tail) + rest;
        assert(encode_headers(hs) == h0 + encode_headers(tail));
        assert(b =~= h0 + after);
        law_header_encoding_roundtrip(hs[0], after);
        assert(parse_header(b) == Ok::<_, SerializationError>((hs[0], h0.len())));
        assert(b.skip(h0.len() as int) =~= after);
        assert((hs.len() - 1) as nat == tail.len());
        assert(parse_headers(after, tail.len()) == Ok::<_, SerializationError>(
            (tail, encode_headers(tail).len()),
        ));
        assert(seq![hs[0]] + tail =~= hs);
        assert(parse_headers(b, hs.len()) == Ok::<_, SerializationError>(
            (seq![hs[0]] + tail, h0.len() + encode_headers(tail).len()),
        ));
    }
}

/// The part of an encoded BFT block after its previous fat pointer decodes back.
proof fn lemma_bft_block_tail_roundtrip(b: BftBlockView, rest: Seq<u8>)
    requires
        bft_block_view_roundtrips(b),
    ensures
        ({
            let t = spec_u32_to_le_bytes(b.finalization_candidate_height) + spec_u32_to_le_bytes(
                b.headers.len() as u32,
            ) + encode_headers(b.headers) + rest;
            &&& t.len() >= 8
            &&& spec_u32_from_le_bytes(t.subrange(0, 4)) == b.finalization_candidate_height
            &&& spec_u32_from_le_bytes(t.subrange(4, 8)) == b.headers.len()
            &&& parse_headers(t.skip(8), b.headers.len()) == Ok::<_, SerializationError>(
                (b.headers, encode_headers(b.headers).len()),
            )
        }),
{
    lemma_auto_spec_u32_to_from_le_bytes();
    let t = spec_u32_to_le_bytes(b.finalization_candidate_height) + spec_u32_to_le_bytes(
        b.headers.len() as u32,
    ) + encode_headers(b.headers) + rest;
    assert(t.subrange(0, 4) =~= spec_u32_to_le_bytes(b.finalization_candidate_height));
    assert(t.subrange(4, 8) =~= spec_u32_to_le_bytes(b.headers.len() as u32));
    assert((b.headers.len() as u32) as nat == b.headers.len());
    lemma_headers_roundtrip(b.headers, rest);
    assert(t.skip(8) =~= encode_headers(b.headers) + rest);
}

/// Law: the BFT block decoder reads back exactly what the encoder wrote, for
/// blocks whose fat pointer and headers are well formed and that hold at most
/// 2048 headers, whatever follows in the stream.
#[verifier::spinoff_prover]
pub proof fn law_bft_block_encoding_roundtrip(b: BftBlockView, rest: Seq<u8>)
    requires
        bft_block_view_roundtrips(b),
    ensures
        parse_bft_block(encode_bft_block(b) + rest) == Ok::<_, SerializationError>(
            (b, encode_bft_block(b).len()),
        ),
{
    lemma_auto_spec_u32_to_from_le_bytes();
    let fp = encode_fat_pointer(b.previous_block_fat_ptr);
    let tail = spec_u32_to_le_bytes(b.finalization_candidate_height) + spec_u32_to_le_bytes(
        b.headers.len() as u32,
    ) + encode_headers(b.headers) + rest;
    let s = encode_bft_block(b) + rest;
    assert(s =~= spec_u32_to_le_bytes(b.version) + spec_u32_to_le_bytes(b.height) + (fp + tail));
    assert(s.subrange(0, 4) =~= spec_u32_to_le_bytes(b.version));
    assert(s.subrange(4, 8) =~= spec_u32_to_le_bytes(b.height));
    law_fat_pointer_encoding_roundtrip(b.previous_block_fat_ptr, tail);
    assert(s.skip(8) =~= fp + tail);
    let p = 8 + fp.len() as int;
    lemma_bft_block_tail_roundtrip(b, rest);
    assert(s.skip(p) =~= tail);
    assert(s.subrange(p, p + 4) =~= tail.subrange(0, 4));
    assert(s.subrange(p + 4, p + 8) =~= tail.subrange(4, 8));
    assert(s.skip(p + 8) =~= tail.skip(8));
    assert(s.len() == p + 8 + encode_headers(b.headers).len() + rest.len());
}

/// Law: a BFT block is encoded as its version (`u32`, little-endian) at 0,
/// its height (`u32`) at 4, its previous fat pointer from 8, then its
/// finalization candidate height (`u32`), its header count (`u32`) and its
/// headers in order.
pub proof fn law_bft_block_encoding_layout(b: BftBlockView)
    ensures
        ({
            let e = encode_bft_block(b);
            let fp = encode_fat_pointer(b.previous_block_fat_ptr);
            let p = 8 + fp.len() as int;
            &&& e.subrange(0, 4) == spec_u32_to_le_bytes(b.version)
            &&& spec_u32_from_le_bytes(e.subrange(0, 4)) == b.version
            &&& e.subrange(4, 8) == spec_u32_to_le_bytes(b.height)
            &&& spec_u32_from_le_bytes(e.subrange(4, 8)) == b.height
            &&& e.subrange(8, p) == fp
            &&& e.subrange(p, p + 4) == spec_u32_to_le_bytes(b.finalization_candidate_height)
            &&& spec_u32_from_le_bytes(e.subrange(p, p + 4)) == b.finalization_candidate_height
            &&& e.subrange(p + 4, p + 8) == spec_u32_to_le_bytes(b.headers.len() as u32)
            &&& e.skip(p + 8) == encode_headers(b.headers)
        }),
{
    lemma_auto_spec_u32_to_from_le_bytes();
    let e = encode_bft_block(b);
    let fp = encode_fat_pointer(b.previous_block_fat_ptr);
    let p = 8 + fp.len() as int;
    let v = spec_u32_to_le_bytes(b.version);
    let hgt = spec_u32_to_le_bytes(b.height);
    let c = spec_u32_to_le_bytes(b.finalization_candidate_height);
    let n = spec_u32_to_le_bytes(b.headers.len() as u32);
    assert(e =~= v + hgt + fp + c + n + encode_headers(b.headers));
    assert(e.subrange(0, 4) =~= v);
    assert(e.subrange(4, 8) =~= hgt);
    assert(e.subrange(8, p) =~= fp);
    assert(e.subrange(p, p + 4) =~= c);
    assert(e.subrange(p + 4, p + 8) =~= n);
    assert(e.skip(p + 8) =~= encode_headers(b.headers));
}

/// Law: the headers of a block are encoded one after another in their
/// order: the encoding of the first `k + 1` headers is that of the first
/// `k` followed by the encoding of header `k`.
pub proof fn law_headers_encoding_in_order(hs: Seq<BlockHeaderView>, k: int)
    requires
        0 <= k < hs.len(),
    ensures
        encode_headers(hs.take(k + 1)) == encode_headers(hs.take(k)) + encode_header(hs[k]),
        encode_headers(hs) == encode_headers(hs.take(k)) + encode_header(hs[k]) + encode_headers(
            hs.skip(k + 1),
        ),
{
    let one = seq![hs[k]];
    assert(encode_headers(one) =~= encode_header(hs[k])) by {
        assert(one.drop_first() =~= Seq::<BlockHeaderView>::empty());
        assert(encode_headers(one.drop_first()) == Seq::<u8>::empty());
        assert(one[0] == hs[k]);
        assert(encode_headers(one) == encode_header(one[0]) + encode_headers(one.drop_first()));
    }
    assert(hs.take(k + 1) =~= hs.take(k) + one);
    lemma_encode_headers_append(hs.take(k), one);
    assert(hs =~= hs.take(k + 1) + hs.skip(k + 1));
    lemma_encode_headers_append(hs.take(k + 1), hs.skip(k + 1));
}

/// A BLAKE3 hash.
#[derive(Clone, Copy, PartialEq, Eq, PartialOrd, Ord, Debug)]
pub struct Blake3Hash(pub [u8; 32]);

impl Blake3Hash {
    /// The hash as lower-case hexadecimal text.
    pub fn to_display_string(&self) -> (res: String)
        ensures
            res@ == hex_lower(self.0@),
    {
        let mut text = String::new();
        append_hex(&mut text, self.0.as_slice());
        text
    }

    /// Writes the hash's 32 bytes.
    pub fn zcash_serialize(&self, writer: &mut Vec<u8>)
        ensures
            final(writer)@ == old(writer)@ + self.0@,
    {
        append_bytes(writer, self.0.as_slice());
    }

    /// Reads a hash from the 32 bytes at `pos`; returns it and the position
    /// just after it.
    pub fn zcash_deserialize(bytes: &[u8], pos: usize) -> (res: Result<(Blake3Hash, usize), SerializationError>)
        requires
            pos <= bytes@.len(),
        ensures
            pos + 32 <= bytes@.len() ==> (res matches Ok((h, end)) && h.0@ == bytes@.subrange(
                pos as int,
                pos + 32,
            ) && end == pos + 32),
            pos + 32 > bytes@.len() ==> res == Err::<(Blake3Hash, usize), _>(
                SerializationError::UnexpectedEnd,
            ),
    {
        if bytes.len() - pos < 32 {
            return Err(SerializationError::UnexpectedEnd);
        }
        let mut hash = [0u8; 32];
        copy_into_array(&mut hash, bytes, pos);
        Ok((Blake3Hash(hash), pos + 32))
    }
}

/// Validation error for `BftBlock`.
#[derive(Clone, Debug, PartialEq, Eq)]
pub enum InvalidBftBlock {
    /// An incorrect number of headers was present.
    IncorrectConfirmationDepth {
        /// The expected number of headers, as per `bc_confirmation_depth_sigma`.
        expected: u64,
        /// The number of headers present.
        actual: u64,
    },
    /// A header has an unaccepted version, or the headers are not a run
    /// from the tip back in time.
    InvalidHeader(HeaderFault),
}

/// Zcash Crosslink protocol parameters.
#[derive(Clone, Copy, Debug, PartialEq, Eq)]
pub struct ZcashCrosslinkParameters {
    /// The best-chain confirmation depth, `σ`.
    pub bc_confirmation_depth_sigma: u64,
    /// The depth of unfinalized PoW blocks past which "Stalled Mode" activates, `L`.
    pub finalization_gap_bound: u64,
}

/// Crosslink parameters chosen for prototyping and testing.
pub fn prototype_parameters() -> (res: ZcashCrosslinkParameters)
    ensures
        res.bc_confirmation_depth_sigma == 3,
        res.finalization_gap_bound == 7,
{
    ZcashCrosslinkParameters { bc_confirmation_depth_sigma: 3, finalization_gap_bound: 7 }
}

/// Appends the encodings of `headers`, one after another.
pub fn append_headers(writer: &mut Vec<u8>, headers: &Vec<Header>)
    ensures
        final(writer)@ == old(writer)@ + encode_headers(headers@.map_values(|h: Header| h@)),
{
    let ghost start = writer@;
    let ghost views = headers@.map_values(|h: Header| h@);
    let mut i: usize = 0;
    while i < headers.len()
        invariant
            i <= headers@.len(),
            views == headers@.map_values(|h: Header| h@),
            writer@ == start + encode_headers(views.subrange(0, i as int)),
        decreases headers@.len() - i,
    {
        headers[i].zcash_serialize(writer);
        proof {
            let prev = views.subrange(0, i as int);
            let one = seq![views[i as int]];
            lemma_encode_headers_append(prev, one);
            assert(prev + one =~= views.subrange(0, i + 1));
            assert(one.drop_first() =~= Seq::<BlockHeaderView>::empty());
            assert(encode_headers(Seq::<BlockHeaderView>::empty()) == Seq::<u8>::empty());
            assert(encode_headers(one) == encode_header(one[0]) + encode_headers(one.drop_first()));
            assert(encode_headers(one) =~= encode_header(views[i as int]));
        }
        i = i + 1;
    }
    assert(views.subrange(0, headers@.len() as int) =~= views);
}

impl BftBlock {
    /// The header that is the finalization candidate of this block: the last one.
    pub fn finalization_candidate(&self) -> (res: &Header)
        requires
            self.headers@.len() > 0,
        ensures
            *res == self.headers@.last(),
    {
        let n = self.headers.len();
        &self.headers[n - 1]
    }

    /// Attempt to construct a `BftBlock` from headers while performing the
    /// immediate validations: exactly σ headers; each with an accepted
    /// version; tip first, each naming the next as its previous block. The
    /// PoW solutions are not checked. The version is 1.
    pub fn try_from(
        params: &ZcashCrosslinkParameters,
        height: u32,
        previous_block_fat_ptr: FatPointerToBftBlock2,
        finalization_candidate_height: u32,
        headers: Vec<Header>,
    ) -> (res: Result<BftBlock, InvalidBftBlock>)
        ensures
            (headers@.len() == params.bc_confirmation_depth_sigma && headers_valid(headers@)) ==> (
            res matches Ok(block) && block == (BftBlock {
                version: 1,
                height,
                previous_block_fat_ptr,
                finalization_candidate_height,
                headers,
            })),
            headers@.len() != params.bc_confirmation_depth_sigma ==> res == Err::<BftBlock, _>(
                InvalidBftBlock::IncorrectConfirmationDepth {
                    expected: params.bc_confirmation_depth_sigma,
                    actual: headers@.len() as u64,
                },
            ),
            (headers@.len() == params.bc_confirmation_depth_sigma && !headers_valid(headers@)) ==> (
            res matches Err(InvalidBftBlock::InvalidHeader(f)) && is_first_header_fault(headers@, f)),
    {
        let expected = params.bc_confirmation_depth_sigma;
        let actual = headers.len() as u64;
        if actual != expected {
            return Err(InvalidBftBlock::IncorrectConfirmationDepth { expected, actual });
        }
        if let Some(f) = check_headers(&headers) {
            return Err(InvalidBftBlock::InvalidHeader(f));
        }
        Ok(BftBlock { version: 1, height, previous_block_fat_ptr, finalization_candidate_height, headers })
    }

    /// Writes the block to a byte stream (see `encode_bft_block`).
    pub fn zcash_serialize(&self, writer: &mut Vec<u8>)
        requires
            self.headers@.len() <= u32::MAX,
        ensures
            final(writer)@ == old(writer)@ + encode_bft_block(self@),
    {
        let ghost start = writer@;
        write_u32_le(writer, self.version);
        write_u32_le(writer, self.height);
        self.previous_block_fat_ptr.zcash_serialize(writer);
        write_u32_le(writer, self.finalization_candidate_height);
        write_u32_le(writer, self.headers.len() as u32);
        append_headers(writer, &self.headers);
        assert(writer@ =~= start + encode_bft_block(self@));
    }

    /// The encoded bytes of this block.
    pub fn zcash_serialize_to_vec(&self) -> (res: Vec<u8>)
        requires
            self.headers@.len() <= u32::MAX,
        ensures
            res@ == encode_bft_block(self@),
    {
        let mut out = Vec::new();
        self.zcash_serialize(&mut out);
        assert(out@ =~= encode_bft_block(self@));
        out
    }

    /// Reads a block from `bytes` starting at `pos` (see `parse_bft_block`);
    /// returns it and the position just after it.
    pub fn zcash_deserialize(bytes: &[u8], pos: usize) -> (res: Result<
        (BftBlock, usize),
        SerializationError,
    >)
        requires
            pos <= bytes@.len(),
        ensures
            match parse_bft_block(bytes@.skip(pos as int)) {
                Err(e) => res == Err::<(BftBlock, usize), _>(e),
                Ok((b, n)) => res matches Ok((block, end)) && block@ == b && end == pos + n,
            },
            res matches Ok((_, end)) ==> pos <= end <= bytes@.len(),
    {
        let ghost s = bytes@.skip(pos as int);
        if bytes.len() - pos < 8 {
            return Err(SerializationError::UnexpectedEnd);
        }
        let version = match read_u32_le(bytes, pos) {
            Some(v) => v,
            None => {
                return Err(SerializationError::UnexpectedEnd);
            },
        };
        let height = match read_u32_le(bytes, pos + 4) {
            Some(v) => v,
            None => {
                return Err(SerializationError::UnexpectedEnd);
            },
        };
        assert(bytes@.subrange(pos as int, pos + 4) =~= s.subrange(0, 4));
        assert(bytes@.subrange(pos + 4, pos + 8) =~= s.subrange(4, 8));
        assert(bytes@.skip(pos + 8) =~= s.skip(8));
        let (previous_block_fat_ptr, p) = match FatPointerToBftBlock2::zcash_deserialize(bytes, pos + 8) {
            Ok(r) => r,
            Err(e) => {
                return Err(e);
            },
        };
        if bytes.len() - p < 8 {
            return Err(SerializationError::UnexpectedEnd);
        }
        let finalization_candidate_height = match read_u32_le(bytes, p) {
            Some(v) => v,
            None => {
                return Err(SerializationError::UnexpectedEnd);
            },
        };
        let header_count = match read_u32_le(bytes, p + 4) {
            Some(v) => v,
            None => {
                return Err(SerializationError::UnexpectedEnd);
            },
        };
        let ghost q = p - pos;
        assert(bytes@.subrange(p as int, p + 4) =~= s.subrange(q, q + 4));
        assert(bytes@.subrange(p + 4, p + 8) =~= s.subrange(q + 4, q + 8));
        if header_count > MAX_DECODED_HEADERS {
            return Err(SerializationError::Parse(ParseFailure::TooManyHeaders));
        }
        let ghost hs_start = s.skip(q + 8);
        let ghost n = header_count as nat;
        let mut headers: Vec<Header> = Vec::new();
        let mut at: usize = p + 8;
        proof {
            assert(hs_start =~= bytes@.skip(at as int));
            match parse_headers(bytes@.skip(at as int), n) {
                Err(e) => {},
                Ok((rest, m)) => {
                    assert(headers@.map_values(|h: Header| h@) + rest =~= rest);
                },
            }
        }
        let mut i: u32 = 0;
        while i < header_count
            invariant
                i <= header_count,
                p + 8 <= at <= bytes@.len(),
                q == p - pos,
                s == bytes@.skip(pos as int),
                hs_start == s.skip(q + 8),
                n == header_count as nat,
                parse_bft_block(s) == match parse_headers(hs_start, n) {
                    Err(e) => Err(e),
                    Ok((hs, m)) => Ok::<_, SerializationError>(
                        (
                            BftBlockView {
                                version,
                                height,
                                previous_block_fat_ptr: previous_block_fat_ptr@,
                                finalization_candidate_height,
                                headers: hs,
                            },
                            (q + 8 + m) as nat,
                        ),
                    ),
                },
                headers@.len() == i,
                parse_headers(hs_start, n) == match parse_headers(
                    bytes@.skip(at as int),
                    (n - i) as nat,
                ) {
                    Err(e) => Err(e),
                    Ok((rest, m)) => Ok::<_, SerializationError>(
                        (
                            headers@.map_values(|h: Header| h@) + rest,
                            (at - (p + 8)) as nat + m,
                        ),
                    ),
                },
            decreases header_count - i,
        {
            let ghost before = bytes@.skip(at as int);
            let ghost views_before = headers@.map_values(|h: Header| h@);
            match Header::zcash_deserialize(bytes, at) {
                Ok((h, next)) => {
                    proof {
                        let k = (next - at) as nat;
                        assert(bytes@.skip(next as int) =~= before.skip(k as int));
                    }
                    headers.push(h);
                    proof {
                        assert(headers@.map_values(|h: Header| h@) =~= views_before.push(h@));
                        match parse_headers(bytes@.skip(next as int), (n - i - 1) as nat) {
                            Err(e) => {},
                            Ok((rest, m)) => {
                                assert(views_before + (seq![h@] + rest) =~= views_before.push(h@)
                                    + rest);
                            },
                        }
                    }
                    at = next;
                },
                Err(e) => {
                    assert(parse_headers(before, (n - i) as nat) == Err::<
                        (Seq<BlockHeaderView>, nat),
                        SerializationError,
                    >(e));
                    assert(hs_start =~= bytes@.skip(pos as int).skip(q + 8));
                    return Err(e);
                },
            }
            i = i + 1;
        }
        proof {
            assert(hs_start =~= bytes@.skip(p + 8));
            assert(headers@.map_values(|h: Header| h@) + Seq::<BlockHeaderView>::empty()
                =~= headers@.map_values(|h: Header| h@));
        }
        let block = BftBlock {
            version,
            height,
            previous_block_fat_ptr,
            finalization_candidate_height,
            headers,
        };
        Ok((block, at))
    }

    /// Hash for the block: the BLAKE3 digest of its encoding.
    pub fn blake3_hash(&self) -> (res: Blake3Hash)
        requires
            self.headers@.len() <= u32::MAX,
        ensures
            res.0@ == blake3_of(encode_bft_block(self@)),
    {
        let bytes = self.zcash_serialize_to_vec();
        Blake3Hash(blake3_digest(bytes.as_slice()))
    }

    /// Just the hash of the previous block, which identifies it but does not
    /// provide any guarantees; `previous_block_fat_ptr` carries the signatures.
    pub fn previous_block_hash(&self) -> (res: Blake3Hash)
        ensures
            res.0@ == self@.previous_block_fat_ptr.0.subrange(0, 32),
    {
        self.previous_block_fat_ptr.points_at_block_hash()
    }
}

/// A BFT block and the fat pointer that shows it has been signed.
#[derive(Clone, Debug)]
pub struct BftBlockAndFatPointerToIt {
    /// A BFT block
    pub block: BftBlock,
    /// The fat pointer to block, showing it has been signed
    pub fat_ptr: FatPointerToBftBlock2,
}

/// What the decoder reads for a block followed by its fat pointer.
pub open spec fn parse_block_and_fat_pointer(b: Seq<u8>) -> Result<
    ((BftBlockView, (Seq<u8>, Seq<Seq<u8>>)), nat),
    SerializationError,
> {
    match parse_bft_block(b) {
        Err(e) => Err(e),
        Ok((block, n)) => match parse_fat_pointer(b.skip(n as int)) {
            None => Err(SerializationError::UnexpectedEnd),
            Some((fp, m)) => Ok(((block, fp), n + m)),
        },
    }
}

impl BftBlockAndFatPointerToIt {
    /// Writes the block, then the fat pointer.
    pub fn zcash_serialize(&self, writer: &mut Vec<u8>)
        requires
            self.block.headers@.len() <= u32::MAX,
        ensures
            final(writer)@ == old(writer)@ + encode_bft_block(self.block@) + encode_fat_pointer(
                self.fat_ptr@,
            ),
    {
        self.block.zcash_serialize(writer);
        self.fat_ptr.zcash_serialize(writer);
    }

    /// Reads a block and then its fat pointer, starting at `pos`.
    pub fn zcash_deserialize(bytes: &[u8], pos: usize) -> (res: Result<
        (BftBlockAndFatPointerToIt, usize),
        SerializationError,
    >)
        requires
            pos <= bytes@.len(),
        ensures
            match parse_block_and_fat_pointer(bytes@.skip(pos as int)) {
                Err(e) => res == Err::<(BftBlockAndFatPointerToIt, usize), _>(e),
                Ok(((b, f), n)) => res matches Ok((v, end)) && v.block@ == b && v.fat_ptr@ == f
                    && end == pos + n,
            },
    {
        let (block, mid) = match BftBlock::zcash_deserialize(bytes, pos) {
            Ok(r) => r,
            Err(e) => {
                return Err(e);
            },
        };
        assert(bytes@.skip(mid as int) =~= bytes@.skip(pos as int).skip(mid - pos));
        match FatPointerToBftBlock2::zcash_deserialize(bytes, mid) {
            Ok((fat_ptr, end)) => Ok((BftBlockAndFatPointerToIt { block, fat_ptr }, end)),
            Err(e) => Err(e),
        }
    }
}

/// Law: a block followed by its fat pointer decodes back to both.
pub proof fn law_block_and_fat_pointer_roundtrip(
    b: BftBlockView,
    f: (Seq<u8>, Seq<Seq<u8>>),
    rest: Seq<u8>,
)
    requires
        bft_block_view_roundtrips(b),
        fat_pointer_view_wf(f),
    ensures
        parse_block_and_fat_pointer(encode_bft_block(b) + encode_fat_pointer(f) + rest) == Ok::<
            _,
            SerializationError,
        >(((b, f), encode_bft_block(b).len() + encode_fat_pointer(f).len())),
{
    let s = encode_bft_block(b) + encode_fat_pointer(f) + rest;
    law_bft_block_encoding_roundtrip(b, encode_fat_pointer(f) + rest);
    assert(s =~= encode_bft_block(b) + (encode_fat_pointer(f) + rest));
    law_fat_pointer_encoding_roundtrip(f, rest);
    assert(s.skip(encode_bft_block(b).len() as int) =~= encode_fat_pointer(f) + rest);
}

impl ZcashSerialize for BftBlock {
    open spec fn serializable(&self) -> bool {
        self.headers@.len() <= u32::MAX
    }

    open spec fn zcash_bytes(&self) -> Seq<u8> {
        encode_bft_block(self@)
    }

    fn zcash_serialize_into(&self, writer: &mut Vec<u8>) {
        self.zcash_serialize(writer);
    }
}

impl ZcashSerialize for BftBlockAndFatPointerToIt {
    open spec fn serializable(&self) -> bool {
        self.block.headers@.len() <= u32::MAX
    }

    open spec fn zcash_bytes(&self) -> Seq<u8> {
        encode_bft_block(self.block@) + encode_fat_pointer(self.fat_ptr@)
    }

    fn zcash_serialize_into(&self, writer: &mut Vec<u8>) {
        self.zcash_serialize(writer);
    }
}

} // verus!
