//! Proof-of-work block headers: the fields Crosslink reads, their stream
//! encoding, and the header time check.

use vstd::prelude::*;
use vstd::bytes::*;
use vstd::slice::{slice_subrange, slice_to_vec};
use crate::bytes::{append_bytes, copy_into_array};
use crate::crypto::{sha256_digest, sha256_of};
use crate::fat_pointer::{
    encode_fat_pointer, fat_pointer_view_wf, law_fat_pointer_encoding_roundtrip,
    parse_fat_pointer, FatPointerToBftBlock,
};
use crate::serialization::{
    read_u16_le, read_u32_le, write_u16_le, write_u32_le, ParseFailure, SerializationError,
    ZcashSerialize,
};

verus! {

/// The Zcash accepted block version; versions equal or greater are accepted.
pub const ZCASH_BLOCK_VERSION: u32 = 4;

/// Length of an Equihash solution on mainnet and testnet.
pub const SOLUTION_SIZE: usize = 1344;

/// Length of an Equihash solution on regtest.
pub const REGTEST_SOLUTION_SIZE: usize = 36;

/// Number of encoded header bytes before the solution.
pub const HEADER_FIXED_LEN: usize = 140;

/// The abstract content of a block header; byte strings are sequences.
pub struct BlockHeaderView {
    pub version: u32,
    pub previous_block_hash: Seq<u8>,
    pub merkle_root: Seq<u8>,
    pub commitment_bytes: Seq<u8>,
    pub time: u32,
    pub difficulty_threshold: u32,
    pub nonce: Seq<u8>,
    pub solution: Seq<u8>,
    pub fat_pointer: (Seq<u8>, Seq<Seq<u8>>),
}

/// A block header, containing metadata about a block.
///
/// Blocks are chained together by the backwards reference held in
/// `previous_block_hash`.
#[derive(Clone, Debug, PartialEq, Eq, PartialOrd, Ord)]
pub struct Header {
    /// The block's version field; at least 4.
    pub version: u32,
    /// The hash of the previous block.
    pub previous_block_hash: [u8; 32],
    /// The root of the transaction Merkle tree.
    pub merkle_root: [u8; 32],
    /// The commitment bytes, interpreted by network and height.
    pub commitment_bytes: [u8; 32],
    /// The block timestamp, in seconds since the Unix epoch (UTC).
    pub time: u32,
    /// The difficulty threshold in compact ("nBits") form.
    pub difficulty_threshold: u32,
    /// The nonce miners vary.
    pub nonce: [u8; 32],
    /// The Equihash solution.
    pub solution: Vec<u8>,
    /// Crosslink fat pointer to a BFT block; encoded from version 5 on.
    pub fat_pointer_to_bft_block: FatPointerToBftBlock,
}

impl View for Header {
    type V = BlockHeaderView;

    open spec fn view(&self) -> BlockHeaderView {
        BlockHeaderView {
            version: self.version,
            previous_block_hash: self.previous_block_hash@,
            merkle_root: self.merkle_root@,
            commitment_bytes: self.commitment_bytes@,
            time: self.time,
            difficulty_threshold: self.difficulty_threshold,
            nonce: self.nonce@,
            solution: self.solution@,
            fat_pointer: self.fat_pointer_to_bft_block@,
        }
    }
}

/// Whether a solution length is one of the two Equihash sizes.
pub open spec fn valid_solution_len(n: nat) -> bool {
    n == 1344 || n == 36
}

/// A header view is well formed when its byte strings have their fixed
/// lengths, its version is at least 4, its solution has an Equihash size, and
/// its fat pointer is well formed.
pub open spec fn header_view_wf(h: BlockHeaderView) -> bool {
    &&& h.version >= 4
    &&& h.previous_block_hash.len() == 32
    &&& h.merkle_root.len() == 32
    &&& h.commitment_bytes.len() == 32
    &&& h.nonce.len() == 32
    &&& valid_solution_len(h.solution.len())
    &&& fat_pointer_view_wf(h.fat_pointer)
}

/// The compact-size prefix of a length: one byte below `0xfd`, otherwise a
/// marker byte and a little-endian 16-, 32- or 64-bit length.
pub open spec fn compact_size_prefix(n: nat) -> Seq<u8> {
    if n < 0xfd {
        seq![n as u8]
    } else if n <= 0xffff {
        seq![0xfdu8] + spec_u16_to_le_bytes(n as u16)
    } else if n <= 0xffff_ffff {
        seq![0xfeu8] + spec_u32_to_le_bytes(n as u32)
    } else {
        seq![0xffu8] + spec_u64_to_le_bytes(n as u64)
    }
}

/// Law: a compact-size length prefix reads back as the length: one byte
/// below `0xfd`; else the marker `0xfd`, `0xfe` or `0xff` followed by the
/// length as a little-endian `u16`, `u32` or `u64`, whichever is the
/// smallest that holds it.
pub proof fn law_compact_size_prefix(n: nat)
    requires
        n <= u64::MAX,
    ensures
        n < 0xfd ==> compact_size_prefix(n).len() == 1 && compact_size_prefix(n)[0] == n,
        0xfd <= n <= 0xffff ==> compact_size_prefix(n).len() == 3 && compact_size_prefix(n)[0]
            == 0xfd && spec_u16_from_le_bytes(compact_size_prefix(n).subrange(1, 3)) == n,
        0xffff < n <= 0xffff_ffff ==> compact_size_prefix(n).len() == 5 && compact_size_prefix(n)[0]
            == 0xfe && spec_u32_from_le_bytes(compact_size_prefix(n).subrange(1, 5)) == n,
        0xffff_ffff < n ==> compact_size_prefix(n).len() == 9 && compact_size_prefix(n)[0] == 0xff
            && spec_u64_from_le_bytes(compact_size_prefix(n).subrange(1, 9)) == n,
{
    lemma_auto_spec_u16_to_from_le_bytes();
    lemma_auto_spec_u32_to_from_le_bytes();
    lemma_auto_spec_u64_to_from_le_bytes();
    let p = compact_size_prefix(n);
    if n < 0xfd {
    } else if n <= 0xffff {
        assert(p.subrange(1, 3) =~= spec_u16_to_le_bytes(n as u16));
    } else if n <= 0xffff_ffff {
        assert(p.subrange(1, 5) =~= spec_u32_to_le_bytes(n as u32));
    } else {
        assert(p.subrange(1, 9) =~= spec_u64_to_le_bytes(n as u64));
    }
}

/// The fat pointer bytes that follow the solution: present from version 5 on.
pub open spec fn encode_header_fat_pointer(h: BlockHeaderView) -> Seq<u8> {
    if h.version >= 5 {
        encode_fat_pointer(h.fat_pointer)
    } else {
        Seq::empty()
    }
}

/// The fixed-length part of an encoded header.
pub open spec fn encode_header_fixed(h: BlockHeaderView) -> Seq<u8> {
    spec_u32_to_le_bytes(h.version) + h.previous_block_hash + h.merkle_root + h.commitment_bytes
        + spec_u32_to_le_bytes(h.time) + spec_u32_to_le_bytes(h.difficulty_threshold) + h.nonce
}

/// The stream encoding of a header: the fixed part, the solution with its
/// compact-size length, and (from version 5 on) the fat pointer.
#[verifier::opaque]
pub open spec fn encode_header(h: BlockHeaderView) -> Seq<u8> {
    encode_header_fixed(h) + compact_size_prefix(h.solution.len()) + h.solution
        + encode_header_fat_pointer(h)
}

/// Reads an Equihash solution with its compact-size length from the front of
/// `b`: a one-byte length of 36, or `0xfd` and a two-byte length of 1344.
pub open spec fn parse_solution(b: Seq<u8>) -> Result<(Seq<u8>, nat), SerializationError> {
    if b.len() < 1 {
        Err(SerializationError::UnexpectedEnd)
    } else if b[0] == 36 {
        if b.len() < 37 {
            Err(SerializationError::UnexpectedEnd)
        } else {
            Ok((b.subrange(1, 37), 37))
        }
    } else if b[0] == 0xfd {
        if b.len() < 3 {
            Err(SerializationError::UnexpectedEnd)
        } else if spec_u16_from_le_bytes(b.subrange(1, 3)) != 1344 {
            Err(SerializationError::Parse(ParseFailure::BadSolutionSize))
        } else if b.len() < 1347 {
            Err(SerializationError::UnexpectedEnd)
        } else {
            Ok((b.subrange(3, 1347), 1347))
        }
    } else {
        Err(SerializationError::Parse(ParseFailure::BadSolutionSize))
    }
}

/// The header view read from a fixed part, a solution and a fat pointer.
pub open spec fn header_view_from_parts(
    b: Seq<u8>,
    solution: Seq<u8>,
    fat_pointer: (Seq<u8>, Seq<Seq<u8>>),
) -> BlockHeaderView {
    BlockHeaderView {
        version: spec_u32_from_le_bytes(b.subrange(0, 4)),
        previous_block_hash: b.subrange(4, 36),
        merkle_root: b.subrange(36, 68),
        commitment_bytes: b.subrange(68, 100),
        time: spec_u32_from_le_bytes(b.subrange(100, 104)),
        difficulty_threshold: spec_u32_from_le_bytes(b.subrange(104, 108)),
        nonce: b.subrange(108, 140),
        solution,
        fat_pointer,
    }
}

/// The view of the all-zero fat pointer without signatures.
pub open spec fn null_fat_pointer_view() -> (Seq<u8>, Seq<Seq<u8>>) {
    (Seq::new(44, |i: int| 0u8), Seq::empty())
}

/// What the header decoder reads from the front of `b`, and how many bytes it
/// took. Versions below 4 are rejected as soon as the version is read; headers
/// below version 5 carry the null fat pointer.
#[verifier::opaque]
pub open spec fn parse_header(b: Seq<u8>) -> Result<(BlockHeaderView, nat), SerializationError> {
    if b.len() < 4 {
        Err(SerializationError::UnexpectedEnd)
    } else if spec_u32_from_le_bytes(b.subrange(0, 4)) < ZCASH_BLOCK_VERSION {
        Err(SerializationError::Parse(ParseFailure::VersionTooLow))
    } else if b.len() < 140 {
        Err(SerializationError::UnexpectedEnd)
    } else {
        match parse_solution(b.skip(140)) {
            Err(e) => Err(e),
            Ok((solution, n)) => {
                if spec_u32_from_le_bytes(b.subrange(0, 4)) >= 5 {
                    match parse_fat_pointer(b.skip(140 + n as int)) {
                        None => Err(SerializationError::UnexpectedEnd),
                        Some((fp, m)) => Ok((header_view_from_parts(b, solution, fp), 140 + n + m)),
                    }
                } else {
                    Ok((header_view_from_parts(b, solution, null_fat_pointer_view()), 140 + n))
                }
            },
        }
    }
}

/// Why a header's time is rejected.
#[derive(Clone, Debug, PartialEq, Eq)]
pub enum BlockTimeError {
    /// The header time, the block height, the block hash, and the latest
    /// accepted time: the header time is more than two hours after `now`.
    InvalidBlockTime(i64, u32, [u8; 32], i64),
}

/// The latest Unix time, in seconds, that a UTC date-time value can hold.
pub const MAX_DATETIME_SECS: i64 = 8_210_266_876_799;

impl Header {
    /// The header's well-formedness (see `header_view_wf`).
    pub open spec fn wf(&self) -> bool {
        header_view_wf(self@)
    }

    /// Checks that the header time is at most two hours after `now` (Unix
    /// seconds, rounded down).
    pub fn time_is_valid_at(&self, now: i64, height: u32, hash: [u8; 32]) -> (res: Result<
        (),
        BlockTimeError,
    >)
        requires
            now + 7200 <= MAX_DATETIME_SECS,
        ensures
            self.time <= now + 7200 ==> res is Ok,
            self.time > now + 7200 ==> res == Err::<(), BlockTimeError>(
                BlockTimeError::InvalidBlockTime(self.time as i64, height, hash, (now + 7200) as i64),
            ),
    {
        let two_hours_in_the_future = now + 7200;
        if (self.time as i64) <= two_hours_in_the_future {
            Ok(())
        } else {
            Err(BlockTimeError::InvalidBlockTime(self.time as i64, height, hash, two_hours_in_the_future))
        }
    }

    /// Writes the header to a byte stream (see `encode_header`).
    pub fn zcash_serialize(&self, writer: &mut Vec<u8>)
        ensures
            final(writer)@ == old(writer)@ + encode_header(self@),
    {
        reveal(encode_header);
        let ghost start = writer@;
        write_u32_le(writer, self.version);
        append_bytes(writer, self.previous_block_hash.as_slice());
        append_bytes(writer, self.merkle_root.as_slice());
        append_bytes(writer, self.commitment_bytes.as_slice());
        write_u32_le(writer, self.time);
        write_u32_le(writer, self.difficulty_threshold);
        append_bytes(writer, self.nonce.as_slice());
        assert(writer@ == start + encode_header_fixed(self@));
        let ghost after_fixed = writer@;
        let n = self.solution.len();
        if n < 0xfd {
            writer.push(n as u8);
            assert(writer@ == after_fixed + compact_size_prefix(n as nat));
        } else if n <= 0xffff {
            writer.push(0xfdu8);
            write_u16_le(writer, n as u16);
            assert(writer@ =~= after_fixed + compact_size_prefix(n as nat));
        } else if n <= 0xffff_ffff {
            writer.push(0xfeu8);
            write_u32_le(writer, n as u32);
            assert(writer@ =~= after_fixed + compact_size_prefix(n as nat));
        } else {
            writer.push(0xffu8);
            let len_bytes = u64_to_le_bytes(n as u64);
            append_bytes(writer, len_bytes.as_slice());
            assert(writer@ =~= after_fixed + compact_size_prefix(n as nat));
        }
        append_bytes(writer, self.solution.as_slice());
        let ghost after_solution = writer@;
        if self.version >= 5 {
            self.fat_pointer_to_bft_block.zcash_serialize(writer);
        }
        assert(writer@ =~= start + encode_header(self@));
    }

    /// Reads a header from `bytes` starting at `pos` (see `parse_header`);
    /// returns it and the position just after it.
    pub fn zcash_deserialize(bytes: &[u8], pos: usize) -> (res: Result<
        (Header, usize),
        SerializationError,
    >)
        requires
            pos <= bytes@.len(),
        ensures
            match parse_header(bytes@.skip(pos as int)) {
                Err(e) => res == Err::<(Header, usize), _>(e),
                Ok((h, n)) => res matches Ok((hdr, end)) && hdr@ == h && end == pos + n,
            },
            res matches Ok((_, end)) ==> pos <= end <= bytes@.len(),
    {
        reveal(parse_header);
        let ghost s = bytes@.skip(pos as int);
        let version = match read_u32_le(bytes, pos) {
            Some(v) => v,
            None => {
                return Err(SerializationError::UnexpectedEnd);
            },
        };
        assert(bytes@.subrange(pos as int, pos + 4) =~= s.subrange(0, 4));
        if version < ZCASH_BLOCK_VERSION {
            return Err(SerializationError::Parse(ParseFailure::VersionTooLow));
        }
        if bytes.len() - pos < 140 {
            return Err(SerializationError::UnexpectedEnd);
        }
        let mut previous_block_hash = [0u8; 32];
        copy_into_array(&mut previous_block_hash, bytes, pos + 4);
        let mut merkle_root = [0u8; 32];
        copy_into_array(&mut merkle_root, bytes, pos + 36);
        let mut commitment_bytes = [0u8; 32];
        copy_into_array(&mut commitment_bytes, bytes, pos + 68);
        let time = u32_from_le_bytes(slice_subrange(bytes, pos + 100, pos + 104));
        let difficulty_threshold = u32_from_le_bytes(slice_subrange(bytes, pos + 104, pos + 108));
        let mut nonce = [0u8; 32];
        copy_into_array(&mut nonce, bytes, pos + 108);
        proof {
            assert(bytes@.subrange(pos + 4, pos + 36) =~= s.subrange(4, 36));
            assert(bytes@.subrange(pos + 36, pos + 68) =~= s.subrange(36, 68));
            assert(bytes@.subrange(pos + 68, pos + 100) =~= s.subrange(68, 100));
            assert(bytes@.subrange(pos + 100, pos + 104) =~= s.subrange(100, 104));
            assert(bytes@.subrange(pos + 104, pos + 108) =~= s.subrange(104, 108));
            assert(bytes@.subrange(pos + 108, pos + 140) =~= s.subrange(108, 140));
        }
        let sol_pos = pos + 140;
        let ghost t = s.skip(140);
        assert(t =~= bytes@.skip(sol_pos as int));
        if bytes.len() - sol_pos < 1 {
            return Err(SerializationError::UnexpectedEnd);
        }
        let tag = bytes[sol_pos];
        let (sol_start, sol_len): (usize, usize) = if tag == 36 {
            (sol_pos + 1, 36)
        } else if tag == 0xfd {
            let len = match read_u16_le(bytes, sol_pos + 1) {
                Some(len) => len,
                None => {
                    return Err(SerializationError::UnexpectedEnd);
                },
            };
            assert(bytes@.subrange(sol_pos + 1, sol_pos + 3) =~= t.subrange(1, 3));
            if len != 1344 {
                return Err(SerializationError::Parse(ParseFailure::BadSolutionSize));
            }
            (sol_pos + 3, 1344)
        } else {
            return Err(SerializationError::Parse(ParseFailure::BadSolutionSize));
        };
        if bytes.len() - sol_start < sol_len {
            return Err(SerializationError::UnexpectedEnd);
        }
        let solution = slice_to_vec(slice_subrange(bytes, sol_start, sol_start + sol_len));
        assert(solution@ =~= t.subrange((sol_start - sol_pos) as int, (sol_start - sol_pos + sol_len) as int));
        let end = sol_start + sol_len;
        let (fat_pointer_to_bft_block, end) = if version >= 5 {
            match FatPointerToBftBlock::zcash_deserialize(bytes, end) {
                Ok((fp, e)) => (fp, e),
                Err(e) => {
                    assert(bytes@.skip(end as int) =~= s.skip(end - pos));
                    return Err(e);
                },
            }
        } else {
            (FatPointerToBftBlock::null(), end)
        };
        proof {
            assert(bytes@.skip((sol_start + sol_len) as int) =~= s.skip(sol_start + sol_len - pos));
        }
        let header = Header {
            version,
            previous_block_hash,
            merkle_root,
            commitment_bytes,
            time,
            difficulty_threshold,
            nonce,
            solution,
            fat_pointer_to_bft_block,
        };
        Ok((header, end))
    }
}


/// Law: the header decoder reads back exactly what the encoder wrote for a
/// well-formed header, whatever follows it in the stream. Headers below
/// version 5 do not carry their fat pointer, so for them the law holds when the
/// fat pointer is the null one.
pub proof fn law_header_encoding_roundtrip(h: BlockHeaderView, rest: Seq<u8>)
    requires
        header_view_wf(h),
        h.version < 5 ==> h.fat_pointer == null_fat_pointer_view(),
    ensures
        parse_header(encode_header(h) + rest) == Ok::<_, SerializationError>(
            (h, encode_header(h).len()),
        ),
{
    reveal(encode_header);
    reveal(parse_header);
    lemma_auto_spec_u32_to_from_le_bytes();
    lemma_auto_spec_u16_to_from_le_bytes();
    let fixed = encode_header_fixed(h);
    let prefix = compact_size_prefix(h.solution.len());
    let fp = encode_header_fat_pointer(h);
    let b = encode_header(h) + rest;
    assert(fixed.len() == 140);
    assert(b =~= fixed + (prefix + h.solution + fp + rest));
    assert(b.subrange(0, 4) =~= spec_u32_to_le_bytes(h.version));
    assert(b.subrange(4, 36) =~= h.previous_block_hash);
    assert(b.subrange(36, 68) =~= h.merkle_root);
    assert(b.subrange(68, 100) =~= h.commitment_bytes);
    assert(b.subrange(100, 104) =~= spec_u32_to_le_bytes(h.time));
    assert(b.subrange(104, 108) =~= spec_u32_to_le_bytes(h.difficulty_threshold));
    assert(b.subrange(108, 140) =~= h.nonce);
    let t = b.skip(140);
    assert(t =~= prefix + h.solution + (fp + rest));
    let n = prefix.len() + h.solution.len();
    if h.solution.len() == 36 {
        assert(prefix =~= seq![36u8]);
        assert(t.subrange(1, 37) =~= h.solution);
        assert(parse_solution(t) == Ok::<_, SerializationError>((h.solution, 37nat)));
    } else {
        assert(h.solution.len() == 1344);
        assert(prefix =~= seq![0xfdu8] + spec_u16_to_le_bytes(1344u16));
        assert(t.subrange(1, 3) =~= spec_u16_to_le_bytes(1344u16));
        assert(t.subrange(3, 1347) =~= h.solution);
        assert(parse_solution(t) == Ok::<_, SerializationError>((h.solution, 1347nat)));
    }
    let after = b.skip(140 + n as int);
    assert(after =~= fp + rest);
    if h.version >= 5 {
        law_fat_pointer_encoding_roundtrip(h.fat_pointer, rest);
    }
    assert(header_view_from_parts(b, h.solution, h.fat_pointer) == h);
}

/// Law: a header is encoded in the Zcash layout: version (`u32`,
/// little-endian) at 0, the previous block hash at 4, the merkle root at 36,
/// the commitment at 68, the time (`u32`) at 100, the difficulty bits
/// (`u32`) at 104, the nonce at 108, then the solution behind its
/// compact-size length, then (from version 5 on) the fat pointer.
pub proof fn law_header_encoding_layout(h: BlockHeaderView)
    requires
        h.previous_block_hash.len() == 32,
        h.merkle_root.len() == 32,
        h.commitment_bytes.len() == 32,
        h.nonce.len() == 32,
    ensures
        ({
            let e = encode_header(h);
            let p = compact_size_prefix(h.solution.len());
            let q = 140 + p.len() as int;
            let s_end = q + h.solution.len() as int;
            &&& e.subrange(0, 4) == spec_u32_to_le_bytes(h.version)
            &&& spec_u32_from_le_bytes(e.subrange(0, 4)) == h.version
            &&& e.subrange(4, 36) == h.previous_block_hash
            &&& e.subrange(36, 68) == h.merkle_root
            &&& e.subrange(68, 100) == h.commitment_bytes
            &&& e.subrange(100, 104) == spec_u32_to_le_bytes(h.time)
            &&& spec_u32_from_le_bytes(e.subrange(100, 104)) == h.time
            &&& e.subrange(104, 108) == spec_u32_to_le_bytes(h.difficulty_threshold)
            &&& spec_u32_from_le_bytes(e.subrange(104, 108)) == h.difficulty_threshold
            &&& e.subrange(108, 140) == h.nonce
            &&& e.subrange(140, q) == p
            &&& e.subrange(q, s_end) == h.solution
            &&& e.skip(s_end) == (if h.version >= 5 {
                encode_fat_pointer(h.fat_pointer)
            } else {
                Seq::<u8>::empty()
            })
        }),
{
    reveal(encode_header);
    lemma_auto_spec_u32_to_from_le_bytes();
    let e = encode_header(h);
    let fixed = encode_header_fixed(h);
    let p = compact_size_prefix(h.solution.len());
    let fp = encode_header_fat_pointer(h);
    assert(fixed.len() == 140);
    assert(e =~= fixed + p + h.solution + fp);
    assert(e.subrange(0, 4) =~= spec_u32_to_le_bytes(h.version));
    assert(e.subrange(4, 36) =~= h.previous_block_hash);
    assert(e.subrange(36, 68) =~= h.merkle_root);
    assert(e.subrange(68, 100) =~= h.commitment_bytes);
    assert(e.subrange(100, 104) =~= spec_u32_to_le_bytes(h.time));
    assert(e.subrange(104, 108) =~= spec_u32_to_le_bytes(h.difficulty_threshold));
    assert(e.subrange(108, 140) =~= h.nonce);
    let q = 140 + p.len() as int;
    assert(e.subrange(140, q) =~= p);
    assert(e.subrange(q, q + h.solution.len()) =~= h.solution);
    assert(e.skip(q + h.solution.len()) =~= fp);
}

/// Law: a header's hash is the double SHA-256 of its Zcash-layout encoding,
/// so two headers differing in any encoded field (the time and the
/// difficulty bits among them) are hashed over different bytes.
pub proof fn law_header_hash_input(h1: BlockHeaderView, h2: BlockHeaderView)
    requires
        header_view_wf(h1),
        header_view_wf(h2),
        h1.version < 5 ==> h1.fat_pointer == null_fat_pointer_view(),
        h2.version < 5 ==> h2.fat_pointer == null_fat_pointer_view(),
        h1 != h2,
    ensures
        encode_header(h1) != encode_header(h2),
        header_hash(h1) == sha256_of(sha256_of(encode_header(h1))),
{
    law_header_encoding_roundtrip(h1, Seq::empty());
    law_header_encoding_roundtrip(h2, Seq::empty());
    assert(encode_header(h1) + Seq::<u8>::empty() =~= encode_header(h1));
    assert(encode_header(h2) + Seq::<u8>::empty() =~= encode_header(h2));
}

impl Header {
    /// Law: deserializing what `zcash_serialize` wrote gives back a header
    /// with the same view, for well-formed headers (see
    /// `law_header_encoding_roundtrip` for headers below version 5).
    pub proof fn law_serialize_deserialize(&self, rest: Seq<u8>)
        requires
            self.wf(),
            self.version < 5 ==> self@.fat_pointer == null_fat_pointer_view(),
        ensures
            parse_header(encode_header(self@) + rest) == Ok::<_, SerializationError>(
                (self@, encode_header(self@).len()),
            ),
    {
        law_header_encoding_roundtrip(self@, rest);
    }
}
impl ZcashSerialize for Header {
    open spec fn serializable(&self) -> bool {
        true
    }

    open spec fn zcash_bytes(&self) -> Seq<u8> {
        encode_header(self@)
    }

    fn zcash_serialize_into(&self, writer: &mut Vec<u8>) {
        self.zcash_serialize(writer);
    }
}

/// The block hash of a header: SHA-256 applied twice to its encoding.
pub open spec fn header_hash(h: BlockHeaderView) -> Seq<u8> {
    sha256_of(sha256_of(encode_header(h)))
}

impl Header {
    /// The hash of this header, which identifies its block.
    pub fn hash(&self) -> (res: [u8; 32])
        ensures
            res@ == header_hash(self@),
    {
        let mut bytes: Vec<u8> = Vec::new();
        self.zcash_serialize(&mut bytes);
        assert(bytes@ =~= encode_header(self@));
        let once = sha256_digest(bytes.as_slice());
        sha256_digest(once.as_slice())
    }
}

/// A header with a count of the number of transactions in its block, as in
/// the Bitcoin network protocol; the count is always zero and not stored.
#[derive(Clone, Debug, PartialEq, Eq)]
pub struct CountedHeader {
    /// The header for a block.
    pub header: Header,
}

/// Why a run of PoW headers, tip first, was refused.
#[derive(Clone, Copy, Debug, PartialEq, Eq, Structural)]
pub enum HeaderFault {
    /// The header at `index` has a version below `ZCASH_BLOCK_VERSION`.
    UnexpectedVersion { index: u64, version: u32 },
    /// The header at `index` does not name the header after it as its
    /// previous block.
    OutOfOrder { index: u64 },
}

/// Whether the header at `i` names the header at `i + 1` as its previous
/// block.
pub open spec fn header_linked(hs: Seq<Header>, i: int) -> bool {
    hs[i].previous_block_hash@ == header_hash(hs[i + 1]@)
}

/// Whether every header has an accepted version, and each names the next as
/// its previous block: a run from the tip back in time.
pub open spec fn headers_valid(hs: Seq<Header>) -> bool {
    &&& forall|i: int| 0 <= i < hs.len() ==> (#[trigger] hs[i]).version >= ZCASH_BLOCK_VERSION
    &&& forall|i: int| 0 <= i < hs.len() - 1 ==> #[trigger] header_linked(hs, i)
}

/// Whether `f` is the first fault of `hs`: versions are checked first,
/// from the tip, then the links, from the tip.
pub open spec fn is_first_header_fault(hs: Seq<Header>, f: HeaderFault) -> bool {
    match f {
        HeaderFault::UnexpectedVersion { index, version } => {
            &&& index < hs.len()
            &&& hs[index as int].version == version
            &&& version < ZCASH_BLOCK_VERSION
            &&& forall|j: int| 0 <= j < index ==> (#[trigger] hs[j]).version >= ZCASH_BLOCK_VERSION
        },
        HeaderFault::OutOfOrder { index } => {
            &&& forall|j: int| 0 <= j < hs.len() ==> (#[trigger] hs[j]).version >= ZCASH_BLOCK_VERSION
            &&& index + 1 < hs.len()
            &&& !header_linked(hs, index as int)
            &&& forall|j: int| 0 <= j < index ==> #[trigger] header_linked(hs, j)
        },
    }
}

/// Checks a run of PoW headers, tip first: each version is accepted and
/// each header names the next as its previous block.
pub fn check_headers(headers: &Vec<Header>) -> (res: Option<HeaderFault>)
    ensures
        res is None <==> headers_valid(headers@),
        res matches Some(f) ==> is_first_header_fault(headers@, f),
{
    let n = headers.len();
    let mut i: usize = 0;
    while i < n
        invariant
            n == headers@.len(),
            i <= n,
            forall|j: int| 0 <= j < i ==> (#[trigger] headers@[j]).version >= ZCASH_BLOCK_VERSION,
        decreases n - i,
    {
        if headers[i].version < ZCASH_BLOCK_VERSION {
            return Some(HeaderFault::UnexpectedVersion { index: i as u64, version: headers[i].version });
        }
        i = i + 1;
    }
    let mut k: usize = 0;
    while n > 0 && k < n - 1
        invariant
            n == headers@.len(),
            k <= n,
            forall|j: int| 0 <= j < n ==> (#[trigger] headers@[j]).version >= ZCASH_BLOCK_VERSION,
            forall|j: int| 0 <= j < k ==> #[trigger] header_linked(headers@, j),
        decreases n - k,
    {
        let next_hash = headers[k + 1].hash();
        let prev = headers[k].previous_block_hash;
        if !crate::bytes::bytes32_eq(&prev, &next_hash) {
            proof {
                if prev@ == next_hash@ {
                    assert forall|b: int| 0 <= b < 32 implies prev[b] == next_hash[b] by {
                        assert(prev@[b] == next_hash@[b]);
                    }
                    assert(prev =~= next_hash);
                }
            }
            assert(headers@[k as int].previous_block_hash@ != next_hash@);
            assert(!header_linked(headers@, k as int));
            return Some(HeaderFault::OutOfOrder { index: k as u64 });
        }
        assert(headers@[k as int].previous_block_hash@ == next_hash@);
        k = k + 1;
    }
    None
}

} // verus!
