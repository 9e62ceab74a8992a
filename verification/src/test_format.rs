//! The test instruction file format: a 24-byte header ("ZECCLTF0", the
//! offset and count of the instructions, their size), the data that the
//! instructions point into, zero padding up to an 8-byte boundary, then the
//! 40-byte instructions.  Integers are little-endian.

use vstd::prelude::*;
use vstd::bytes::*;
use vstd::slice::slice_subrange;
use crate::bytes::append_bytes;
use crate::chain::{parse_bft_block, BftBlock};
use crate::crosslink_chain::ZcashCrosslinkParameters;
use crate::serialization::{read_u32_le, read_u64_le, write_u32_le, write_u64_le, ZcashSerialize};

verus! {

/// The size of the file header.
pub const TF_HDR_SIZE: usize = 24;

/// The size of an instruction, which is also the stride between them.
pub const TF_INSTR_SIZE: usize = 40;

/// The alignment of the instructions in the file.
pub const TF_INSTR_ALIGN: usize = 8;

/// The file header.
#[derive(Clone, Copy, Debug)]
pub struct TFHdr {
    pub magic: [u8; 8],
    pub instrs_o: u64,
    pub instrs_n: u32,
    /// Used as the stride between instructions.
    pub instr_size: u32,
}

/// The bytes of a header.
pub open spec fn encode_tf_hdr(h: TFHdr) -> Seq<u8> {
    h.magic@ + spec_u64_to_le_bytes(h.instrs_o) + spec_u32_to_le_bytes(h.instrs_n)
        + spec_u32_to_le_bytes(h.instr_size)
}

impl TFHdr {
    /// The header's bytes.
    pub fn to_bytes(&self) -> (res: Vec<u8>)
        ensures
            res@ == encode_tf_hdr(*self),
    {
        let mut out: Vec<u8> = Vec::new();
        append_bytes(&mut out, self.magic.as_slice());
        write_u64_le(&mut out, self.instrs_o);
        write_u32_le(&mut out, self.instrs_n);
        write_u32_le(&mut out, self.instr_size);
        assert(out@ =~= encode_tf_hdr(*self));
        out
    }
}

/// A range of the file's bytes: its offset from the start of the file and
/// its size.
#[derive(Clone, Copy, Debug, PartialEq, Eq, Structural)]
pub struct TFSlice {
    pub o: u64,
    pub size: u64,
}

impl TFSlice {
    /// The offset and the size.
    pub fn as_val(self) -> (res: [u64; 2])
        ensures
            res@ == seq![self.o, self.size],
    {
        let res = [self.o, self.size];
        assert(res@ =~= seq![self.o, self.size]);
        res
    }

    /// The bytes of `bytes` that the slice covers.
    pub fn as_byte_slice_in<'a>(self, bytes: &'a [u8]) -> (res: &'a [u8])
        requires
            self.o + self.size <= bytes@.len(),
        ensures
            res@ == bytes@.subrange(self.o as int, self.o + self.size),
    {
        let len = bytes.len();
        assert(self.o + self.size <= len);
        let start = self.o as usize;
        let end = start + self.size as usize;
        slice_subrange(bytes, start, end)
    }

    /// The slice with the offset and the size given in that order.
    pub fn from_val(val: &[u64; 2]) -> (res: TFSlice)
        ensures
            res.o == val@[0],
            res.size == val@[1],
    {
        TFSlice { o: val[0], size: val[1] }
    }
}

/// An instruction: its kind, flags, the slice of data it points at and two
/// values.
#[derive(Clone, Copy, Debug)]
pub struct TFInstr {
    pub kind: u32,
    pub flags: u32,
    pub data: TFSlice,
    pub val: [u64; 2],
}

/// Load a PoW block from the instruction's data.
pub const LOAD_POW: u32 = 0;
/// Load a BFT block from the instruction's data.
pub const LOAD_POS: u32 = 1;
/// Set the Crosslink parameters from the instruction's values.
pub const SET_PARAMS: u32 = 2;
/// Expect the PoW chain at the height in the first value.
pub const EXPECT_POW_HEIGHT: u32 = 3;
/// Expect the BFT chain at the height in the first value.
pub const EXPECT_POS_HEIGHT: u32 = 4;
/// The number of instruction kinds.
pub const TF_INSTR_KIND_COUNT: u32 = 5;

/// The name of an instruction kind.
pub open spec fn tf_instr_kind_name(kind: u32) -> Seq<char> {
    if kind == LOAD_POW {
        "LOAD_POW"@
    } else if kind == LOAD_POS {
        "LOAD_POS"@
    } else if kind == SET_PARAMS {
        "SET_PARAMS"@
    } else if kind == EXPECT_POW_HEIGHT {
        "EXPECT_POW_HEIGHT"@
    } else if kind == EXPECT_POS_HEIGHT {
        "EXPECT_POS_HEIGHT"@
    } else {
        "<unknown>"@
    }
}

/// The bytes of an instruction.
pub open spec fn encode_tf_instr(i: TFInstr) -> Seq<u8> {
    spec_u32_to_le_bytes(i.kind) + spec_u32_to_le_bytes(i.flags) + spec_u64_to_le_bytes(i.data.o)
        + spec_u64_to_le_bytes(i.data.size) + spec_u64_to_le_bytes(i.val[0]) + spec_u64_to_le_bytes(
        i.val[1],
    )
}

/// The instruction held by 40 bytes.
pub open spec fn decode_tf_instr(b: Seq<u8>) -> TFInstr {
    TFInstr {
        kind: spec_u32_from_le_bytes(b.subrange(0, 4)),
        flags: spec_u32_from_le_bytes(b.subrange(4, 8)),
        data: TFSlice {
            o: spec_u64_from_le_bytes(b.subrange(8, 16)),
            size: spec_u64_from_le_bytes(b.subrange(16, 24)),
        },
        val: [spec_u64_from_le_bytes(b.subrange(24, 32)), spec_u64_from_le_bytes(b.subrange(32, 40))],
    }
}

/// The bytes of a sequence of instructions, one after the other.
pub open spec fn encode_tf_instrs(s: Seq<TFInstr>) -> Seq<u8>
    decreases s.len(),
{
    if s.len() == 0 {
        Seq::empty()
    } else {
        encode_tf_instrs(s.drop_last()) + encode_tf_instr(s.last())
    }
}

/// The `n` instructions held by `b`, 40 bytes each.
pub open spec fn decode_tf_instrs(b: Seq<u8>, n: nat) -> Seq<TFInstr> {
    Seq::new(n, |i: int| decode_tf_instr(b.subrange(40 * i, 40 * i + 40)))
}

impl TFInstr {
    /// The name of an instruction kind, or "<unknown>".
    pub fn str_from_kind(kind: u32) -> (res: &'static str)
        ensures
            res@ == tf_instr_kind_name(kind),
    {
        if kind == LOAD_POW {
            proof { reveal_strlit("LOAD_POW"); }
            "LOAD_POW"
        } else if kind == LOAD_POS {
            proof { reveal_strlit("LOAD_POS"); }
            "LOAD_POS"
        } else if kind == SET_PARAMS {
            proof { reveal_strlit("SET_PARAMS"); }
            "SET_PARAMS"
        } else if kind == EXPECT_POW_HEIGHT {
            proof { reveal_strlit("EXPECT_POW_HEIGHT"); }
            "EXPECT_POW_HEIGHT"
        } else if kind == EXPECT_POS_HEIGHT {
            proof { reveal_strlit("EXPECT_POS_HEIGHT"); }
            "EXPECT_POS_HEIGHT"
        } else {
            proof { reveal_strlit("<unknown>"); }
            "<unknown>"
        }
    }

    /// The bytes of `bytes` that the instruction's data slice covers.
    pub fn data_slice<'a>(&self, bytes: &'a [u8]) -> (res: &'a [u8])
        requires
            self.data.o + self.data.size <= bytes@.len(),
        ensures
            res@ == bytes@.subrange(self.data.o as int, self.data.o + self.data.size),
    {
        self.data.as_byte_slice_in(bytes)
    }

    /// The instruction's bytes.
    pub fn to_bytes(&self) -> (res: Vec<u8>)
        ensures
            res@ == encode_tf_instr(*self),
    {
        let mut out: Vec<u8> = Vec::new();
        write_u32_le(&mut out, self.kind);
        write_u32_le(&mut out, self.flags);
        write_u64_le(&mut out, self.data.o);
        write_u64_le(&mut out, self.data.size);
        write_u64_le(&mut out, self.val[0]);
        write_u64_le(&mut out, self.val[1]);
        assert(out@ =~= encode_tf_instr(*self));
        out
    }
}

/// Decoding the bytes of an instruction gives it back.
pub proof fn lemma_tf_instr_roundtrip(i: TFInstr)
    ensures
        encode_tf_instr(i).len() == 40,
        decode_tf_instr(encode_tf_instr(i)) == i,
{
    lemma_auto_spec_u32_to_from_le_bytes();
    lemma_auto_spec_u64_to_from_le_bytes();
    let b = encode_tf_instr(i);
    assert(b.subrange(0, 4) =~= spec_u32_to_le_bytes(i.kind));
    assert(b.subrange(4, 8) =~= spec_u32_to_le_bytes(i.flags));
    assert(b.subrange(8, 16) =~= spec_u64_to_le_bytes(i.data.o));
    assert(b.subrange(16, 24) =~= spec_u64_to_le_bytes(i.data.size));
    assert(b.subrange(24, 32) =~= spec_u64_to_le_bytes(i.val[0]));
    assert(b.subrange(32, 40) =~= spec_u64_to_le_bytes(i.val[1]));
    let d = decode_tf_instr(b);
    assert(d.val =~= i.val);
}

/// The instructions' bytes are 40 per instruction, and each instruction
/// decodes from its own 40 bytes.
pub proof fn lemma_tf_instrs_roundtrip(s: Seq<TFInstr>)
    ensures
        encode_tf_instrs(s).len() == 40 * s.len(),
        decode_tf_instrs(encode_tf_instrs(s), s.len()) == s,
    decreases s.len(),
{
    if s.len() > 0 {
        let init = s.drop_last();
        lemma_tf_instrs_roundtrip(init);
        lemma_tf_instr_roundtrip(s.last());
        let b = encode_tf_instrs(s);
        let bi = encode_tf_instrs(init);
        assert forall|k: int| 0 <= k < s.len() implies decode_tf_instr(
            #[trigger] b.subrange(40 * k, 40 * k + 40),
        ) == s[k] by {
            if k < init.len() {
                assert(b.subrange(40 * k, 40 * k + 40) =~= bi.subrange(40 * k, 40 * k + 40));
                assert(decode_tf_instrs(bi, init.len())[k] == init[k]);
            } else {
                assert(b.subrange(40 * k, 40 * k + 40) =~= encode_tf_instr(s.last()));
            }
        }
        assert(decode_tf_instrs(b, s.len()) =~= s);
    }
}

/// Law: an instruction takes 40 bytes: its kind (`u32`, little-endian) at
/// 0, its flags (`u32`) at 4, its data slice's offset (`u64`) at 8 and size
/// (`u64`) at 16, then its first value (`u64`) at 24 and its second at 32.
pub proof fn law_tf_instr_layout(i: TFInstr)
    ensures
        encode_tf_instr(i).len() == 40,
        encode_tf_instr(i).subrange(0, 4) == spec_u32_to_le_bytes(i.kind),
        encode_tf_instr(i).subrange(4, 8) == spec_u32_to_le_bytes(i.flags),
        encode_tf_instr(i).subrange(8, 16) == spec_u64_to_le_bytes(i.data.o),
        encode_tf_instr(i).subrange(16, 24) == spec_u64_to_le_bytes(i.data.size),
        encode_tf_instr(i).subrange(24, 32) == spec_u64_to_le_bytes(i.val[0]),
        encode_tf_instr(i).subrange(32, 40) == spec_u64_to_le_bytes(i.val[1]),
        spec_u64_from_le_bytes(encode_tf_instr(i).subrange(24, 32)) == i.val[0],
        spec_u64_from_le_bytes(encode_tf_instr(i).subrange(32, 40)) == i.val[1],
{
    lemma_tf_instr_roundtrip(i);
    lemma_auto_spec_u32_to_from_le_bytes();
    lemma_auto_spec_u64_to_from_le_bytes();
    let b = encode_tf_instr(i);
    assert(b.subrange(0, 4) =~= spec_u32_to_le_bytes(i.kind));
    assert(b.subrange(4, 8) =~= spec_u32_to_le_bytes(i.flags));
    assert(b.subrange(8, 16) =~= spec_u64_to_le_bytes(i.data.o));
    assert(b.subrange(16, 24) =~= spec_u64_to_le_bytes(i.data.size));
    assert(b.subrange(24, 32) =~= spec_u64_to_le_bytes(i.val[0]));
    assert(b.subrange(32, 40) =~= spec_u64_to_le_bytes(i.val[1]));
}

/// Law: instructions are written one after another in their order, 40
/// bytes each: instruction `k` is at bytes `40 * k` to `40 * k + 40`.
pub proof fn law_tf_instrs_in_order(s: Seq<TFInstr>, k: int)
    requires
        0 <= k < s.len(),
    ensures
        encode_tf_instrs(s).len() == 40 * s.len(),
        encode_tf_instrs(s).subrange(40 * k, 40 * k + 40) == encode_tf_instr(s[k]),
    decreases s.len(),
{
    lemma_tf_instrs_roundtrip(s);
    lemma_tf_instr_roundtrip(s.last());
    let init = s.drop_last();
    lemma_tf_instrs_roundtrip(init);
    let b = encode_tf_instrs(s);
    if k < init.len() {
        law_tf_instrs_in_order(init, k);
        assert(b.subrange(40 * k, 40 * k + 40) =~= encode_tf_instrs(init).subrange(40 * k, 40 * k + 40));
        assert(init[k] == s[k]);
    } else {
        assert(b.subrange(40 * k, 40 * k + 40) =~= encode_tf_instr(s.last()));
    }
}

/// Law: a file header takes 24 bytes: the magic, then the instructions'
/// offset (`u64`, little-endian) at 8, their count (`u32`) at 16 and their
/// size (`u32`) at 20.
pub proof fn law_tf_hdr_layout(h: TFHdr)
    ensures
        encode_tf_hdr(h).len() == 24,
        encode_tf_hdr(h).subrange(0, 8) == h.magic@,
        encode_tf_hdr(h).subrange(8, 16) == spec_u64_to_le_bytes(h.instrs_o),
        encode_tf_hdr(h).subrange(16, 20) == spec_u32_to_le_bytes(h.instrs_n),
        encode_tf_hdr(h).subrange(20, 24) == spec_u32_to_le_bytes(h.instr_size),
{
    lemma_auto_spec_u32_to_from_le_bytes();
    lemma_auto_spec_u64_to_from_le_bytes();
    let b = encode_tf_hdr(h);
    assert(b.subrange(0, 8) =~= h.magic@);
    assert(b.subrange(8, 16) =~= spec_u64_to_le_bytes(h.instrs_o));
    assert(b.subrange(16, 20) =~= spec_u32_to_le_bytes(h.instrs_n));
    assert(b.subrange(20, 24) =~= spec_u32_to_le_bytes(h.instr_size));
}

/// `v` rounded up to a multiple of 8.
pub open spec fn align_up8(v: int) -> int {
    ((v + 7) / 8) * 8
}

/// The bytes of a test file with these instructions and data.
pub open spec fn encode_tf(instrs: Seq<TFInstr>, data: Seq<u8>) -> Seq<u8> {
    let unaligned = TF_HDR_SIZE + data.len();
    let instrs_o = align_up8(unaligned);
    encode_tf_hdr(
        TFHdr {
            magic: [0x5au8, 0x45u8, 0x43u8, 0x43u8, 0x4cu8, 0x54u8, 0x46u8, 0x30u8],
            instrs_o: instrs_o as u64,
            instrs_n: instrs.len() as u32,
            instr_size: TF_INSTR_SIZE as u32,
        },
    ) + data + Seq::new((instrs_o - unaligned) as nat, |i: int| 0u8) + encode_tf_instrs(instrs)
}

/// Law: a written test file starts with "ZECCLTF0", then the offset of the
/// instructions (the end of the data rounded up to 8), their count and the
/// instruction size 40; the data follows the 24-byte header, zero bytes
/// pad it to the offset, and the instructions follow in order.
pub proof fn law_tf_file_layout(instrs: Seq<TFInstr>, data: Seq<u8>)
    requires
        instrs.len() <= u32::MAX,
        TF_HDR_SIZE + data.len() + 7 <= u64::MAX,
    ensures
        ({
            let e = encode_tf(instrs, data);
            let o = align_up8(24 + data.len() as int);
            &&& e.subrange(0, 8) == seq![0x5au8, 0x45u8, 0x43u8, 0x43u8, 0x4cu8, 0x54u8, 0x46u8, 0x30u8]
            &&& spec_u64_from_le_bytes(e.subrange(8, 16)) == o
            &&& spec_u32_from_le_bytes(e.subrange(16, 20)) == instrs.len()
            &&& spec_u32_from_le_bytes(e.subrange(20, 24)) == 40
            &&& e.subrange(24, 24 + data.len() as int) == data
            &&& forall|j: int| 24 + data.len() <= j < o ==> e[j] == 0u8
            &&& e.skip(o) == encode_tf_instrs(instrs)
        }),
{
    lemma_auto_spec_u32_to_from_le_bytes();
    lemma_auto_spec_u64_to_from_le_bytes();
    let unaligned = TF_HDR_SIZE + data.len();
    let o = align_up8(unaligned);
    assert(unaligned <= o < unaligned + 8) by (nonlinear_arith)
        requires
            o == ((unaligned + 7) / 8) * 8,
            unaligned >= 0,
    ;
    let pad = Seq::new((o - unaligned) as nat, |i: int| 0u8);
    let hdr = TFHdr {
        magic: [0x5au8, 0x45u8, 0x43u8, 0x43u8, 0x4cu8, 0x54u8, 0x46u8, 0x30u8],
        instrs_o: o as u64,
        instrs_n: instrs.len() as u32,
        instr_size: TF_INSTR_SIZE as u32,
    };
    law_tf_hdr_layout(hdr);
    let hb = encode_tf_hdr(hdr);
    let e = encode_tf(instrs, data);
    assert(e =~= hb + data + pad + encode_tf_instrs(instrs));
    assert(e.subrange(0, 8) =~= hb.subrange(0, 8));
    assert(hdr.magic@ =~= seq![0x5au8, 0x45u8, 0x43u8, 0x43u8, 0x4cu8, 0x54u8, 0x46u8, 0x30u8]);
    assert(e.subrange(8, 16) =~= hb.subrange(8, 16));
    assert(e.subrange(16, 20) =~= hb.subrange(16, 20));
    assert(e.subrange(20, 24) =~= hb.subrange(20, 24));
    assert(e.subrange(24, 24 + data.len() as int) =~= data);
    assert forall|j: int| 24 + data.len() <= j < o implies e[j] == 0u8 by {
        assert(e[j] == pad[j - unaligned]);
    }
    assert(e.skip(o) =~= encode_tf_instrs(instrs));
}

/// Why a test file could not be read.
#[derive(Clone, Copy, Debug, PartialEq, Eq, Structural)]
pub enum TFReadError {
    /// Fewer bytes than a header.
    HeaderTooShort,
    /// The instructions do not start on an 8-byte boundary.
    InstrsMisaligned,
    /// Fewer bytes after the instructions' offset than the instructions need.
    InstrsTooShort,
}

/// The instructions' offset that a header declares.
pub open spec fn tf_declared_instrs_o(bytes: Seq<u8>) -> u64 {
    spec_u64_from_le_bytes(bytes.subrange(8, 16))
}

/// The instruction count that a header declares.
pub open spec fn tf_declared_instrs_n(bytes: Seq<u8>) -> u32 {
    spec_u32_from_le_bytes(bytes.subrange(16, 20))
}

/// Whether a file is so malformed that reading it is not defined: the
/// declared instructions' offset lies past the end of the file, or inside
/// the header while the instructions themselves fit.
pub open spec fn tf_read_undefined(bytes: Seq<u8>) -> bool {
    let o = tf_declared_instrs_o(bytes);
    let n = tf_declared_instrs_n(bytes);
    bytes.len() >= TF_HDR_SIZE && (o > bytes.len() || (o % 8 == 0 && 40 * n <= bytes.len() - o && o
        < TF_HDR_SIZE))
}

/// What reading a file gives: its instructions and its data (the bytes
/// between the header and the instructions, padding included), or why it
/// could not be read.
pub open spec fn read_tf(bytes: Seq<u8>) -> Result<(Seq<TFInstr>, Seq<u8>), TFReadError> {
    if bytes.len() < TF_HDR_SIZE {
        Err(TFReadError::HeaderTooShort)
    } else {
        let o = tf_declared_instrs_o(bytes);
        let n = tf_declared_instrs_n(bytes);
        if o % 8 != 0 {
            Err(TFReadError::InstrsMisaligned)
        } else if 40 * n > bytes.len() - o {
            Err(TFReadError::InstrsTooShort)
        } else {
            Ok(
                (
                    decode_tf_instrs(bytes.subrange(o as int, o + 40 * n), n as nat),
                    bytes.subrange(TF_HDR_SIZE as int, o as int),
                ),
            )
        }
    }
}

/// A test file: instructions and the data they point into.
pub struct TF {
    pub instrs: Vec<TFInstr>,
    pub data: Vec<u8>,
}

/// Whether `v` is a power of two.
fn is_a_power_of_2(v: usize) -> (res: bool)
    ensures
        res == (v != 0 && (v & ((v - 1) as usize)) == 0),
{
    v != 0 && ((v & (v - 1)) == 0)
}

/// `v` rounded up to a multiple of `align`, a power of two.
fn align_up(v: usize, align: usize) -> (res: usize)
    requires
        align != 0 && (align & ((align - 1) as usize)) == 0,
        v + align - 1 <= usize::MAX,
    ensures
        res == (((v + (align - 1)) as usize) & !((align - 1) as usize)),
{
    let a = align - 1;
    (v + a) & !a
}

/// Rounding up to 8 with the bit formula.
proof fn lemma_align_up_8(v: usize)
    requires
        v + 7 <= usize::MAX,
    ensures
        (((v + (8usize - 1)) as usize) & !((8usize - 1) as usize)) == align_up8(v as int),
        align_up8(v as int) - v < 8,
        align_up8(v as int) >= v,
        align_up8(v as int) % 8 == 0,
{
    let w = (v + 7) as usize;
    assert(w == v + 7);
    assert(w & !7usize == w - w % 8) by (bit_vector);
}

impl TF {
    /// An empty test file for the parameters; the parameters are not
    /// recorded yet.
    pub fn new(params: &ZcashCrosslinkParameters) -> (res: TF)
        ensures
            res.instrs@.len() == 0,
            res.data@.len() == 0,
    {
        TF { instrs: Vec::new(), data: Vec::new() }
    }

    /// Appends `bytes` to the data; returns the slice where they are in the
    /// file.
    pub fn push_data(&mut self, bytes: &[u8]) -> (res: TFSlice)
        requires
            TF_HDR_SIZE + old(self).data@.len() + bytes@.len() <= usize::MAX,
        ensures
            final(self).data@ == old(self).data@ + bytes@,
            final(self).instrs@ == old(self).instrs@,
            res.o == TF_HDR_SIZE + old(self).data@.len(),
            res.size == bytes@.len(),
    {
        let result = TFSlice {
            o: (TF_HDR_SIZE + self.data.len()) as u64,
            size: bytes.len() as u64,
        };
        append_bytes(&mut self.data, bytes);
        result
    }

    /// Appends the encoding of `z` to the data; returns the slice where it is
    /// in the file.
    pub fn push_serialize<Z: ZcashSerialize>(&mut self, z: &Z) -> (res: TFSlice)
        requires
            z.serializable(),
            TF_HDR_SIZE + old(self).data@.len() + z.zcash_bytes().len() <= usize::MAX,
        ensures
            final(self).data@ == old(self).data@ + z.zcash_bytes(),
            final(self).instrs@ == old(self).instrs@,
            res.o == TF_HDR_SIZE + old(self).data@.len(),
            res.size == z.zcash_bytes().len(),
    {
        let bgn = (TF_HDR_SIZE + self.data.len()) as u64;
        z.zcash_serialize_into(&mut self.data);
        let end = (TF_HDR_SIZE + self.data.len()) as u64;
        TFSlice { o: bgn, size: end - bgn }
    }

    /// Appends `data` and an instruction that points at it.
    pub fn push_instr_ex(&mut self, kind: u32, flags: u32, data: &[u8], val: [u64; 2])
        requires
            TF_HDR_SIZE + old(self).data@.len() + data@.len() <= usize::MAX,
        ensures
            final(self).data@ == old(self).data@ + data@,
            final(self).instrs@ == old(self).instrs@.push(
                TFInstr {
                    kind,
                    flags,
                    data: TFSlice {
                        o: (TF_HDR_SIZE + old(self).data@.len()) as u64,
                        size: data@.len() as u64,
                    },
                    val,
                },
            ),
    {
        let data = self.push_data(data);
        self.instrs.push(TFInstr { kind, flags, data, val });
    }

    /// Appends `data` and an instruction of `kind` that points at it, with
    /// no flags and zero values.
    pub fn push_instr(&mut self, kind: u32, data: &[u8])
        requires
            TF_HDR_SIZE + old(self).data@.len() + data@.len() <= usize::MAX,
        ensures
            final(self).data@ == old(self).data@ + data@,
            final(self).instrs@ == old(self).instrs@.push(
                TFInstr {
                    kind,
                    flags: 0,
                    data: TFSlice {
                        o: (TF_HDR_SIZE + old(self).data@.len()) as u64,
                        size: data@.len() as u64,
                    },
                    val: [0u64, 0u64],
                },
            ),
    {
        self.push_instr_ex(kind, 0, data, [0u64, 0u64])
    }

    /// Appends an instruction of `kind` with these values and empty data.
    pub fn push_instr_val(&mut self, kind: u32, val: [u64; 2])
        requires
            TF_HDR_SIZE + old(self).data@.len() <= usize::MAX,
        ensures
            final(self).data@ == old(self).data@,
            final(self).instrs@ == old(self).instrs@.push(
                TFInstr {
                    kind,
                    flags: 0,
                    data: TFSlice { o: (TF_HDR_SIZE + old(self).data@.len()) as u64, size: 0 },
                    val,
                },
            ),
    {
        let empty: [u8; 0] = [];
        assert(empty@ =~= Seq::<u8>::empty());
        self.push_instr_ex(kind, 0, empty.as_slice(), val);
        assert(self.data@ =~= old(self).data@);
    }

    /// Appends the encoding of `data` and an instruction that points at it.
    pub fn push_instr_serialize_ex<Z: ZcashSerialize>(
        &mut self,
        kind: u32,
        flags: u32,
        data: &Z,
        val: [u64; 2],
    )
        requires
            data.serializable(),
            TF_HDR_SIZE + old(self).data@.len() + data.zcash_bytes().len() <= usize::MAX,
        ensures
            final(self).data@ == old(self).data@ + data.zcash_bytes(),
            final(self).instrs@ == old(self).instrs@.push(
                TFInstr {
                    kind,
                    flags,
                    data: TFSlice {
                        o: (TF_HDR_SIZE + old(self).data@.len()) as u64,
                        size: data.zcash_bytes().len() as u64,
                    },
                    val,
                },
            ),
    {
        let data = self.push_serialize(data);
        self.instrs.push(TFInstr { kind, flags, data, val });
    }

    /// Appends the encoding of `data` and an instruction of `kind` that
    /// points at it, with no flags and zero values.
    pub fn push_instr_serialize<Z: ZcashSerialize>(&mut self, kind: u32, data: &Z)
        requires
            data.serializable(),
            TF_HDR_SIZE + old(self).data@.len() + data.zcash_bytes().len() <= usize::MAX,
        ensures
            final(self).data@ == old(self).data@ + data.zcash_bytes(),
            final(self).instrs@ == old(self).instrs@.push(
                TFInstr {
                    kind,
                    flags: 0,
                    data: TFSlice {
                        o: (TF_HDR_SIZE + old(self).data@.len()) as u64,
                        size: data.zcash_bytes().len() as u64,
                    },
                    val: [0u64, 0u64],
                },
            ),
    {
        self.push_instr_serialize_ex(kind, 0, data, [0u64, 0u64])
    }

    /// Appends the file's bytes to `writer`.
    pub fn write(&self, writer: &mut Vec<u8>)
        requires
            TF_HDR_SIZE + self.data@.len() + 7 <= usize::MAX,
        ensures
            final(writer)@ == old(writer)@ + encode_tf(self.instrs@, self.data@),
    {
        let ghost start = writer@;
        let instrs_o_unaligned = TF_HDR_SIZE + self.data.len();
        proof {
            assert((8usize & 7usize) == 0) by (bit_vector);
            lemma_align_up_8(instrs_o_unaligned);
        }
        let instrs_o = align_up(instrs_o_unaligned, TF_INSTR_ALIGN);
        let hdr = TFHdr {
            magic: [0x5au8, 0x45u8, 0x43u8, 0x43u8, 0x4cu8, 0x54u8, 0x46u8, 0x30u8],
            instrs_o: instrs_o as u64,
            instrs_n: self.instrs.len() as u32,
            instr_size: TF_INSTR_SIZE as u32,
        };
        let hdr_bytes = hdr.to_bytes();
        append_bytes(writer, hdr_bytes.as_slice());
        append_bytes(writer, self.data.as_slice());
        let mut pad: usize = 0;
        let ghost after_data = writer@;
        while pad < instrs_o - instrs_o_unaligned
            invariant
                pad <= instrs_o - instrs_o_unaligned,
                writer@ == after_data + Seq::new(pad as nat, |i: int| 0u8),
            decreases instrs_o - instrs_o_unaligned - pad,
        {
            writer.push(0u8);
            pad = pad + 1;
            assert(writer@ =~= after_data + Seq::new(pad as nat, |i: int| 0u8));
        }
        let ghost after_pad = writer@;
        let mut k: usize = 0;
        while k < self.instrs.len()
            invariant
                k <= self.instrs@.len(),
                writer@ == after_pad + encode_tf_instrs(self.instrs@.take(k as int)),
            decreases self.instrs@.len() - k,
        {
            let b = self.instrs[k].to_bytes();
            append_bytes(writer, b.as_slice());
            k = k + 1;
            assert(self.instrs@.take(k as int).drop_last() =~= self.instrs@.take(k - 1));
        }
        assert(self.instrs@.take(self.instrs@.len() as int) =~= self.instrs@);
        assert(writer@ =~= start + encode_tf(self.instrs@, self.data@));
    }

    /// The file's bytes.
    pub fn write_to_bytes(&self) -> (res: Vec<u8>)
        requires
            TF_HDR_SIZE + self.data@.len() + 7 <= usize::MAX,
        ensures
            res@ == encode_tf(self.instrs@, self.data@),
    {
        let mut bytes: Vec<u8> = Vec::new();
        self.write(&mut bytes);
        assert(bytes@ =~= encode_tf(self.instrs@, self.data@));
        bytes
    }

    /// Whether reading `bytes` is defined: false when the declared
    /// instructions' offset lies past the end of the file, or inside the
    /// header while the instructions themselves fit.
    pub fn read_is_defined(bytes: &[u8]) -> (res: bool)
        ensures
            res == !tf_read_undefined(bytes@),
    {
        if bytes.len() < TF_HDR_SIZE {
            return true;
        }
        let o = match read_u64_le(bytes, 8) {
            Some(o) => o,
            None => {
                return true;
            },
        };
        let n = match read_u32_le(bytes, 16) {
            Some(n) => n,
            None => {
                return true;
            },
        };
        let len = bytes.len() as u64;
        if o > len {
            false
        } else {
            !(o % 8 == 0 && (n as u64) * 40 <= len - o && o < TF_HDR_SIZE as u64)
        }
    }

    /// Reads a test file: its instructions, and as data every byte between
    /// the header and the instructions.
    pub fn read_from_bytes(bytes: &[u8]) -> (res: Result<TF, TFReadError>)
        requires
            !tf_read_undefined(bytes@),
        ensures
            match (res, read_tf(bytes@)) {
                (Ok(tf), Ok((instrs, data))) => tf.instrs@ == instrs && tf.data@ == data,
                (Err(e), Err(f)) => e == f,
                _ => false,
            },
    {
        if bytes.len() < TF_HDR_SIZE {
            return Err(TFReadError::HeaderTooShort);
        }
        let instrs_o = match read_u64_le(bytes, 8) {
            Some(o) => o,
            None => {
                return Err(TFReadError::HeaderTooShort);
            },
        };
        let instrs_n = match read_u32_le(bytes, 16) {
            Some(n) => n,
            None => {
                return Err(TFReadError::HeaderTooShort);
            },
        };
        if instrs_o % 8 != 0 {
            return Err(TFReadError::InstrsMisaligned);
        }
        let o = instrs_o as usize;
        let n = instrs_n as usize;
        if (instrs_n as u64) * 40 > (bytes.len() - o) as u64 {
            return Err(TFReadError::InstrsTooShort);
        }
        let mut instrs: Vec<TFInstr> = Vec::new();
        let mut k: usize = 0;
        let ghost region = bytes@.subrange(o as int, o + 40 * n);
        while k < n
            invariant
                k <= n,
                bytes@.len() == bytes.len(),
                o + 40 * n <= bytes.len(),
                region == bytes@.subrange(o as int, o + 40 * n),
                instrs@ == decode_tf_instrs(region, n as nat).take(k as int),
            decreases n - k,
        {
            let p = o + 40 * k;
            let kind = u32_from_le_bytes(slice_subrange(bytes, p, p + 4));
            let flags = u32_from_le_bytes(slice_subrange(bytes, p + 4, p + 8));
            let d_o = u64_from_le_bytes(slice_subrange(bytes, p + 8, p + 16));
            let d_size = u64_from_le_bytes(slice_subrange(bytes, p + 16, p + 24));
            let v0 = u64_from_le_bytes(slice_subrange(bytes, p + 24, p + 32));
            let v1 = u64_from_le_bytes(slice_subrange(bytes, p + 32, p + 40));
            let instr = TFInstr { kind, flags, data: TFSlice { o: d_o, size: d_size }, val: [v0, v1] };
            proof {
                let rb = region.subrange(40 * k, 40 * k + 40);
                assert(rb.subrange(0, 4) =~= bytes@.subrange(p as int, p + 4));
                assert(rb.subrange(4, 8) =~= bytes@.subrange(p + 4, p + 8));
                assert(rb.subrange(8, 16) =~= bytes@.subrange(p + 8, p + 16));
                assert(rb.subrange(16, 24) =~= bytes@.subrange(p + 16, p + 24));
                assert(rb.subrange(24, 32) =~= bytes@.subrange(p + 24, p + 32));
                assert(rb.subrange(32, 40) =~= bytes@.subrange(p + 32, p + 40));
                assert(instr == decode_tf_instr(rb));
            }
            instrs.push(instr);
            k = k + 1;
            assert(instrs@ =~= decode_tf_instrs(region, n as nat).take(k as int));
        }
        assert(decode_tf_instrs(region, n as nat).take(n as int) =~= decode_tf_instrs(
            region,
            n as nat,
        ));
        let data_slice = slice_subrange(bytes, TF_HDR_SIZE, o);
        let mut data: Vec<u8> = Vec::new();
        append_bytes(&mut data, data_slice);
        assert(data@ =~= bytes@.subrange(TF_HDR_SIZE as int, o as int));
        Ok(TF { instrs, data })
    }
}

/// Writing a test file and reading it back gives its instructions, and its
/// data followed by the zero padding that aligns the instructions; so a
/// file whose data fills whole 8-byte words reads back exactly.  The count
/// of instructions must fit the header's 32-bit field.
pub proof fn law_tf_write_read_roundtrip(instrs: Seq<TFInstr>, data: Seq<u8>)
    requires
        instrs.len() <= u32::MAX,
        TF_HDR_SIZE + data.len() + 7 <= usize::MAX,
    ensures
        !tf_read_undefined(encode_tf(instrs, data)),
        read_tf(encode_tf(instrs, data)) == Ok::<_, TFReadError>(
            (
                instrs,
                data + Seq::new(
                    (align_up8(TF_HDR_SIZE + data.len()) - (TF_HDR_SIZE + data.len())) as nat,
                    |i: int| 0u8,
                ),
            ),
        ),
        data.len() % 8 == 0 ==> read_tf(encode_tf(instrs, data)) == Ok::<_, TFReadError>(
            (instrs, data),
        ),
{
    lemma_auto_spec_u32_to_from_le_bytes();
    lemma_auto_spec_u64_to_from_le_bytes();
    lemma_tf_instrs_roundtrip(instrs);
    let unaligned = TF_HDR_SIZE + data.len();
    let o = align_up8(unaligned);
    assert(0 <= o - unaligned < 8 && o % 8 == 0) by {
        lemma_align_up_8(unaligned as usize);
    }
    let pad = Seq::new((o - unaligned) as nat, |i: int| 0u8);
    let hdr = TFHdr {
        magic: [0x5au8, 0x45u8, 0x43u8, 0x43u8, 0x4cu8, 0x54u8, 0x46u8, 0x30u8],
        instrs_o: o as u64,
        instrs_n: instrs.len() as u32,
        instr_size: TF_INSTR_SIZE as u32,
    };
    let hb = encode_tf_hdr(hdr);
    let ib = encode_tf_instrs(instrs);
    let bytes = encode_tf(instrs, data);
    assert(bytes == hb + data + pad + ib);
    assert(hb.len() == 24);
    assert(bytes.subrange(8, 16) =~= spec_u64_to_le_bytes(o as u64));
    assert(bytes.subrange(16, 20) =~= spec_u32_to_le_bytes(instrs.len() as u32));
    assert(tf_declared_instrs_o(bytes) == o);
    assert(tf_declared_instrs_n(bytes) == instrs.len());
    assert(bytes.len() == o + 40 * instrs.len());
    assert(bytes.subrange(o, o + 40 * instrs.len()) =~= ib);
    assert(bytes.subrange(TF_HDR_SIZE as int, o) =~= data + pad);
    if data.len() % 8 == 0 {
        assert((data.len() + 24 + 7) / 8 * 8 == data.len() + 24) by (nonlinear_arith)
            requires
                data.len() % 8 == 0,
        ;
        assert(pad.len() == 0);
        assert(data + pad =~= data);
    }
}

/// An instruction's data slice, in the bytes of the file written from the
/// test file, gives back the bytes that were pushed with it: the slice that
/// `push_data` returns starts after the header and the data pushed before,
/// and later pushes only append to the data.
pub proof fn law_tf_instr_data_read_back(
    instrs: Seq<TFInstr>,
    data: Seq<u8>,
    before: Seq<u8>,
    pushed: Seq<u8>,
    instr: TFInstr,
)
    requires
        instr.data.o == TF_HDR_SIZE + before.len(),
        instr.data.size == pushed.len(),
        before.len() + pushed.len() <= data.len(),
        data.subrange(0, before.len() + pushed.len() as int) == before + pushed,
    ensures
        instr.data.o + instr.data.size <= encode_tf(instrs, data).len(),
        encode_tf(instrs, data).subrange(
            instr.data.o as int,
            instr.data.o + instr.data.size,
        ) == pushed,
{
    lemma_auto_spec_u32_to_from_le_bytes();
    lemma_auto_spec_u64_to_from_le_bytes();
    let unaligned = TF_HDR_SIZE + data.len();
    let o = align_up8(unaligned);
    let pad = Seq::new((o - unaligned) as nat, |i: int| 0u8);
    let hdr = TFHdr {
        magic: [0x5au8, 0x45u8, 0x43u8, 0x43u8, 0x4cu8, 0x54u8, 0x46u8, 0x30u8],
        instrs_o: o as u64,
        instrs_n: instrs.len() as u32,
        instr_size: TF_INSTR_SIZE as u32,
    };
    let hb = encode_tf_hdr(hdr);
    let bytes = encode_tf(instrs, data);
    assert(bytes == hb + data + pad + encode_tf_instrs(instrs));
    assert(hb.len() == 24);
    let b = before.len() as int;
    let e = b + pushed.len();
    assert(bytes.subrange(24 + b, 24 + e) =~= data.subrange(b, e));
    assert(data.subrange(b, e) =~= (before + pushed).subrange(b, e));
    assert((before + pushed).subrange(b, e) =~= pushed);
}

/// An instruction as the test runner reads it.
pub enum TestInstr {
    /// A PoW block, as its encoding.
    LoadPoW(Vec<u8>),
    /// A BFT block.
    LoadPoS(BftBlock),
    /// New Crosslink parameters.
    SetParams(ZcashCrosslinkParameters),
    /// The PoW chain is expected at this height.
    ExpectPoWHeight(u32),
    /// The BFT chain is expected at this height.
    ExpectPoSHeight(u64),
}

/// Reads one instruction of a test file: the data of a block load, the
/// values of the other kinds (the height of a PoW expectation cut to 32
/// bits); `None` when the BFT block does not decode.  Kinds other than the
/// five known ones are not runnable.
pub fn tf_read_instr(bytes: &[u8], instr: &TFInstr) -> (res: Option<TestInstr>)
    requires
        instr.kind <= EXPECT_POS_HEIGHT,
        instr.kind <= LOAD_POS ==> instr.data.o + instr.data.size <= bytes@.len(),
    ensures
        instr.kind == LOAD_POW ==> (res matches Some(TestInstr::LoadPoW(b)) && b@ == bytes@.subrange(
            instr.data.o as int,
            instr.data.o + instr.data.size,
        )),
        instr.kind == LOAD_POS ==> match parse_bft_block(
            bytes@.subrange(instr.data.o as int, instr.data.o + instr.data.size),
        ) {
            Ok((v, _)) => res matches Some(TestInstr::LoadPoS(b)) && b@ == v,
            Err(_) => res is None,
        },
        instr.kind == SET_PARAMS ==> (res matches Some(TestInstr::SetParams(p))
            && p.bc_confirmation_depth_sigma == instr.val[0] && p.finalization_gap_bound
            == instr.val[1]),
        instr.kind == EXPECT_POW_HEIGHT ==> res == Some(
            TestInstr::ExpectPoWHeight(instr.val[0] as u32),
        ),
        instr.kind == EXPECT_POS_HEIGHT ==> res == Some(TestInstr::ExpectPoSHeight(instr.val[0])),
{
    if instr.kind == LOAD_POW {
        let slice = instr.data_slice(bytes);
        let mut block_bytes: Vec<u8> = Vec::new();
        append_bytes(&mut block_bytes, slice);
        assert(block_bytes@ =~= slice@);
        Some(TestInstr::LoadPoW(block_bytes))
    } else if instr.kind == LOAD_POS {
        let slice = instr.data_slice(bytes);
        assert(slice@.skip(0) =~= slice@);
        match BftBlock::zcash_deserialize(slice, 0) {
            Ok((block, _)) => Some(TestInstr::LoadPoS(block)),
            Err(_) => None,
        }
    } else if instr.kind == SET_PARAMS {
        Some(
            TestInstr::SetParams(
                ZcashCrosslinkParameters {
                    bc_confirmation_depth_sigma: instr.val[0],
                    finalization_gap_bound: instr.val[1],
                },
            ),
        )
    } else if instr.kind == EXPECT_POW_HEIGHT {
        Some(TestInstr::ExpectPoWHeight(instr.val[0] as u32))
    } else {
        Some(TestInstr::ExpectPoSHeight(instr.val[0]))
    }
}

} // verus!
