//! Fat pointers: the fixed part of a finalizer vote for a BFT block together
//! with the finalizers' signatures over it, and their byte encodings.

use vstd::prelude::*;
use vstd::bytes::*;
use vstd::slice::slice_subrange;
use crate::bytes::{append_bytes, copy_into_array};
use crate::serialization::{read_u16_le, write_u16_le, SerializationError, ZcashSerialize};
use crate::hex_text::{append_hex, hex_lower};

verus! {

/// Number of bytes of a vote that are shared by every finalizer: the vote
/// without the finalizer's 32-byte public key.
pub const VOTE_WITHOUT_KEY_LEN: usize = 44;

/// Number of bytes of an encoded fat pointer signature (public key, then signature).
pub const SIGNATURE_ENTRY_LEN: usize = 96;

/// Number of bytes before the first signature entry of an encoded fat pointer.
pub const FAT_POINTER_PREFIX_LEN: usize = 46;

/// Concatenation of a sequence of byte strings, in order.
pub open spec fn concat_chunks(chunks: Seq<Seq<u8>>) -> Seq<u8>
    decreases chunks.len(),
{
    if chunks.len() == 0 {
        Seq::empty()
    } else {
        concat_chunks(chunks.drop_last()) + chunks.last()
    }
}

/// The `n` consecutive 96-byte chunks of `b` that start at offset `start`.
pub open spec fn signature_chunks(b: Seq<u8>, start: int, n: nat) -> Seq<Seq<u8>> {
    Seq::new(n, |k: int| b.subrange(start + 96 * k, start + 96 * k + 96))
}

/// Whether every chunk is exactly one signature entry long.
pub open spec fn all_entries_well_sized(chunks: Seq<Seq<u8>>) -> bool {
    forall|k: int| 0 <= k < chunks.len() ==> (#[trigger] chunks[k]).len() == 96
}

/// A fat pointer given by its vote bytes and the bytes of each signature entry
/// is well formed when the parts have their fixed lengths and the number of
/// signatures fits the 16-bit count field.
pub open spec fn fat_pointer_view_wf(v: (Seq<u8>, Seq<Seq<u8>>)) -> bool {
    &&& v.0.len() == 44
    &&& all_entries_well_sized(v.1)
    &&& v.1.len() < 0x1_0000
}

/// The encoding of a fat pointer: the shared vote bytes, the number of
/// signatures as a little-endian `u16` (truncated to 16 bits), then each
/// signature entry.
pub open spec fn encode_fat_pointer(v: (Seq<u8>, Seq<Seq<u8>>)) -> Seq<u8> {
    v.0 + spec_u16_to_le_bytes(v.1.len() as u16) + concat_chunks(v.1)
}

/// The signature count written in an encoded fat pointer.
pub open spec fn declared_signature_count(b: Seq<u8>) -> nat {
    spec_u16_from_le_bytes(b.subrange(44, 46)) as nat
}

/// Whether `b` is long enough for its prefix and for the signatures it declares.
pub open spec fn fat_pointer_bytes_fit(b: Seq<u8>) -> bool {
    b.len() >= 46 && 46 + declared_signature_count(b) * 96 <= b.len()
}

/// What `FatPointerToBftBlock::try_from_bytes` reads from a whole buffer:
/// `None` when the buffer is shorter than its prefix or than the signatures it
/// declares; otherwise the vote bytes and every complete 96-byte chunk after the
/// prefix.
pub open spec fn decode_fat_pointer(b: Seq<u8>) -> Option<(Seq<u8>, Seq<Seq<u8>>)> {
    if fat_pointer_bytes_fit(b) {
        Some((b.subrange(0, 44), signature_chunks(b, 46, ((b.len() - 46) / 96) as nat)))
    } else {
        None
    }
}

/// What the stream decoder reads from the front of `b`: exactly the declared
/// number of signatures, and how many bytes that took; `None` when `b` ends early.
pub open spec fn parse_fat_pointer(b: Seq<u8>) -> Option<((Seq<u8>, Seq<Seq<u8>>), nat)> {
    if fat_pointer_bytes_fit(b) {
        let n = declared_signature_count(b);
        Some(((b.subrange(0, 44), signature_chunks(b, 46, n)), 46 + 96 * n))
    } else {
        None
    }
}

/// The length of a concatenation of signature entries, and where each entry lies in it.
pub proof fn lemma_concat_chunks(chunks: Seq<Seq<u8>>)
    requires
        all_entries_well_sized(chunks),
    ensures
        concat_chunks(chunks).len() == 96 * chunks.len(),
        forall|k: int|
            0 <= k < chunks.len() ==> #[trigger] concat_chunks(chunks).subrange(96 * k, 96 * k + 96)
                == chunks[k],
    decreases chunks.len(),
{
    if chunks.len() > 0 {
        let init = chunks.drop_last();
        assert forall|k: int| 0 <= k < init.len() implies (#[trigger] init[k]).len() == 96 by {
            assert(init[k] == chunks[k]);
        }
        lemma_concat_chunks(init);
        let c = concat_chunks(chunks);
        assert(c == concat_chunks(init) + chunks.last());
        assert(chunks.last() == chunks[chunks.len() - 1]);
        assert forall|k: int| 0 <= k < chunks.len() implies #[trigger] c.subrange(96 * k, 96 * k + 96)
            == chunks[k] by {
            if k < init.len() {
                assert(c.subrange(96 * k, 96 * k + 96) =~= concat_chunks(init).subrange(
                    96 * k,
                    96 * k + 96,
                ));
                assert(init[k] == chunks[k]);
            } else {
                assert(c.subrange(96 * k, 96 * k + 96) =~= chunks.last());
            }
        }
    }
}

/// Splitting a concatenation of signature entries back into 96-byte chunks
/// gives the entries again.
pub proof fn lemma_chunks_of_concat(chunks: Seq<Seq<u8>>, prefix: Seq<u8>, rest: Seq<u8>)
    requires
        all_entries_well_sized(chunks),
    ensures
        signature_chunks(prefix + concat_chunks(chunks) + rest, prefix.len() as int, chunks.len())
            == chunks,
{
    lemma_concat_chunks(chunks);
    let b = prefix + concat_chunks(chunks) + rest;
    let s = signature_chunks(b, prefix.len() as int, chunks.len());
    assert forall|k: int| 0 <= k < chunks.len() implies s[k] == chunks[k] by {
        let p = prefix.len() as int;
        assert(s[k] == b.subrange(p + 96 * k, p + 96 * k + 96));
        assert(b.subrange(p + 96 * k, p + 96 * k + 96) =~= concat_chunks(chunks).subrange(
            96 * k,
            96 * k + 96,
        ));
    }
    assert(s =~= chunks);
}

/// Law: a fat pointer is encoded as its 44 vote bytes, the number of
/// signatures (`u16`, little-endian) at 44, then each 96-byte signature
/// entry in order from 46.
pub proof fn law_fat_pointer_encoding_layout(v: (Seq<u8>, Seq<Seq<u8>>))
    requires
        fat_pointer_view_wf(v),
    ensures
        encode_fat_pointer(v).len() == 46 + 96 * v.1.len(),
        encode_fat_pointer(v).subrange(0, 44) == v.0,
        encode_fat_pointer(v).subrange(44, 46) == spec_u16_to_le_bytes(v.1.len() as u16),
        spec_u16_from_le_bytes(encode_fat_pointer(v).subrange(44, 46)) == v.1.len(),
        forall|k: int|
            0 <= k < v.1.len() ==> #[trigger] encode_fat_pointer(v).subrange(
                46 + 96 * k,
                46 + 96 * k + 96,
            ) == v.1[k],
{
    lemma_auto_spec_u16_to_from_le_bytes();
    lemma_concat_chunks(v.1);
    let e = encode_fat_pointer(v);
    let c = concat_chunks(v.1);
    assert(e =~= v.0 + spec_u16_to_le_bytes(v.1.len() as u16) + c);
    assert(e.subrange(0, 44) =~= v.0);
    assert(e.subrange(44, 46) =~= spec_u16_to_le_bytes(v.1.len() as u16));
    assert((v.1.len() as u16) as nat == v.1.len());
    assert forall|k: int| 0 <= k < v.1.len() implies #[trigger] e.subrange(46 + 96 * k, 46 + 96 * k + 96)
        == v.1[k] by {
        assert(e.subrange(46 + 96 * k, 46 + 96 * k + 96) =~= c.subrange(96 * k, 96 * k + 96));
    }
}

/// A signature inside a fat pointer to a BFT block.
#[derive(Clone, Copy, Debug, PartialEq, Eq, PartialOrd, Ord)]
pub struct FatPointerSignature {
    /// The public key associated with this signature.
    pub public_key: [u8; 32],
    /// The actual ed25519 signature itself.
    pub vote_signature: [u8; 64],
}

impl View for FatPointerSignature {
    type V = Seq<u8>;

    /// The 96 encoded bytes: the public key, then the signature.
    open spec fn view(&self) -> Seq<u8> {
        self.public_key@ + self.vote_signature@
    }
}

impl FatPointerSignature {
    /// Convert the fat pointer signature to a fixed size byte array.
    pub fn to_bytes(&self) -> (res: [u8; 96])
        ensures
            res@ == self@,
    {
        let mut buf = [0u8; 96];
        let mut i: usize = 0;
        while i < 32
            invariant
                i <= 32,
                buf@.len() == 96,
                forall|j: int| 0 <= j < i ==> buf@[j] == self.public_key@[j],
            decreases 32 - i,
        {
            buf[i] = self.public_key[i];
            i = i + 1;
        }
        while i < 96
            invariant
                32 <= i <= 96,
                buf@.len() == 96,
                forall|j: int| 0 <= j < 32 ==> buf@[j] == self.public_key@[j],
                forall|j: int| 32 <= j < i ==> buf@[j] == self.vote_signature@[j - 32],
            decreases 96 - i,
        {
            buf[i] = self.vote_signature[i - 32];
            i = i + 1;
        }
        assert(buf@ =~= self@);
        buf
    }

    /// Convert a fixed size array of bytes into a fat pointer signature.
    pub fn from_bytes(bytes: &[u8; 96]) -> (res: FatPointerSignature)
        ensures
            res@ == bytes@,
    {
        let mut public_key = [0u8; 32];
        let mut vote_signature = [0u8; 64];
        copy_into_array(&mut public_key, bytes.as_slice(), 0);
        copy_into_array(&mut vote_signature, bytes.as_slice(), 32);
        let res = FatPointerSignature { public_key, vote_signature };
        assert(res@ =~= bytes@);
        res
    }
}

/// A bundle of signed votes for a block.
#[derive(Clone, Debug, PartialEq, Eq, PartialOrd, Ord)]
pub struct FatPointerToBftBlock {
    /// The fixed size portion of the fat pointer.
    pub vote_for_block_without_finalizer_public_key: [u8; 44],
    /// The array of signatures in the fat pointer.
    pub signatures: Vec<FatPointerSignature>,
}

impl View for FatPointerToBftBlock {
    type V = (Seq<u8>, Seq<Seq<u8>>);

    /// The vote bytes and the encoded bytes of each signature, in order.
    open spec fn view(&self) -> (Seq<u8>, Seq<Seq<u8>>) {
        (
            self.vote_for_block_without_finalizer_public_key@,
            self.signatures@.map_values(|s: FatPointerSignature| s@),
        )
    }
}

/// Appends the encoding of a list of signatures to `out`.
pub fn append_signatures(out: &mut Vec<u8>, signatures: &Vec<FatPointerSignature>)
    ensures
        final(out)@ == old(out)@ + concat_chunks(
            signatures@.map_values(|s: FatPointerSignature| s@),
        ),
{
    let ghost start = out@;
    let ghost views = signatures@.map_values(|s: FatPointerSignature| s@);
    let mut i: usize = 0;
    while i < signatures.len()
        invariant
            i <= signatures@.len(),
            views == signatures@.map_values(|s: FatPointerSignature| s@),
            out@ == start + concat_chunks(views.subrange(0, i as int)),
        decreases signatures@.len() - i,
    {
        let entry = signatures[i].to_bytes();
        append_bytes(out, entry.as_slice());
        i = i + 1;
        assert(views.subrange(0, i as int).drop_last() =~= views.subrange(0, i - 1));
    }
    assert(views.subrange(0, signatures@.len() as int) =~= views);
}

impl FatPointerToBftBlock {
    /// The well-formedness of the view: fixed part lengths and a count that fits 16 bits.
    pub open spec fn wf(&self) -> bool {
        self.signatures@.len() < 0x1_0000
    }

    /// Shorthand for an all null bytes and zero signature count fat pointer.
    pub fn null() -> (res: FatPointerToBftBlock)
        ensures
            res@.0 == Seq::new(44, |i: int| 0u8),
            res@.1 == Seq::<Seq<u8>>::empty(),
    {
        let res = FatPointerToBftBlock {
            vote_for_block_without_finalizer_public_key: [0u8; 44],
            signatures: Vec::new(),
        };
        assert(res@.0 =~= Seq::new(44, |i: int| 0u8));
        assert(res@.1 =~= Seq::<Seq<u8>>::empty());
        res
    }

    /// Serialize this fat pointer into a dynamically sized byte array.
    pub fn to_bytes(&self) -> (res: Vec<u8>)
        ensures
            res@ == encode_fat_pointer(self@),
    {
        let mut buf = Vec::new();
        append_bytes(&mut buf, self.vote_for_block_without_finalizer_public_key.as_slice());
        let count = self.signatures.len() as u16;
        let count_bytes = u16_to_le_bytes(count);
        append_bytes(&mut buf, count_bytes.as_slice());
        append_signatures(&mut buf, &self.signatures);
        proof {
            assert(self@.1.len() == self.signatures@.len());
        }
        buf
    }

    /// Try to deserialize a fat pointer from the provided dynamic array of bytes.
    pub fn try_from_bytes(bytes: &Vec<u8>) -> (res: Option<FatPointerToBftBlock>)
        ensures
            match res {
                None => decode_fat_pointer(bytes@) is None,
                Some(fp) => decode_fat_pointer(bytes@) == Some(fp@),
            },
    {
        let b = bytes.as_slice();
        if b.len() < 46 {
            return None;
        }
        let mut vote = [0u8; 44];
        copy_into_array(&mut vote, b, 0);
        let count_field = slice_subrange(b, 44, 46);
        let len = u16_from_le_bytes(count_field) as usize;
        if 46 + len * 96 > b.len() {
            return None;
        }
        let count = (b.len() - 46) / 96;
        let ghost chunks = signature_chunks(bytes@, 46, count as nat);
        let mut signatures: Vec<FatPointerSignature> = Vec::new();
        let mut k: usize = 0;
        while k < count
            invariant
                k <= count,
                count == (b@.len() - 46) / 96,
                b@.len() == b.len(),
                b@ == bytes@,
                chunks == signature_chunks(bytes@, 46, count as nat),
                signatures@.len() == k,
                forall|j: int| 0 <= j < k ==> (#[trigger] signatures@[j])@ == chunks[j],
            decreases count - k,
        {
            assert(46 + 96 * k + 96 <= b@.len()) by (nonlinear_arith)
                requires
                    k < count,
                    count == (b@.len() - 46) / 96,
                    b@.len() >= 46;
            let mut chunk = [0u8; 96];
            copy_into_array(&mut chunk, b, 46 + 96 * k);
            signatures.push(FatPointerSignature::from_bytes(&chunk));
            k = k + 1;
        }
        let res = FatPointerToBftBlock {
            vote_for_block_without_finalizer_public_key: vote,
            signatures,
        };
        assert(res@.1 =~= chunks);
        Some(res)
    }

    /// Get the blake3 hash bytes of the BFT block that this fat pointer points to.
    pub fn points_at_block_hash(&self) -> (res: [u8; 32])
        ensures
            res@ == self@.0.subrange(0, 32),
    {
        let mut hash = [0u8; 32];
        copy_into_array(&mut hash, self.vote_for_block_without_finalizer_public_key.as_slice(), 0);
        hash
    }
}


/// Concatenating the consecutive 96-byte chunks of a region gives the region back.
pub proof fn lemma_concat_signature_chunks(b: Seq<u8>, start: int, n: nat)
    requires
        0 <= start,
        start + 96 * n <= b.len(),
    ensures
        concat_chunks(signature_chunks(b, start, n)) == b.subrange(start, start + 96 * n),
    decreases n,
{
    if n > 0 {
        let m = (n - 1) as nat;
        lemma_concat_signature_chunks(b, start, m);
        let c = signature_chunks(b, start, n);
        assert(c.drop_last() =~= signature_chunks(b, start, m));
        assert(c.last() == b.subrange(start + 96 * m, start + 96 * m + 96));
        assert(b.subrange(start, start + 96 * m) + b.subrange(start + 96 * m, start + 96 * m + 96)
            =~= b.subrange(start, start + 96 * n));
    } else {
        assert(b.subrange(start, start) =~= Seq::<u8>::empty());
    }
}

/// Law: decoding the encoding of a well-formed fat pointer gives it back, both
/// from a whole buffer and from the front of a longer stream.
pub proof fn law_fat_pointer_encoding_roundtrip(v: (Seq<u8>, Seq<Seq<u8>>), rest: Seq<u8>)
    requires
        fat_pointer_view_wf(v),
    ensures
        decode_fat_pointer(encode_fat_pointer(v)) == Some(v),
        encode_fat_pointer(v).len() == 46 + 96 * v.1.len(),
        parse_fat_pointer(encode_fat_pointer(v) + rest) == Some((v, encode_fat_pointer(v).len())),
{
    lemma_auto_spec_u16_to_from_le_bytes();
    lemma_concat_chunks(v.1);
    let n = v.1.len();
    let count = spec_u16_to_le_bytes(n as u16);
    let prefix = v.0 + count;
    let b = encode_fat_pointer(v);
    assert(b == prefix + concat_chunks(v.1));
    assert(b.subrange(44, 46) =~= count);
    assert(b.subrange(0, 44) =~= v.0);
    assert((n as u16) as nat == n);
    assert(declared_signature_count(b) == n);
    assert((b.len() - 46) / 96 == n) by (nonlinear_arith)
        requires
            b.len() == 46 + 96 * n;
    lemma_chunks_of_concat(v.1, prefix, Seq::empty());
    assert(prefix + concat_chunks(v.1) + Seq::<u8>::empty() =~= b);
    let b2 = b + rest;
    assert(b2.subrange(44, 46) =~= count);
    assert(b2.subrange(0, 44) =~= v.0);
    assert(declared_signature_count(b2) == n);
    lemma_chunks_of_concat(v.1, prefix, rest);
    assert(prefix + concat_chunks(v.1) + rest =~= b2);
}

/// Law: a buffer that holds exactly the signatures it declares is the encoding
/// of what it decodes to.
pub proof fn law_fat_pointer_exact_bytes_reencode(b: Seq<u8>)
    requires
        decode_fat_pointer(b) is Some,
        b.len() == 46 + 96 * declared_signature_count(b),
    ensures
        encode_fat_pointer(decode_fat_pointer(b)->0) == b,
{
    lemma_auto_spec_u16_to_from_le_bytes();
    let n = declared_signature_count(b);
    assert((b.len() - 46) / 96 == n) by (nonlinear_arith)
        requires
            b.len() == 46 + 96 * n;
    let v = decode_fat_pointer(b)->0;
    assert(v.1 == signature_chunks(b, 46, n));
    lemma_concat_signature_chunks(b, 46, n);
    let field = b.subrange(44, 46);
    assert(spec_u16_to_le_bytes(spec_u16_from_le_bytes(field)) == field);
    assert(v.1.len() == n);
    assert(b.subrange(0, 44) + field + b.subrange(46, 46 + 96 * n as int) =~= b);
}

impl FatPointerToBftBlock {
    /// Law: `try_from_bytes` of `to_bytes` gives back a fat pointer equal in
    /// view to the one encoded, whenever the signature count fits its 16-bit field.
    pub proof fn law_to_bytes_try_from_bytes(&self)
        requires
            self.wf(),
        ensures
            decode_fat_pointer(encode_fat_pointer(self@)) == Some(self@),
    {
        assert(fat_pointer_view_wf(self@));
        law_fat_pointer_encoding_roundtrip(self@, Seq::empty());
    }
}

impl FatPointerToBftBlock {
    /// Writes this fat pointer to a byte stream: the same bytes as `to_bytes`.
    pub fn zcash_serialize(&self, writer: &mut Vec<u8>)
        ensures
            final(writer)@ == old(writer)@ + encode_fat_pointer(self@),
    {
        append_bytes(writer, self.vote_for_block_without_finalizer_public_key.as_slice());
        write_u16_le(writer, self.signatures.len() as u16);
        append_signatures(writer, &self.signatures);
    }

    /// Reads a fat pointer from `bytes` starting at `pos`: the vote bytes, the
    /// signature count, then exactly that many signatures. Returns the fat
    /// pointer and the position just after it.
    pub fn zcash_deserialize(bytes: &[u8], pos: usize) -> (res: Result<
        (FatPointerToBftBlock, usize),
        SerializationError,
    >)
        requires
            pos <= bytes@.len(),
        ensures
            match parse_fat_pointer(bytes@.skip(pos as int)) {
                None => res == Err::<(FatPointerToBftBlock, usize), _>(
                    SerializationError::UnexpectedEnd,
                ),
                Some((v, n)) => res matches Ok((fp, end)) && fp@ == v && end == pos + n,
            },
            res matches Ok((_, end)) ==> pos <= end <= bytes@.len(),
    {
        let ghost s = bytes@.skip(pos as int);
        if bytes.len() - pos < 44 {
            return Err(SerializationError::UnexpectedEnd);
        }
        let mut vote = [0u8; 44];
        copy_into_array(&mut vote, bytes, pos);
        let len = match read_u16_le(bytes, pos + 44) {
            Some(len) => len as usize,
            None => {
                return Err(SerializationError::UnexpectedEnd);
            },
        };
        assert(bytes@.subrange(pos + 44, pos + 46) =~= s.subrange(44, 46));
        if bytes.len() - pos - 46 < len * 96 {
            return Err(SerializationError::UnexpectedEnd);
        }
        let ghost chunks = signature_chunks(s, 46, len as nat);
        let mut signatures: Vec<FatPointerSignature> = Vec::new();
        let mut k: usize = 0;
        while k < len
            invariant
                k <= len,
                pos + 46 + 96 * len <= bytes@.len(),
                bytes@.len() == bytes.len(),
                s == bytes@.skip(pos as int),
                chunks == signature_chunks(s, 46, len as nat),
                signatures@.len() == k,
                forall|j: int| 0 <= j < k ==> (#[trigger] signatures@[j])@ == chunks[j],
            decreases len - k,
        {
            assert(pos + 46 + 96 * k + 96 <= bytes@.len()) by (nonlinear_arith)
                requires
                    k < len,
                    pos + 46 + 96 * len <= bytes@.len();
            let mut chunk = [0u8; 96];
            copy_into_array(&mut chunk, bytes, pos + 46 + 96 * k);
            assert(bytes@.subrange(pos + 46 + 96 * k, pos + 46 + 96 * k + 96) =~= s.subrange(
                46 + 96 * k,
                46 + 96 * k + 96,
            ));
            signatures.push(FatPointerSignature::from_bytes(&chunk));
            k = k + 1;
        }
        let res = FatPointerToBftBlock {
            vote_for_block_without_finalizer_public_key: vote,
            signatures,
        };
        assert(res@.1 =~= chunks);
        assert(res@.0 =~= s.subrange(0, 44));
        Ok((res, pos + 46 + 96 * len))
    }
}

/// The text of one signature entry: `{pk:<hex> sig:<hex>}`.
pub open spec fn display_signature_entry(s: Seq<u8>) -> Seq<char> {
    "{pk:"@ + hex_lower(s.subrange(0, 32)) + " sig:"@ + hex_lower(s.subrange(32, 96)) + "}"@
}

/// The texts of the signature entries, separated by single spaces.
pub open spec fn display_signature_list(sigs: Seq<Seq<u8>>) -> Seq<char>
    decreases sigs.len(),
{
    if sigs.len() == 0 {
        Seq::empty()
    } else if sigs.len() == 1 {
        display_signature_entry(sigs[0])
    } else {
        display_signature_list(sigs.drop_last()) + " "@ + display_signature_entry(sigs.last())
    }
}

/// The display text of a fat pointer: the pointed-at hash, the other vote
/// data, and the signatures, all in lower-case hexadecimal.
pub open spec fn display_fat_pointer(v: (Seq<u8>, Seq<Seq<u8>>)) -> Seq<char> {
    "{hash:"@ + hex_lower(v.0.subrange(0, 32)) + " ovd:"@ + hex_lower(v.0.subrange(32, 44))
        + " signatures:["@ + display_signature_list(v.1) + "]}"@
}

/// Appends the display text of a list of fat pointer signatures.
pub fn append_signature_list_text(text: &mut String, signatures: &Vec<FatPointerSignature>)
    ensures
        final(text)@ == old(text)@ + display_signature_list(
            signatures@.map_values(|s: FatPointerSignature| s@),
        ),
{
    let ghost start = text@;
    let ghost views = signatures@.map_values(|s: FatPointerSignature| s@);
    let mut i: usize = 0;
    while i < signatures.len()
        invariant
            i <= signatures@.len(),
            views == signatures@.map_values(|s: FatPointerSignature| s@),
            text@ == start + display_signature_list(views.subrange(0, i as int)),
        decreases signatures@.len() - i,
    {
        let sig = &signatures[i];
        if i > 0 {
            text.append(" ");
        }
        text.append("{pk:");
        append_hex(text, sig.public_key.as_slice());
        text.append(" sig:");
        append_hex(text, sig.vote_signature.as_slice());
        text.append("}");
        proof {
            let v = views[i as int];
            assert(v == sig@);
            assert(v.subrange(0, 32) =~= sig.public_key@);
            assert(v.subrange(32, 96) =~= sig.vote_signature@);
            let prev = views.subrange(0, i as int);
            let next = views.subrange(0, i + 1);
            assert(next.drop_last() =~= prev);
            assert(next.last() == v);
            if i == 0 {
                assert(next.len() == 1);
                assert(next[0] == v);
            }
        }
        i = i + 1;
    }
    assert(views.subrange(0, signatures@.len() as int) =~= views);
}

impl FatPointerToBftBlock {
    /// The display text of this fat pointer (see `display_fat_pointer`).
    pub fn to_display_string(&self) -> (res: String)
        ensures
            res@ == display_fat_pointer(self@),
    {
        let vote = self.vote_for_block_without_finalizer_public_key.as_slice();
        let mut text = String::new();
        text.append("{hash:");
        append_hex(&mut text, slice_subrange(vote, 0, 32));
        text.append(" ovd:");
        append_hex(&mut text, slice_subrange(vote, 32, 44));
        text.append(" signatures:[");
        append_signature_list_text(&mut text, &self.signatures);
        text.append("]}");
        text
    }
}
impl ZcashSerialize for FatPointerToBftBlock {
    open spec fn serializable(&self) -> bool {
        true
    }

    open spec fn zcash_bytes(&self) -> Seq<u8> {
        encode_fat_pointer(self@)
    }

    fn zcash_serialize_into(&self, writer: &mut Vec<u8>) {
        self.zcash_serialize(writer);
    }
}

} // verus!
