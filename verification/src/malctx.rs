//! The BFT consensus context: heights, rounds, values, votes and their byte
//! layout, validators, proposer selection and the Ed25519 signing provider.

use vstd::prelude::*;
use vstd::bytes::*;
use vstd::slice::slice_subrange;
use crate::bytes::{append_bytes, bytes32_eq, copy_into_array};
use crate::chain::{encode_bft_block, BftBlock, Blake3Hash};
use crate::hex_text::{append_hex_upper, hex_lower, hex_upper};
use crate::crypto::{
    blake3_digest, blake3_of, ed25519_sign, ed25519_signature_of, ed25519_verifies, ed25519_verify,
};

verus! {

/// A blockchain height.
#[derive(Clone, Copy, Debug, PartialEq, Eq, PartialOrd, Ord, Hash)]
pub struct MalHeight(u64);

impl View for MalHeight {
    type V = u64;

    closed spec fn view(&self) -> u64 {
        self.0
    }
}

impl MalHeight {
    /// The height with the given number.
    pub fn new(height: u64) -> (res: MalHeight)
        ensures
            res@ == height,
    {
        MalHeight(height)
    }

    /// The height's number.
    pub fn as_u64(&self) -> (res: u64)
        ensures
            res == self@,
    {
        self.0
    }

    /// The next height.
    pub fn increment(&self) -> (res: MalHeight)
        requires
            self@ < u64::MAX,
        ensures
            res@ == self@ + 1,
    {
        MalHeight(self.0 + 1)
    }

    /// The previous height, or `None` at height 0.
    pub fn decrement(&self) -> (res: Option<MalHeight>)
        ensures
            self@ == 0 ==> res is None,
            self@ > 0 ==> (res matches Some(h) && h@ == self@ - 1),
    {
        if self.0 == 0 {
            None
        } else {
            Some(MalHeight(self.0 - 1))
        }
    }

    /// The height `n` above this one.
    pub fn increment_by(&self, n: u64) -> (res: MalHeight)
        requires
            self@ + n <= u64::MAX,
        ensures
            res@ == self@ + n,
    {
        MalHeight(self.0 + n)
    }

    /// The height `n` below this one, stopping at 0; always `Some`.
    pub fn decrement_by(&self, n: u64) -> (res: Option<MalHeight>)
        ensures
            res matches Some(h) && h@ == (if self@ >= n { self@ - n } else { 0 }),
    {
        Some(MalHeight(self.0.saturating_sub(n)))
    }

    /// Height 0.
    pub fn zero() -> (res: MalHeight)
        ensures
            res@ == 0,
    {
        MalHeight(0)
    }

    /// The first height consensus runs at: 1.
    pub fn initial() -> (res: MalHeight)
        ensures
            res@ == 1,
    {
        MalHeight(1)
    }
}

impl Default for MalHeight {
    /// Height 0.
    fn default() -> (res: MalHeight)
        ensures
            res@ == 0,
    {
        MalHeight(0)
    }
}

/// A consensus round: `Nil`, or a round number.
#[derive(Clone, Copy, Debug, PartialEq, Eq, PartialOrd, Ord)]
pub enum MalRound {
    Nil,
    Number(u32),
}

impl MalRound {
    /// The round with the given number.
    pub fn new(round: u32) -> (res: MalRound)
        ensures
            res == MalRound::Number(round),
    {
        MalRound::Number(round)
    }

    /// The round number, if any.
    pub fn as_u32(&self) -> (res: Option<u32>)
        ensures
            res == match *self {
                MalRound::Nil => None,
                MalRound::Number(r) => Some(r),
            },
    {
        match *self {
            MalRound::Nil => None,
            MalRound::Number(r) => Some(r),
        }
    }

    /// The round number, with `Nil` as -1.
    pub fn as_i64(&self) -> (res: i64)
        ensures
            res == self.spec_as_i64(),
    {
        match *self {
            MalRound::Nil => -1,
            MalRound::Number(r) => r as i64,
        }
    }

    /// The round number, with `Nil` as -1.
    pub open spec fn spec_as_i64(&self) -> i64 {
        match *self {
            MalRound::Nil => -1i64,
            MalRound::Number(r) => r as i64,
        }
    }
}

/// The kind of a vote.
#[derive(Clone, Copy, Debug, PartialEq, Eq, PartialOrd, Ord)]
pub enum VoteType {
    Prevote,
    Precommit,
}

/// A vote for nothing, or for a value.
#[derive(Clone, Copy, Debug, PartialEq, Eq, PartialOrd, Ord)]
pub enum NilOrVal<T> {
    Nil,
    Val(T),
}

/// A finalizer's address: its Ed25519 public key bytes.
#[derive(Clone, Copy, Debug, PartialEq, Eq, PartialOrd, Ord)]
pub struct MalPublicKey2(pub [u8; 32]);

impl MalPublicKey2 {
    /// The key as upper-case hexadecimal text.
    pub fn to_display_string(&self) -> (res: String)
        ensures
            res@ == hex_upper(self.0@),
    {
        let mut text = String::new();
        append_hex_upper(&mut text, self.0.as_slice());
        text
    }
}

/// The identity of a value: the BLAKE3 hash of its bytes.
#[derive(Clone, Copy, Debug, PartialEq, Eq, PartialOrd, Ord)]
pub struct MalValueId(pub Blake3Hash);

impl MalValueId {
    /// The identity as the lower-case hexadecimal text of its hash.
    pub fn to_display_string(&self) -> (res: String)
        ensures
            res@ == hex_lower(self.0.0@),
    {
        self.0.to_display_string()
    }
}

/// The value to decide on: an encoded BFT block.
#[derive(Clone, Debug, PartialEq, Eq, PartialOrd, Ord)]
pub struct MalValue {
    pub value_bytes: Vec<u8>,
}

impl MalValue {
    /// The value holding the encoding of `value`.
    pub fn new_block(value: BftBlock) -> (res: MalValue)
        requires
            value.headers@.len() <= u32::MAX,
        ensures
            res.value_bytes@ == encode_bft_block(value@),
    {
        MalValue { value_bytes: value.zcash_serialize_to_vec() }
    }

    /// The value's identity: the BLAKE3 hash of its bytes.
    pub fn id(&self) -> (res: MalValueId)
        ensures
            res.0.0@ == blake3_of(self.value_bytes@),
    {
        MalValueId(Blake3Hash(blake3_digest(self.value_bytes.as_slice())))
    }
}

/// A vote for a value in a round.
#[derive(Clone, Copy, Debug, PartialEq, Eq, PartialOrd, Ord)]
pub struct MalVote {
    pub validator_address: MalPublicKey2,
    pub value: NilOrVal<MalValueId>,
    pub height: MalHeight,
    pub typ: VoteType,
    pub round: MalRound,
}

/// The 32 zero bytes that stand for a `Nil` vote value.
pub open spec fn zero_hash() -> Seq<u8> {
    Seq::new(32, |i: int| 0u8)
}

/// The last 32-bit word of an encoded vote: the low 31 bits of the round
/// number, with the top bit set for a precommit.
pub open spec fn vote_round_word(round: u32, typ: VoteType) -> u32 {
    if typ == VoteType::Precommit {
        (round & 0x7fff_ffff) | 0x8000_0000
    } else {
        round & 0x7fff_ffff
    }
}

/// The 76-byte layout of a vote: the finalizer's public key, the value hash
/// (zeros for `Nil`), the height (`u64`, little-endian) and the round word
/// (`u32`, little-endian). The round must not be `Nil`.
pub open spec fn encode_vote(v: MalVote) -> Seq<u8> {
    v.validator_address.0@ + match v.value {
        NilOrVal::Nil => zero_hash(),
        NilOrVal::Val(id) => id.0.0@,
    } + spec_u64_to_le_bytes(v.height@) + spec_u32_to_le_bytes(
        vote_round_word(
            match v.round {
                MalRound::Nil => 0,
                MalRound::Number(r) => r,
            },
            v.typ,
        ),
    )
}

/// The fields of a vote decoded from 76 bytes, as views: address bytes, value
/// hash bytes (`None` when all zero), height, type and round.
pub open spec fn decode_vote(b: Seq<u8>) -> (Seq<u8>, Option<Seq<u8>>, u64, VoteType, MalRound) {
    let word = spec_u32_from_le_bytes(b.subrange(72, 76));
    (
        b.subrange(0, 32),
        if b.subrange(32, 64) == zero_hash() {
            None
        } else {
            Some(b.subrange(32, 64))
        },
        spec_u64_from_le_bytes(b.subrange(64, 72)),
        if word & 0x8000_0000 != 0 {
            VoteType::Precommit
        } else {
            VoteType::Prevote
        },
        MalRound::Number(word & 0x7fff_ffff),
    )
}

impl View for MalVote {
    type V = (Seq<u8>, Option<Seq<u8>>, u64, VoteType, MalRound);

    /// Address bytes, value hash bytes (`None` for `Nil`), height, type, round.
    open spec fn view(&self) -> (Seq<u8>, Option<Seq<u8>>, u64, VoteType, MalRound) {
        (
            self.validator_address.0@,
            match self.value {
                NilOrVal::Nil => None,
                NilOrVal::Val(id) => Some(id.0.0@),
            },
            self.height@,
            self.typ,
            self.round,
        )
    }
}

/// Facts about the round word's two parts.
pub proof fn lemma_round_word_bits()
    ensures
        forall|r: u32|
            #![trigger (r & 0x7fff_ffff)]
            ((r & 0x7fff_ffff) | 0x8000_0000) & 0x8000_0000 != 0 && (((r & 0x7fff_ffff)
                | 0x8000_0000) & 0x7fff_ffff) == (r & 0x7fff_ffff) && (r & 0x7fff_ffff)
                & 0x8000_0000 == 0 && ((r & 0x7fff_ffff) & 0x7fff_ffff) == (r & 0x7fff_ffff)
                && (r < 0x8000_0000 ==> (r & 0x7fff_ffff) == r),
        forall|m: u32|
            #![trigger (m & 0x8000_0000)]
            (m & 0x8000_0000 != 0 ==> ((m & 0x7fff_ffff) | 0x8000_0000) == m) && (m & 0x8000_0000
                == 0 ==> (m & 0x7fff_ffff) == m),
{
    assert forall|r: u32|
        #![trigger (r & 0x7fff_ffff)]
        ((r & 0x7fff_ffff) | 0x8000_0000) & 0x8000_0000 != 0 && (((r & 0x7fff_ffff) | 0x8000_0000)
            & 0x7fff_ffff) == (r & 0x7fff_ffff) && (r & 0x7fff_ffff) & 0x8000_0000 == 0 && ((r
            & 0x7fff_ffff) & 0x7fff_ffff) == (r & 0x7fff_ffff) && (r < 0x8000_0000 ==> (r
            & 0x7fff_ffff) == r) by {
        assert(((r & 0x7fff_ffff) | 0x8000_0000) & 0x8000_0000 != 0 && (((r & 0x7fff_ffff)
            | 0x8000_0000) & 0x7fff_ffff) == (r & 0x7fff_ffff) && (r & 0x7fff_ffff) & 0x8000_0000
            == 0 && ((r & 0x7fff_ffff) & 0x7fff_ffff) == (r & 0x7fff_ffff) && (r < 0x8000_0000 ==> (r
            & 0x7fff_ffff) == r)) by (bit_vector);
    }
    assert forall|m: u32|
        #![trigger (m & 0x8000_0000)]
        (m & 0x8000_0000 != 0 ==> ((m & 0x7fff_ffff) | 0x8000_0000) == m) && (m & 0x8000_0000 == 0
            ==> (m & 0x7fff_ffff) == m) by {
        assert((m & 0x8000_0000 != 0 ==> ((m & 0x7fff_ffff) | 0x8000_0000) == m) && (m & 0x8000_0000
            == 0 ==> (m & 0x7fff_ffff) == m)) by (bit_vector);
    }
}

/// Whether 32 bytes at `start` of `b` are all zero.
fn all_zero_32(b: &[u8], start: usize) -> (res: bool)
    requires
        start + 32 <= b@.len(),
    ensures
        res == (b@.subrange(start as int, start + 32) == zero_hash()),
{
    let mut i: usize = 0;
    while i < 32
        invariant
            i <= 32,
            start + 32 <= b.len(),
            forall|j: int| 0 <= j < i ==> #[trigger] b@.subrange(start as int, start + 32)[j] == 0,
        decreases 32 - i,
    {
        if b[start + i] != 0 {
            assert(b@.subrange(start as int, start + 32)[i as int] != zero_hash()[i as int]);
            return false;
        }
        i = i + 1;
    }
    assert(b@.subrange(start as int, start + 32) =~= zero_hash());
    true
}

impl MalVote {
    /// The height voted at.
    pub fn height(&self) -> (res: MalHeight)
        ensures
            res == self.height,
    {
        self.height
    }

    /// The round voted in.
    pub fn round(&self) -> (res: MalRound)
        ensures
            res == self.round,
    {
        self.round
    }

    /// What the vote is for.
    pub fn value(&self) -> (res: &NilOrVal<MalValueId>)
        ensures
            *res == self.value,
    {
        &self.value
    }

    /// What the vote is for, taking the vote.
    pub fn take_value(self) -> (res: NilOrVal<MalValueId>)
        ensures
            res == self.value,
    {
        self.value
    }

    /// The kind of the vote.
    pub fn vote_type(&self) -> (res: VoteType)
        ensures
            res == self.typ,
    {
        self.typ
    }

    /// The voter's address.
    pub fn validator_address(&self) -> (res: &MalPublicKey2)
        ensures
            *res == self.validator_address,
    {
        &self.validator_address
    }

    /// Votes carry no extension: extensions are dropped, so the vote is
    /// returned as it was.
    pub fn extend(self, extension: Vec<u8>) -> (res: MalVote)
        ensures
            res == self,
    {
        self
    }
    /// The vote's 76-byte layout (see `encode_vote`).
    pub fn to_bytes(&self) -> (res: [u8; 76])
        requires
            self.round is Number,
        ensures
            res@ == encode_vote(*self),
    {
        let mut buf: Vec<u8> = Vec::new();
        append_bytes(&mut buf, self.validator_address.0.as_slice());
        match self.value {
            NilOrVal::Val(value) => append_bytes(&mut buf, value.0.0.as_slice()),
            NilOrVal::Nil => {
                let zeros = [0u8; 32];
                assert(zeros@ =~= zero_hash());
                append_bytes(&mut buf, zeros.as_slice());
            },
        }
        let height_bytes = u64_to_le_bytes(self.height.0);
        append_bytes(&mut buf, height_bytes.as_slice());
        let round = match self.round {
            MalRound::Number(r) => r,
            MalRound::Nil => 0,
        };
        let mut merged_round_val: u32 = round & 0x7fff_ffff;
        if let VoteType::Precommit = self.typ {
            merged_round_val = merged_round_val | 0x8000_0000;
        }
        let word_bytes = u32_to_le_bytes(merged_round_val);
        append_bytes(&mut buf, word_bytes.as_slice());
        let mut out = [0u8; 76];
        copy_into_array(&mut out, buf.as_slice(), 0);
        assert(buf@ =~= encode_vote(*self));
        assert(out@ =~= encode_vote(*self));
        out
    }

    /// Reads a vote from its 76-byte layout (see `decode_vote`).
    pub fn from_bytes(bytes: &[u8; 76]) -> (res: MalVote)
        ensures
            res@ == decode_vote(bytes@),
    {
        let b = bytes.as_slice();
        let mut address = [0u8; 32];
        copy_into_array(&mut address, b, 0);
        let value = if all_zero_32(b, 32) {
            NilOrVal::Nil
        } else {
            let mut hash = [0u8; 32];
            copy_into_array(&mut hash, b, 32);
            NilOrVal::Val(MalValueId(Blake3Hash(hash)))
        };
        let height = MalHeight(u64_from_le_bytes(slice_subrange(b, 64, 72)));
        let merged_round_val = u32_from_le_bytes(slice_subrange(b, 72, 76));
        let typ = if merged_round_val & 0x8000_0000 != 0 {
            VoteType::Precommit
        } else {
            VoteType::Prevote
        };
        let round = MalRound::Number(merged_round_val & 0x7fff_ffff);
        MalVote { validator_address: MalPublicKey2(address), value, height, typ, round }
    }
}

/// Law: the 76-byte layout of a vote decodes back to the vote, when its round
/// number fits in 31 bits and its value is not the all-zero hash (which reads
/// back as `Nil`).
pub proof fn law_vote_encoding_roundtrip(v: MalVote)
    requires
        v.round matches MalRound::Number(r) && r < 0x8000_0000,
        v.value matches NilOrVal::Val(id) ==> id.0.0@ != zero_hash(),
    ensures
        decode_vote(encode_vote(v)) == v@,
{
    lemma_auto_spec_u64_to_from_le_bytes();
    lemma_auto_spec_u32_to_from_le_bytes();
    lemma_round_word_bits();
    let b = encode_vote(v);
    let r = match v.round {
        MalRound::Nil => 0u32,
        MalRound::Number(r) => r,
    };
    let value_bytes = match v.value {
        NilOrVal::Nil => zero_hash(),
        NilOrVal::Val(id) => id.0.0@,
    };
    assert(b.subrange(0, 32) =~= v.validator_address.0@);
    assert(b.subrange(32, 64) =~= value_bytes);
    assert(b.subrange(64, 72) =~= spec_u64_to_le_bytes(v.height@));
    assert(b.subrange(72, 76) =~= spec_u32_to_le_bytes(vote_round_word(r, v.typ)));
    let word = vote_round_word(r, v.typ);
    assert(word & 0x7fff_ffff == r) by {
        assert((r & 0x7fff_ffff) == r);
    }
}

/// Law: a vote takes 76 bytes: the finalizer's public key at 0, the value
/// hash at 32 (zeros for `Nil`), the height (`u64`, little-endian) at 64,
/// and at 72 a `u32` (little-endian) whose low 31 bits are the round and
/// whose top bit is set exactly for a precommit.
pub proof fn law_vote_layout(v: MalVote)
    requires
        v.round matches MalRound::Number(r) && r < 0x8000_0000,
    ensures
        ({
            let b = encode_vote(v);
            let w = spec_u32_from_le_bytes(b.subrange(72, 76));
            &&& b.len() == 76
            &&& b.subrange(0, 32) == v.validator_address.0@
            &&& b.subrange(32, 64) == match v.value {
                NilOrVal::Nil => zero_hash(),
                NilOrVal::Val(id) => id.0.0@,
            }
            &&& spec_u64_from_le_bytes(b.subrange(64, 72)) == v.height@
            &&& (w & 0x7fff_ffff) == v.round->Number_0
            &&& ((w & 0x8000_0000) != 0 <==> v.typ == VoteType::Precommit)
        }),
{
    lemma_auto_spec_u64_to_from_le_bytes();
    lemma_auto_spec_u32_to_from_le_bytes();
    lemma_round_word_bits();
    let b = encode_vote(v);
    let r = v.round->Number_0;
    let value_bytes = match v.value {
        NilOrVal::Nil => zero_hash(),
        NilOrVal::Val(id) => id.0.0@,
    };
    assert(b.subrange(0, 32) =~= v.validator_address.0@);
    assert(b.subrange(32, 64) =~= value_bytes);
    assert(b.subrange(64, 72) =~= spec_u64_to_le_bytes(v.height@));
    assert(b.subrange(72, 76) =~= spec_u32_to_le_bytes(vote_round_word(r, v.typ)));
    assert((r & 0x7fff_ffff) == r);
    if v.typ == VoteType::Precommit {
    } else {
        assert(v.typ == VoteType::Prevote);
    }
}

/// Law: any 76 bytes read as a vote are written back unchanged.
pub proof fn law_vote_bytes_reencode(b: Seq<u8>, v: MalVote)
    requires
        b.len() == 76,
        v@ == decode_vote(b),
    ensures
        encode_vote(v) == b,
{
    lemma_auto_spec_u64_to_from_le_bytes();
    lemma_auto_spec_u32_to_from_le_bytes();
    lemma_round_word_bits();
    let m = spec_u32_from_le_bytes(b.subrange(72, 76));
    let value_bytes = match v.value {
        NilOrVal::Nil => zero_hash(),
        NilOrVal::Val(id) => id.0.0@,
    };
    assert(value_bytes == b.subrange(32, 64));
    assert(vote_round_word(m & 0x7fff_ffff, v.typ) == m);
    assert(b.subrange(0, 32) + b.subrange(32, 64) + b.subrange(64, 72) + b.subrange(72, 76) =~= b);
}

/// A validator is a public key and voting power.
#[derive(Clone, Copy, Debug, PartialEq, Eq)]
pub struct MalValidator {
    pub address: MalPublicKey2,
    pub public_key: [u8; 32],
    pub voting_power: u64,
}

impl MalValidator {
    /// The validator with this key (which is also its address) and power.
    pub fn new(public_key: [u8; 32], voting_power: u64) -> (res: MalValidator)
        ensures
            res.address.0 == public_key,
            res.public_key == public_key,
            res.voting_power == voting_power,
    {
        MalValidator { address: MalPublicKey2(public_key), public_key, voting_power }
    }

    /// The validator's address.
    pub fn address(&self) -> (res: &MalPublicKey2)
        ensures
            *res == self.address,
    {
        &self.address
    }

    /// The validator's public key.
    pub fn public_key(&self) -> (res: &[u8; 32])
        ensures
            *res == self.public_key,
    {
        &self.public_key
    }

    /// The validator's voting power.
    pub fn voting_power(&self) -> (res: u64)
        ensures
            res == self.voting_power,
    {
        self.voting_power
    }
}

/// The sum of the voting powers of `vals`.
pub open spec fn total_power(vals: Seq<MalValidator>) -> int
    decreases vals.len(),
{
    if vals.len() == 0 {
        0
    } else {
        total_power(vals.drop_last()) + vals.last().voting_power
    }
}

/// The number that `b` stands for, first byte most significant: comparing
/// these numbers of equal-length byte strings compares the bytes
/// lexicographically.
pub open spec fn be_value(b: Seq<u8>) -> nat
    decreases b.len(),
{
    if b.len() == 0 {
        0
    } else {
        be_value(b.drop_last()) * 256 + b.last() as nat
    }
}

/// The key a validator set is ordered by: the validator's address.
pub open spec fn address_key(v: MalValidator) -> nat {
    be_value(v.address.0@)
}

/// Whether `vals` is ordered by address, lexicographically.
pub open spec fn sorted_by_address(vals: Seq<MalValidator>) -> bool {
    forall|i: int, j: int| 0 <= i < j < vals.len() ==> address_key(vals[i]) <= address_key(vals[j])
}

/// Byte strings of equal length that agree before `k` and differ first at
/// `k` are ordered as their bytes at `k`.
pub proof fn lemma_be_value_lexicographic(s: Seq<u8>, t: Seq<u8>, k: int)
    requires
        s.len() == t.len(),
        0 <= k < s.len(),
        forall|j: int| 0 <= j < k ==> s[j] == t[j],
        s[k] < t[k],
    ensures
        be_value(s) < be_value(t),
    decreases s.len(),
{
    let n = s.len() as int;
    if k == n - 1 {
        assert(s.drop_last() =~= t.drop_last());
    } else {
        lemma_be_value_lexicographic(s.drop_last(), t.drop_last(), k);
    }
}

/// Whether the address `a` is at most the address `b`, lexicographically.
fn address_le(a: &[u8; 32], b: &[u8; 32]) -> (res: bool)
    ensures
        res == (be_value(a@) <= be_value(b@)),
{
    let mut k: usize = 0;
    while k < 32
        invariant
            k <= 32,
            forall|j: int| 0 <= j < k ==> a@[j] == b@[j],
        decreases 32 - k,
    {
        if a[k] != b[k] {
            proof {
                if a@[k as int] < b@[k as int] {
                    lemma_be_value_lexicographic(a@, b@, k as int);
                } else {
                    lemma_be_value_lexicographic(b@, a@, k as int);
                }
            }
            return a[k] < b[k];
        }
        k = k + 1;
    }
    assert(a@ =~= b@);
    true
}

/// Whether two validators are equal.
fn validator_eq(a: &MalValidator, b: &MalValidator) -> (res: bool)
    ensures
        res == (*a == *b),
{
    bytes32_eq(&a.address.0, &b.address.0) && bytes32_eq(&a.public_key, &b.public_key)
        && a.voting_power == b.voting_power
}

/// A validator set: a list of validators.
#[derive(Clone, Debug, PartialEq, Eq)]
pub struct MalValidatorSet {
    pub validators: Vec<MalValidator>,
}

impl MalValidatorSet {
    /// The set of the given validators, sorted by address and with
    /// duplicates removed.
    pub fn new(validators: Vec<MalValidator>) -> (res: MalValidatorSet)
        requires
            validators@.len() > 0,
        ensures
            sorted_by_address(res.validators@),
            res.validators@.no_duplicates(),
            forall|v: MalValidator| res.validators@.contains(v) <==> validators@.contains(v),
            res.validators@.len() > 0,
    {
        let mut out: Vec<MalValidator> = Vec::new();
        let mut i: usize = 0;
        while i < validators.len()
            invariant
                i <= validators@.len(),
                sorted_by_address(out@),
                out@.no_duplicates(),
                forall|v: MalValidator|
                    out@.contains(v) <==> validators@.subrange(0, i as int).contains(v),
            decreases validators@.len() - i,
        {
            let v = validators[i];
            let ghost pre = validators@.subrange(0, i as int);
            assert(validators@.subrange(0, i + 1) =~= pre.push(v));
            let mut present = false;
            let mut j: usize = 0;
            while j < out.len()
                invariant
                    j <= out@.len(),
                    present <==> exists|q: int| 0 <= q < j && out@[q] == v,
                decreases out@.len() - j,
            {
                if validator_eq(&out[j], &v) {
                    present = true;
                }
                j = j + 1;
            }
            if !present {
                let mut p: usize = 0;
                while p < out.len() && address_le(&out[p].address.0, &v.address.0)
                    invariant
                        p <= out@.len(),
                        forall|q: int| 0 <= q < p ==> address_key(#[trigger] out@[q]) <= address_key(v),
                    decreases out@.len() - p,
                {
                    p = p + 1;
                }
                let ghost before = out@;
                out.insert(p, v);
                proof {
                    assert(out@ == before.insert(p as int, v));
                    assert forall|a: int, b: int| 0 <= a < b < out@.len() implies address_key(out@[a])
                        <= address_key(out@[b]) by {
                        if b < p {
                            assert(out@[a] == before[a] && out@[b] == before[b]);
                        } else if b == p {
                            assert(out@[a] == before[a]);
                        } else if a < p {
                            assert(out@[a] == before[a] && out@[b] == before[b - 1]);
                        } else if a == p {
                            assert(out@[b] == before[b - 1]);
                            assert(address_key(before[p as int]) > address_key(v));
                        } else {
                            assert(out@[a] == before[a - 1] && out@[b] == before[b - 1]);
                        }
                    }
                    assert forall|a: int, b: int|
                        0 <= a < out@.len() && 0 <= b < out@.len() && a != b implies out@[a]
                        != out@[b] by {
                        let ba = if a < p { a } else if a == p { -1 } else { a - 1 };
                        let bb = if b < p { b } else if b == p { -1 } else { b - 1 };
                        if ba >= 0 && bb >= 0 {
                            assert(out@[a] == before[ba] && out@[b] == before[bb]);
                        } else if ba >= 0 {
                            assert(out@[a] == before[ba]);
                        } else if bb >= 0 {
                            assert(out@[b] == before[bb]);
                        }
                    }
                    assert forall|w: MalValidator| out@.contains(w) <==> pre.push(v).contains(w) by {
                        if out@.contains(w) {
                            let q = choose|q: int| 0 <= q < out@.len() && out@[q] == w;
                            if q < p {
                                assert(before[q] == w);
                                assert(before.contains(w));
                            } else if q > p {
                                assert(before[q - 1] == w);
                                assert(before.contains(w));
                            }
                            if w != v {
                                assert(pre.contains(w));
                                let r = choose|r: int| 0 <= r < pre.len() && pre[r] == w;
                                assert(pre.push(v)[r] == w);
                            } else {
                                assert(pre.push(v)[pre.len() as int] == w);
                            }
                        }
                        if pre.push(v).contains(w) {
                            let r = choose|r: int| 0 <= r < pre.len() + 1 && pre.push(v)[r] == w;
                            if r < pre.len() {
                                assert(pre[r] == w);
                                assert(pre.contains(w));
                                assert(before.contains(w));
                                let q = choose|q: int| 0 <= q < before.len() && before[q] == w;
                                if q < p {
                                    assert(out@[q] == w);
                                } else {
                                    assert(out@[q + 1] == w);
                                }
                            } else {
                                assert(out@[p as int] == w);
                            }
                        }
                    }
                }
            } else {
                proof {
                    assert forall|w: MalValidator| out@.contains(w) <==> pre.push(v).contains(w) by {
                        if pre.push(v).contains(w) {
                            let r = choose|r: int| 0 <= r < pre.len() + 1 && pre.push(v)[r] == w;
                            if r < pre.len() {
                                assert(pre[r] == w);
                                assert(pre.contains(w));
                            } else {
                                let q = choose|q: int| 0 <= q < out@.len() && out@[q] == v;
                                assert(out@[q] == w);
                            }
                        }
                        if out@.contains(w) {
                            assert(pre.contains(w));
                            let r = choose|r: int| 0 <= r < pre.len() && pre[r] == w;
                            assert(pre.push(v)[r] == w);
                        }
                    }
                }
            }
            i = i + 1;
        }
        assert(validators@.subrange(0, validators@.len() as int) =~= validators@);
        assert(validators@.contains(validators@[0]));
        assert(out@.contains(validators@[0]));
        MalValidatorSet { validators: out }
    }

    /// The total voting power of the validator set.
    pub fn total_voting_power(&self) -> (res: u64)
        requires
            total_power(self.validators@) <= u64::MAX,
        ensures
            res == total_power(self.validators@),
    {
        let mut total: u64 = 0;
        let mut i: usize = 0;
        while i < self.validators.len()
            invariant
                i <= self.validators@.len(),
                total_power(self.validators@) <= u64::MAX,
                total == total_power(self.validators@.subrange(0, i as int)),
            decreases self.validators@.len() - i,
        {
            proof {
                let next = self.validators@.subrange(0, i + 1);
                assert(next.drop_last() =~= self.validators@.subrange(0, i as int));
                lemma_total_power_prefix(self.validators@, i + 1);
            }
            total = total + self.validators[i].voting_power;
            i = i + 1;
        }
        assert(self.validators@.subrange(0, self.validators@.len() as int) =~= self.validators@);
        total
    }

    /// The first validator whose address is `address`, if any.
    pub fn get_by_address(&self, address: &[u8; 32]) -> (res: Option<&MalValidator>)
        ensures
            match res {
                None => forall|i: int|
                    0 <= i < self.validators@.len() ==> (#[trigger] self.validators@[i]).address.0
                        != *address,
                Some(v) => exists|i: int|
                    0 <= i < self.validators@.len() && self.validators@[i] == *v
                        && v.address.0 == *address && forall|j: int|
                        0 <= j < i ==> (#[trigger] self.validators@[j]).address.0 != *address,
            },
    {
        let mut i: usize = 0;
        while i < self.validators.len()
            invariant
                i <= self.validators@.len(),
                forall|j: int| 0 <= j < i ==> (#[trigger] self.validators@[j]).address.0 != *address,
            decreases self.validators@.len() - i,
        {
            if bytes32_eq(&self.validators[i].address.0, address) {
                return Some(&self.validators[i]);
            }
            i = i + 1;
        }
        None
    }

    /// The first validator whose public key is `public_key`, if any.
    pub fn get_by_public_key(&self, public_key: &[u8; 32]) -> (res: Option<&MalValidator>)
        ensures
            match res {
                None => forall|i: int|
                    0 <= i < self.validators@.len() ==> (#[trigger] self.validators@[i]).public_key
                        != *public_key,
                Some(v) => exists|i: int|
                    0 <= i < self.validators@.len() && self.validators@[i] == *v && v.public_key
                        == *public_key && forall|j: int|
                        0 <= j < i ==> (#[trigger] self.validators@[j]).public_key != *public_key,
            },
    {
        let mut i: usize = 0;
        while i < self.validators.len()
            invariant
                i <= self.validators@.len(),
                forall|j: int|
                    0 <= j < i ==> (#[trigger] self.validators@[j]).public_key != *public_key,
            decreases self.validators@.len() - i,
        {
            if bytes32_eq(&self.validators[i].public_key, public_key) {
                return Some(&self.validators[i]);
            }
            i = i + 1;
        }
        None
    }

    /// The public keys of the validators, in order.
    pub fn get_keys(&self) -> (res: Vec<[u8; 32]>)
        ensures
            res@ == self.validators@.map_values(|v: MalValidator| v.public_key),
    {
        let mut keys: Vec<[u8; 32]> = Vec::new();
        let mut i: usize = 0;
        while i < self.validators.len()
            invariant
                i <= self.validators@.len(),
                keys@ == self.validators@.subrange(0, i as int).map_values(
                    |v: MalValidator| v.public_key,
                ),
            decreases self.validators@.len() - i,
        {
            keys.push(self.validators[i].public_key);
            i = i + 1;
            assert(keys@ =~= self.validators@.subrange(0, i as int).map_values(
                |v: MalValidator| v.public_key,
            ));
        }
        assert(self.validators@.subrange(0, self.validators@.len() as int) =~= self.validators@);
        keys
    }

    /// The number of validators.
    pub fn count(&self) -> (res: usize)
        ensures
            res == self.validators@.len(),
    {
        self.validators.len()
    }

    /// The validator at `index`, if any.
    pub fn get_by_index(&self, index: usize) -> (res: Option<&MalValidator>)
        ensures
            index < self.validators@.len() ==> res == Some(&self.validators@[index as int]),
            index >= self.validators@.len() ==> res is None,
    {
        if index < self.validators.len() {
            Some(&self.validators[index])
        } else {
            None
        }
    }
}

/// The total power of a prefix is at most the total power of the whole list.
proof fn lemma_total_power_prefix(vals: Seq<MalValidator>, n: int)
    requires
        0 <= n <= vals.len(),
    ensures
        total_power(vals.subrange(0, n)) <= total_power(vals),
    decreases vals.len() - n,
{
    if n < vals.len() {
        lemma_total_power_prefix(vals, n + 1);
        assert(vals.subrange(0, n + 1).drop_last() =~= vals.subrange(0, n));
    } else {
        assert(vals.subrange(0, n) =~= vals);
    }
}

/// The consensus context: proposer selection and message constructors.
#[derive(Clone, Copy, Debug)]
pub struct MalContext;

/// The index of the proposer at a height and round: rotating through the
/// validators, starting with the first at height 1, round 0.
pub open spec fn proposer_index(height: u64, round: u32, count: nat) -> int {
    ((height - 1) + round) % (count as int)
}

impl MalContext {
    /// The validator that proposes at `height` and `round`.
    pub fn select_proposer<'a>(
        &self,
        validator_set: &'a MalValidatorSet,
        height: MalHeight,
        round: MalRound,
    ) -> (res: &'a MalValidator)
        requires
            validator_set.validators@.len() > 0,
            round is Number,
            1 <= height@ <= usize::MAX,
            (height@ - 1) + (match round {
                MalRound::Number(r) => r as int,
                MalRound::Nil => 0,
            }) <= usize::MAX,
        ensures
            *res == validator_set.validators@[proposer_index(
                height@,
                match round {
                    MalRound::Number(r) => r,
                    MalRound::Nil => 0,
                },
                validator_set.validators@.len(),
            )],
    {
        let h = height.as_u64() as usize;
        let r = match round {
            MalRound::Number(r) => r as usize,
            MalRound::Nil => 0,
        };
        assert(h == height@);
        let proposer_index = (h - 1 + r) % validator_set.count();
        &validator_set.validators[proposer_index]
    }

    /// A prevote from `address` for `value_id`.
    pub fn new_prevote(
        &self,
        height: MalHeight,
        round: MalRound,
        value_id: NilOrVal<MalValueId>,
        address: MalPublicKey2,
    ) -> (res: MalVote)
        ensures
            res == (MalVote {
                typ: VoteType::Prevote,
                height,
                round,
                value: value_id,
                validator_address: address,
            }),
    {
        MalVote { typ: VoteType::Prevote, height, round, value: value_id, validator_address: address }
    }

    /// A precommit from `address` for `value_id`.
    pub fn new_precommit(
        &self,
        height: MalHeight,
        round: MalRound,
        value_id: NilOrVal<MalValueId>,
        address: MalPublicKey2,
    ) -> (res: MalVote)
        ensures
            res == (MalVote {
                typ: VoteType::Precommit,
                height,
                round,
                value: value_id,
                validator_address: address,
            }),
    {
        MalVote {
            typ: VoteType::Precommit,
            height,
            round,
            value: value_id,
            validator_address: address,
        }
    }
}

/// A proposal of a value for a height and round.
#[derive(Debug)]
pub struct MalProposal {
    pub height: MalHeight,
    pub round: MalRound,
    pub value: MalValue,
    pub pol_round: MalRound,
    pub validator_address: MalPublicKey2,
}

impl MalProposal {
    /// The height proposed for.
    pub fn height(&self) -> (res: MalHeight)
        ensures
            res == self.height,
    {
        self.height
    }

    /// The round proposed in.
    pub fn round(&self) -> (res: MalRound)
        ensures
            res == self.round,
    {
        self.round
    }

    /// The proposed value.
    pub fn value(&self) -> (res: &MalValue)
        ensures
            res == &self.value,
    {
        &self.value
    }

    /// The proposed value, taking the proposal.
    pub fn take_value(self) -> (res: MalValue)
        ensures
            res == self.value,
    {
        self.value
    }

    /// The proof-of-lock round.
    pub fn pol_round(&self) -> (res: MalRound)
        ensures
            res == self.pol_round,
    {
        self.pol_round
    }

    /// The proposer's address.
    pub fn validator_address(&self) -> (res: &MalPublicKey2)
        ensures
            *res == self.validator_address,
    {
        &self.validator_address
    }
}

impl MalContext {
    /// A proposal from `address` of `value` for `height` and `round`.
    pub fn new_proposal(
        &self,
        height: MalHeight,
        round: MalRound,
        value: MalValue,
        pol_round: MalRound,
        address: MalPublicKey2,
    ) -> (res: MalProposal)
        ensures
            res.height == height,
            res.round == round,
            res.value == value,
            res.pol_round == pol_round,
            res.validator_address == address,
    {
        MalProposal { height, round, value, pol_round, validator_address: address }
    }
}

/// Signs and verifies with an Ed25519 key, given by its 32-byte seed.
pub struct MalEd25519Provider {
    private_key: [u8; 32],
}

impl MalEd25519Provider {
    /// The provider for this signing key seed.
    pub fn new(private_key: [u8; 32]) -> (res: MalEd25519Provider)
        ensures
            res.seed() == private_key@,
    {
        MalEd25519Provider { private_key }
    }

    /// The signing key seed.
    pub closed spec fn seed(&self) -> Seq<u8> {
        self.private_key@
    }

    /// The signature of `data` with this provider's key.
    pub fn sign(&self, data: &[u8]) -> (res: [u8; 64])
        ensures
            res@ == ed25519_signature_of(self.seed(), data@),
    {
        ed25519_sign(&self.private_key, data)
    }

    /// Whether `signature` is a valid signature of `data` under `public_key`.
    pub fn verify(&self, data: &[u8], signature: &[u8; 64], public_key: &[u8; 32]) -> (res: bool)
        ensures
            res == ed25519_verifies(public_key@, signature@, data@),
    {
        ed25519_verify(public_key, signature, data)
    }

    /// The signature of the vote's 76-byte layout.
    pub fn sign_vote(&self, vote: MalVote) -> (res: (MalVote, [u8; 64]))
        requires
            vote.round is Number,
        ensures
            res.0 == vote,
            res.1@ == ed25519_signature_of(self.seed(), encode_vote(vote)),
    {
        let bytes = vote.to_bytes();
        let signature = self.sign(bytes.as_slice());
        (vote, signature)
    }

    /// Whether `signature` is a valid signature of the vote's 76-byte layout.
    pub fn verify_signed_vote(
        &self,
        vote: &MalVote,
        signature: &[u8; 64],
        public_key: &[u8; 32],
    ) -> (res: bool)
        requires
            vote.round is Number,
        ensures
            res == ed25519_verifies(public_key@, signature@, encode_vote(*vote)),
    {
        let bytes = vote.to_bytes();
        self.verify(bytes.as_slice(), signature, public_key)
    }

    /// The signature of a vote extension's bytes.
    pub fn sign_vote_extension(&self, extension: &[u8]) -> (res: [u8; 64])
        ensures
            res@ == ed25519_signature_of(self.seed(), extension@),
    {
        self.sign(extension)
    }

    /// Whether `signature` is a valid signature of a vote extension's bytes.
    pub fn verify_signed_vote_extension(
        &self,
        extension: &[u8],
        signature: &[u8; 64],
        public_key: &[u8; 32],
    ) -> (res: bool)
        ensures
            res == ed25519_verifies(public_key@, signature@, extension@),
    {
        self.verify(extension, signature, public_key)
    }
}

/// The signing scheme: Ed25519 with 64-byte signatures.
#[derive(Clone, Copy, Debug, PartialEq, Eq)]
pub struct MalEd25519SigningScheme;

impl MalEd25519SigningScheme {
    /// Decode a signature from a byte array: exactly 64 bytes.
    pub fn decode_signature(bytes: &[u8]) -> (res: Result<[u8; 64], &'static str>)
        ensures
            bytes@.len() == 64 ==> (res matches Ok(sig) && sig@ == bytes@),
            bytes@.len() != 64 ==> res is Err,
    {
        if bytes.len() != 64 {
            return Err("The size was not 64 bytes.");
        }
        let mut sig = [0u8; 64];
        copy_into_array(&mut sig, bytes, 0);
        assert(bytes@.subrange(0, 64) =~= bytes@);
        Ok(sig)
    }

    /// Encode a signature to a byte array.
    pub fn encode_signature(signature: &[u8; 64]) -> (res: Vec<u8>)
        ensures
            res@ == signature@,
    {
        let mut out = Vec::new();
        append_bytes(&mut out, signature.as_slice());
        out
    }
}

/// The bytes hashed and signed for a proposal: the height and the round
/// (`-1` for `Nil`) as little-endian 64-bit integers, then the value bytes.
pub open spec fn proposal_signing_message(height: u64, round: i64, data: Seq<u8>) -> Seq<u8> {
    spec_u64_to_le_bytes(height) + spec_u64_to_le_bytes(round as u64) + data
}

/// The message a proposer signs is 16 bytes longer than the proposal's
/// data: the height (`u64`, little-endian), then the round (`i64`,
/// little-endian), then the data.
pub proof fn law_proposal_signing_message_layout(height: u64, round: i64, data: Seq<u8>)
    ensures
        proposal_signing_message(height, round, data).len() == 16 + data.len(),
        proposal_signing_message(height, round, data).subrange(0, 8) == spec_u64_to_le_bytes(height),
        proposal_signing_message(height, round, data).subrange(8, 16) == spec_u64_to_le_bytes(
            round as u64,
        ),
        spec_u64_from_le_bytes(proposal_signing_message(height, round, data).subrange(0, 8))
            == height,
        spec_u64_from_le_bytes(proposal_signing_message(height, round, data).subrange(8, 16))
            as i64 == round,
        proposal_signing_message(height, round, data).subrange(
            16,
            16 + data.len() as int,
        ) == data,
{
    lemma_auto_spec_u64_to_from_le_bytes();
    let m = proposal_signing_message(height, round, data);
    assert(m.subrange(0, 8) =~= spec_u64_to_le_bytes(height));
    assert(m.subrange(8, 16) =~= spec_u64_to_le_bytes(round as u64));
    assert(m.subrange(16, 16 + data.len() as int) =~= data);
    assert((round as u64) as i64 == round) by (bit_vector);
}

/// The signed message binds the height, the round and the data: two
/// proposals differing in any of them are signed over different messages,
/// so a signature made for one round does not pass for another.
pub proof fn law_proposal_signing_message_binds(
    h1: u64,
    r1: i64,
    d1: Seq<u8>,
    h2: u64,
    r2: i64,
    d2: Seq<u8>,
)
    ensures
        proposal_signing_message(h1, r1, d1) == proposal_signing_message(h2, r2, d2) <==> (h1 == h2
            && r1 == r2 && d1 == d2),
{
    law_proposal_signing_message_layout(h1, r1, d1);
    law_proposal_signing_message_layout(h2, r2, d2);
}

/// The BLAKE3 hash that a proposer signs for a streamed proposal.
pub fn proposal_signing_hash(height: MalHeight, round: MalRound, data: &[u8]) -> (res: [u8; 32])
    ensures
        res@ == blake3_of(proposal_signing_message(height@, round.spec_as_i64(), data@)),
{
    let mut message: Vec<u8> = Vec::new();
    let height_bytes = u64_to_le_bytes(height.as_u64());
    append_bytes(&mut message, height_bytes.as_slice());
    let round_bytes = u64_to_le_bytes(round.as_i64() as u64);
    append_bytes(&mut message, round_bytes.as_slice());
    append_bytes(&mut message, data);
    blake3_digest(message.as_slice())
}

} // verus!
